//! The audio encoder's timeline. Input is regrouped into frames of the
//! encoder's frame size, so output timestamps are not the input's: frame `n`
//! is stamped `base + n * frame_size * 1_000_000 / sample_rate`, where `base`
//! is the timestamp of the first input. Each frame's timestamp is queued when
//! the frame is handed to the encoder and taken, oldest first, by the packets
//! that come out. The first packet carries the decoder configuration.

use vstd::prelude::*;
use std::collections::VecDeque;
use crate::demuxer_base::{in_i64, trunc_div};

verus! {

/// The timestamp of frame `frame_count`, in microseconds.
pub open spec fn spec_frame_timestamp(base: i64, frame_count: u64, frame_size: usize, sample_rate: u32) -> int {
    base + (frame_count * frame_size * 1_000_000) / (sample_rate as int)
}

/// Where that timestamp is computed without overflow in 64-bit arithmetic.
pub open spec fn frame_time_fits(base: i64, frame_count: u64, frame_size: usize, sample_rate: u32) -> bool {
    &&& sample_rate > 0
    &&& frame_count <= i64::MAX
    &&& frame_size <= i64::MAX
    &&& frame_count * frame_size * 1_000_000 <= i64::MAX
    &&& in_i64(spec_frame_timestamp(base, frame_count, frame_size, sample_rate))
}

/// The duration in microseconds of `samples` samples at `sample_rate`,
/// rounded toward zero.
pub open spec fn spec_duration_us(samples: i64, sample_rate: i64) -> int {
    trunc_div(samples * 1_000_000, sample_rate as int)
}

/// The duration of a frame of `samples` samples, in microseconds.
pub fn frame_duration_us(samples: i64, sample_rate: i64) -> (r: i64)
    requires
        sample_rate > 0,
        in_i64(samples * 1_000_000),
    ensures
        r == spec_duration_us(samples, sample_rate),
{
    let scaled = samples * 1_000_000;
    let mag: u64 = if scaled < 0 {
        (0i128 - scaled as i128) as u64
    } else {
        scaled as u64
    };
    let q: u64 = mag / (sample_rate as u64);
    assert(q <= mag) by {
        vstd::arithmetic::div_mod::lemma_div_is_ordered_by_denominator(mag as int, 1, sample_rate as int);
    }
    if scaled < 0 {
        assert(q <= i64::MAX + 1);
        (0i128 - q as i128) as i64
    } else {
        q as i64
    }
}

/// The encoder-side timeline: where output timestamps start, how many full
/// frames have been encoded, the timestamps of frames whose packets are still
/// to come (oldest first), and whether the decoder configuration has been
/// sent with a packet.
pub struct EncodeTimeline {
    pub base_timestamp: Option<i64>,
    pub frame_count: u64,
    pub pending: VecDeque<i64>,
    pub extradata_sent: bool,
}

impl EncodeTimeline {
    /// A timeline before any input.
    pub fn new() -> (t: Self)
        ensures
            t.base_timestamp is None,
            t.frame_count == 0,
            t.pending@ == Seq::<i64>::empty(),
            !t.extradata_sent,
    {
        EncodeTimeline {
            base_timestamp: None,
            frame_count: 0,
            pending: VecDeque::new(),
            extradata_sent: false,
        }
    }

    /// Input arrived: the first input fixes where output timestamps start.
    pub fn note_input(&mut self, timestamp: i64)
        ensures
            final(self).base_timestamp == match old(self).base_timestamp {
                Some(b) => Some(b),
                None => Some(timestamp),
            },
            final(self).frame_count == old(self).frame_count,
            final(self).pending@ == old(self).pending@,
            final(self).extradata_sent == old(self).extradata_sent,
    {
        if self.base_timestamp.is_none() {
            self.base_timestamp = Some(timestamp);
        }
    }

    /// The timestamp of the next frame (`base` is 0 before any input).
    pub fn frame_timestamp(&self, frame_size: usize, sample_rate: u32) -> (ts: i64)
        requires
            frame_time_fits(
                match self.base_timestamp {
                    Some(b) => b,
                    None => 0,
                },
                self.frame_count,
                frame_size,
                sample_rate,
            ),
        ensures
            ts == spec_frame_timestamp(
                match self.base_timestamp {
                    Some(b) => b,
                    None => 0,
                },
                self.frame_count,
                frame_size,
                sample_rate,
            ),
    {
        let base: i64 = match self.base_timestamp {
            Some(b) => b,
            None => 0,
        };
        let fc = self.frame_count;
        let fs = frame_size as u64;
        assert(fc * fs <= fc * fs * 1_000_000) by (nonlinear_arith)
            requires
                fc * fs >= 0,
        ;
        let num: u64 = fc * fs * 1_000_000;
        let q: u64 = num / (sample_rate as u64);
        assert(q <= num) by {
            vstd::arithmetic::div_mod::lemma_div_is_ordered_by_denominator(num as int, 1, sample_rate as int);
        }
        base + q as i64
    }

    /// A frame is handed to the encoder: its timestamp is computed and queued
    /// for the packets it produces.
    pub fn begin_frame(&mut self, frame_size: usize, sample_rate: u32) -> (ts: i64)
        requires
            frame_time_fits(
                match old(self).base_timestamp {
                    Some(b) => b,
                    None => 0,
                },
                old(self).frame_count,
                frame_size,
                sample_rate,
            ),
        ensures
            ts == spec_frame_timestamp(
                match old(self).base_timestamp {
                    Some(b) => b,
                    None => 0,
                },
                old(self).frame_count,
                frame_size,
                sample_rate,
            ),
            final(self).pending@ == old(self).pending@.push(ts),
            final(self).base_timestamp == old(self).base_timestamp,
            final(self).frame_count == old(self).frame_count,
            final(self).extradata_sent == old(self).extradata_sent,
    {
        let ts = self.frame_timestamp(frame_size, sample_rate);
        self.pending.push_back(ts);
        ts
    }

    /// A full frame was encoded.
    pub fn frame_encoded(&mut self)
        requires
            old(self).frame_count < u64::MAX,
        ensures
            final(self).frame_count == old(self).frame_count + 1,
            final(self).base_timestamp == old(self).base_timestamp,
            final(self).pending@ == old(self).pending@,
            final(self).extradata_sent == old(self).extradata_sent,
    {
        self.frame_count = self.frame_count + 1;
    }

    /// The timestamp of the next packet: the oldest queued frame's, if any.
    pub fn next_output_timestamp(&mut self) -> (ts: Option<i64>)
        ensures
            old(self).pending@.len() == 0 ==> ts is None && final(self).pending@ == old(self).pending@,
            old(self).pending@.len() > 0 ==> ts == Some(old(self).pending@[0]) && final(self).pending@
                == old(self).pending@.drop_first(),
            final(self).base_timestamp == old(self).base_timestamp,
            final(self).frame_count == old(self).frame_count,
            final(self).extradata_sent == old(self).extradata_sent,
    {
        let r = self.pending.pop_front();
        proof {
            if old(self).pending@.len() > 0 {
                assert(final(self).pending@ =~= old(self).pending@.drop_first());
            }
        }
        r
    }

    /// Whether this packet carries the decoder configuration: only the first
    /// packet does.
    pub fn take_decoder_config_due(&mut self) -> (due: bool)
        ensures
            due == !old(self).extradata_sent,
            final(self).extradata_sent,
            final(self).base_timestamp == old(self).base_timestamp,
            final(self).frame_count == old(self).frame_count,
            final(self).pending@ == old(self).pending@,
    {
        let due = !self.extradata_sent;
        self.extradata_sent = true;
        due
    }

    /// `reset`: back to a timeline before any input.
    pub fn reset(&mut self)
        ensures
            final(self).base_timestamp is None,
            final(self).frame_count == 0,
            final(self).pending@ == Seq::<i64>::empty(),
            !final(self).extradata_sent,
    {
        self.base_timestamp = None;
        self.frame_count = 0;
        self.pending.clear();
        self.extradata_sent = false;
    }
}

/// The first frame is stamped with the first input's timestamp.
pub proof fn lemma_first_frame_at_base(base: i64, frame_size: usize, sample_rate: u32)
    requires
        sample_rate > 0,
    ensures
        spec_frame_timestamp(base, 0, frame_size, sample_rate) == base,
{
}

/// Frame timestamps never go backwards as frames are encoded.
pub proof fn lemma_frame_timestamps_monotonic(
    base: i64,
    earlier: u64,
    later: u64,
    frame_size: usize,
    sample_rate: u32,
)
    requires
        sample_rate > 0,
        earlier <= later,
    ensures
        spec_frame_timestamp(base, earlier, frame_size, sample_rate) <= spec_frame_timestamp(
            base,
            later,
            frame_size,
            sample_rate,
        ),
{
    assert(earlier * frame_size * 1_000_000 <= later * frame_size * 1_000_000) by (nonlinear_arith)
        requires
            earlier <= later,
            frame_size >= 0,
    ;
    vstd::arithmetic::div_mod::lemma_div_is_ordered(
        earlier * frame_size * 1_000_000,
        later * frame_size * 1_000_000,
        sample_rate as int,
    );
}

} // verus!
