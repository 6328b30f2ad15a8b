//! The life cycle the decoders and the encoder share: unconfigured,
//! configured, or closed (on request or after an error); the count of queued
//! work; and, for the video decoder, whether a key chunk has arrived since
//! the last configure or flush. Each call is checked here before any work is
//! queued, and refused with the DOMException the WebCodecs API prescribes.

use vstd::prelude::*;
use crate::error::{CodecError, DOMExceptionName, ErrorStatus, dom_exception, dom_message};

verus! {

/// Codec state as exposed by the `state` attribute.
#[derive(Debug, Clone, Copy, PartialEq, Eq, Structural)]
pub enum CodecState {
    Unconfigured,
    Configured,
    Closed,
}

/// The name of each state.
pub open spec fn codec_state_name(s: CodecState) -> Seq<char> {
    match s {
        CodecState::Unconfigured => "unconfigured"@,
        CodecState::Configured => "configured"@,
        CodecState::Closed => "closed"@,
    }
}

impl CodecState {
    /// The state's name.
    pub fn as_str(&self) -> (s: &'static str)
        ensures
            s@ == codec_state_name(*self),
    {
        match self {
            CodecState::Unconfigured => "unconfigured",
            CodecState::Configured => "configured",
            CodecState::Closed => "closed",
        }
    }
}

/// Which codec object a life cycle belongs to; it decides the wording of the
/// refusals and the few rules that differ.
#[derive(Debug, Clone, Copy, PartialEq, Eq, Structural)]
pub enum CodecRole {
    VideoDecoder,
    AudioDecoder,
    AudioEncoder,
}

/// What `configure` goes on to do once it is accepted.
#[derive(Debug, Clone, Copy, PartialEq, Eq, Structural)]
pub enum ConfigurePath {
    /// Build a new codec context now.
    Fresh,
    /// Queue the new configuration behind the pending work (a configured
    /// video decoder).
    Reconfigure,
}

/// The life-cycle state of one codec object.
#[derive(Debug, Clone, Copy, PartialEq, Eq, Structural)]
pub struct CodecControl {
    pub role: CodecRole,
    pub state: CodecState,
    /// Work accepted and not yet processed (`decodeQueueSize` or
    /// `encodeQueueSize`).
    pub queue_size: u32,
    /// A key chunk has been accepted since the last configure or flush
    /// (consulted by the video decoder only).
    pub keyframe_received: bool,
    /// The codec was closed by an error rather than by `close`.
    pub had_error: bool,
}

/// A refusal: a generic failure whose message is the DOMException name and
/// the given text.
pub open spec fn refused_with(e: CodecError, name: DOMExceptionName, msg: Seq<char>) -> bool {
    e.status == ErrorStatus::GenericFailure && e.reason@ == dom_message(name, msg)
}

/// Only an error closes a codec with `had_error` set.
pub open spec fn control_wf(c: CodecControl) -> bool {
    c.had_error ==> c.state == CodecState::Closed
}

/// A new codec object.
pub open spec fn initial_control(role: CodecRole) -> CodecControl {
    CodecControl {
        role,
        state: CodecState::Unconfigured,
        queue_size: 0,
        keyframe_received: false,
        had_error: false,
    }
}

/// Why `configure` is refused, if it is.
pub open spec fn configure_refusal(c: CodecControl) -> Option<Seq<char>> {
    if c.state == CodecState::Closed {
        Some(
            if c.role == CodecRole::AudioEncoder {
                "Encoder is closed"@
            } else {
                "Decoder is closed"@
            },
        )
    } else {
        None
    }
}

/// The path an accepted `configure` takes.
pub open spec fn configure_path(c: CodecControl) -> ConfigurePath {
    if c.role == CodecRole::VideoDecoder && c.state == CodecState::Configured {
        ConfigurePath::Reconfigure
    } else {
        ConfigurePath::Fresh
    }
}

/// An accepted `configure` on the video decoder requires a key chunk again
/// at once.
pub open spec fn after_configure_accepted(c: CodecControl) -> CodecControl {
    if c.role == CodecRole::VideoDecoder {
        CodecControl { keyframe_received: false, ..c }
    } else {
        c
    }
}

/// A codec context built and opened: configured, nothing queued, a key
/// chunk required.
pub open spec fn after_configured(c: CodecControl) -> CodecControl {
    CodecControl { state: CodecState::Configured, queue_size: 0, keyframe_received: false, ..c }
}

/// An error reported to the error callback closes the codec.
pub open spec fn after_error(c: CodecControl) -> CodecControl {
    CodecControl { state: CodecState::Closed, had_error: true, ..c }
}

/// The message for work submitted to a closed codec.
pub open spec fn closed_work_message(role: CodecRole) -> Seq<char> {
    if role == CodecRole::AudioEncoder {
        "Cannot encode with a closed codec"@
    } else {
        "Cannot decode with a closed codec"@
    }
}

/// The message for work submitted to an unconfigured codec.
pub open spec fn unconfigured_work_message(role: CodecRole) -> Seq<char> {
    if role == CodecRole::AudioEncoder {
        "Cannot encode with an unconfigured codec"@
    } else {
        "Cannot decode with an unconfigured codec"@
    }
}

/// Why `decode` or `encode` is refused, if it is: the codec must be
/// configured, and the video decoder's first chunk after a configure or a
/// flush must be a key chunk.
pub open spec fn work_refusal(c: CodecControl, is_key: bool) -> Option<(DOMExceptionName, Seq<char>)> {
    if c.state == CodecState::Closed {
        Some((DOMExceptionName::InvalidStateError, closed_work_message(c.role)))
    } else if c.state != CodecState::Configured {
        Some((DOMExceptionName::InvalidStateError, unconfigured_work_message(c.role)))
    } else if c.role == CodecRole::VideoDecoder && !c.keyframe_received && !is_key {
        Some((DOMExceptionName::DataError, "First chunk must be a keyframe"@))
    } else {
        None
    }
}

/// Accepted work is queued; a key chunk satisfies the video decoder.
pub open spec fn after_work_queued(c: CodecControl, is_key: bool) -> CodecControl {
    CodecControl {
        queue_size: (c.queue_size + 1) as u32,
        keyframe_received: if c.role == CodecRole::VideoDecoder {
            c.keyframe_received || is_key
        } else {
            c.keyframe_received
        },
        ..c
    }
}

/// Processed work leaves the queue (which never goes below zero).
pub open spec fn after_work_done(c: CodecControl) -> CodecControl {
    CodecControl {
        queue_size: if c.queue_size > 0 {
            (c.queue_size - 1) as u32
        } else {
            0
        },
        ..c
    }
}

/// Why `flush` is refused, if it is. A decoder closed by an error reports
/// that error instead.
pub open spec fn flush_refusal(c: CodecControl) -> Option<(DOMExceptionName, Seq<char>)> {
    if c.state == CodecState::Closed {
        if c.had_error && c.role != CodecRole::AudioEncoder {
            Some((DOMExceptionName::EncodingError, "Decode error occurred"@))
        } else {
            Some((DOMExceptionName::InvalidStateError, "Cannot flush a closed codec"@))
        }
    } else if c.state == CodecState::Unconfigured {
        Some((DOMExceptionName::InvalidStateError, "Cannot flush an unconfigured codec"@))
    } else {
        None
    }
}

/// A flush makes the video decoder require a key chunk again.
pub open spec fn after_flush_accepted(c: CodecControl) -> CodecControl {
    if c.role == CodecRole::VideoDecoder {
        CodecControl { keyframe_received: false, ..c }
    } else {
        c
    }
}

/// `reset`: unconfigured, nothing queued; the decoders forget an earlier
/// error.
pub open spec fn after_reset(c: CodecControl) -> CodecControl {
    CodecControl {
        state: CodecState::Unconfigured,
        queue_size: 0,
        keyframe_received: false,
        had_error: if c.role == CodecRole::AudioEncoder {
            c.had_error
        } else {
            false
        },
        ..c
    }
}

/// `close`: closed, nothing queued.
pub open spec fn after_close(c: CodecControl) -> CodecControl {
    CodecControl { state: CodecState::Closed, queue_size: 0, ..c }
}

/// Why a queued flush fails when the worker reaches it, if it does. The
/// video decoder fails an aborted flush and one after an error; the audio
/// codecs fail unless still configured.
pub open spec fn worker_flush_refusal(c: CodecControl, aborted: bool) -> Option<(DOMExceptionName, Seq<char>)> {
    if c.role == CodecRole::VideoDecoder {
        if aborted {
            Some((DOMExceptionName::AbortError, "The operation was aborted"@))
        } else if c.had_error {
            Some((DOMExceptionName::EncodingError, "Decode error occurred"@))
        } else {
            None
        }
    } else if c.state != CodecState::Configured {
        if c.state == CodecState::Closed && c.had_error {
            Some(
                (
                    DOMExceptionName::EncodingError,
                    if c.role == CodecRole::AudioEncoder {
                        "Encode error occurred"@
                    } else {
                        "Decode error occurred"@
                    },
                ),
            )
        } else {
            Some(
                (
                    DOMExceptionName::InvalidStateError,
                    if c.role == CodecRole::AudioEncoder {
                        "Encoder is not configured"@
                    } else {
                        "Decoder is not configured"@
                    },
                ),
            )
        }
    } else {
        None
    }
}

/// How the worker treats queued work when it reaches it: `None` to process
/// it; otherwise it is dropped, silently (`Some(None)`) or reporting an
/// error that closes the codec. A video decoder no longer configured drops
/// its work; the audio codecs report it, and the audio decoder also refuses
/// an empty chunk.
pub open spec fn worker_start_outcome(c: CodecControl, empty_input: bool) -> Option<Option<Seq<char>>> {
    if c.state != CodecState::Configured {
        if c.role == CodecRole::VideoDecoder {
            Some(None)
        } else if c.role == CodecRole::AudioEncoder {
            Some(Some("Encoder not configured"@))
        } else {
            Some(Some("Decoder not configured"@))
        }
    } else if c.role == CodecRole::AudioDecoder && empty_input {
        Some(
            Some(
                dom_message(
                    DOMExceptionName::EncodingError,
                    "Cannot decode empty audio chunk data"@,
                ),
            ),
        )
    } else {
        None
    }
}

/// The worker's decision on one piece of queued work.
pub enum WorkerStart {
    /// Process it.
    Proceed,
    /// Drop it silently.
    Drop,
    /// Drop it and report this error (the codec is now closed).
    Fail(String),
}

fn refusal(name: DOMExceptionName, message: &str) -> (e: CodecError)
    ensures
        refused_with(e, name, message@),
{
    dom_exception(name, message)
}

impl CodecControl {
    /// A new codec object: unconfigured, nothing queued.
    pub fn new(role: CodecRole) -> (c: Self)
        ensures
            c == initial_control(role),
            control_wf(c),
    {
        CodecControl {
            role,
            state: CodecState::Unconfigured,
            queue_size: 0,
            keyframe_received: false,
            had_error: false,
        }
    }

    /// The checks `configure` makes once the configuration itself is valid:
    /// a closed codec refuses it; a configured video decoder queues the new
    /// configuration; otherwise a context is built at once.
    pub fn begin_configure(&mut self) -> (r: Result<ConfigurePath, CodecError>)
        ensures
            match configure_refusal(*old(self)) {
                Some(msg) => r matches Err(e) && refused_with(
                    e,
                    DOMExceptionName::InvalidStateError,
                    msg,
                ) && *final(self) == *old(self),
                None => r == Ok::<ConfigurePath, CodecError>(configure_path(*old(self)))
                    && *final(self) == after_configure_accepted(*old(self)),
            },
    {
        if self.state == CodecState::Closed {
            return Err(
                match self.role {
                    CodecRole::AudioEncoder => refusal(
                        DOMExceptionName::InvalidStateError,
                        "Encoder is closed",
                    ),
                    _ => refusal(DOMExceptionName::InvalidStateError, "Decoder is closed"),
                },
            );
        }
        if self.role == CodecRole::VideoDecoder {
            self.keyframe_received = false;
            if self.state == CodecState::Configured {
                return Ok(ConfigurePath::Reconfigure);
            }
        }
        Ok(ConfigurePath::Fresh)
    }

    /// A codec context was built and opened. Returns how much queued work
    /// was dropped.
    pub fn configured(&mut self) -> (cleared: u32)
        requires
            old(self).state != CodecState::Closed,
        ensures
            cleared == old(self).queue_size,
            *final(self) == after_configured(*old(self)),
    {
        let cleared = self.queue_size;
        self.state = CodecState::Configured;
        self.queue_size = 0;
        self.keyframe_received = false;
        cleared
    }

    /// An error was reported to the error callback: the codec closes.
    pub fn report_error(&mut self)
        ensures
            *final(self) == after_error(*old(self)),
    {
        self.state = CodecState::Closed;
        self.had_error = true;
    }

    /// The checks `decode` or `encode` makes before queueing its work.
    pub fn begin_work(&mut self, is_key: bool) -> (r: Result<(), CodecError>)
        requires
            work_refusal(*old(self), is_key) is None ==> old(self).queue_size < u32::MAX,
        ensures
            match work_refusal(*old(self), is_key) {
                Some((name, msg)) => r matches Err(e) && refused_with(e, name, msg) && *final(self)
                    == *old(self),
                None => r is Ok && *final(self) == after_work_queued(*old(self), is_key),
            },
    {
        let encoder = self.role == CodecRole::AudioEncoder;
        if self.state == CodecState::Closed {
            return Err(
                if encoder {
                    refusal(DOMExceptionName::InvalidStateError, "Cannot encode with a closed codec")
                } else {
                    refusal(DOMExceptionName::InvalidStateError, "Cannot decode with a closed codec")
                },
            );
        }
        if self.state != CodecState::Configured {
            return Err(
                if encoder {
                    refusal(
                        DOMExceptionName::InvalidStateError,
                        "Cannot encode with an unconfigured codec",
                    )
                } else {
                    refusal(
                        DOMExceptionName::InvalidStateError,
                        "Cannot decode with an unconfigured codec",
                    )
                },
            );
        }
        if self.role == CodecRole::VideoDecoder && !self.keyframe_received {
            if is_key {
                self.keyframe_received = true;
            } else {
                return Err(refusal(DOMExceptionName::DataError, "First chunk must be a keyframe"));
            }
        }
        self.queue_size = self.queue_size + 1;
        Ok(())
    }

    /// One piece of queued work was processed. Returns whether a `dequeue`
    /// event is due (the queue was not already empty).
    pub fn finish_work(&mut self) -> (fire: bool)
        ensures
            fire == (old(self).queue_size > 0),
            *final(self) == after_work_done(*old(self)),
    {
        let old_size = self.queue_size;
        self.queue_size = old_size.saturating_sub(1);
        old_size > 0
    }

    /// The checks `flush` makes before the flush is queued.
    pub fn begin_flush(&mut self) -> (r: Result<(), CodecError>)
        ensures
            match flush_refusal(*old(self)) {
                Some((name, msg)) => r matches Err(e) && refused_with(e, name, msg) && *final(self)
                    == *old(self),
                None => r is Ok && *final(self) == after_flush_accepted(*old(self)),
            },
    {
        if self.state == CodecState::Closed {
            if self.had_error && self.role != CodecRole::AudioEncoder {
                return Err(refusal(DOMExceptionName::EncodingError, "Decode error occurred"));
            }
            return Err(refusal(DOMExceptionName::InvalidStateError, "Cannot flush a closed codec"));
        }
        if self.state == CodecState::Unconfigured {
            return Err(
                refusal(DOMExceptionName::InvalidStateError, "Cannot flush an unconfigured codec"),
            );
        }
        if self.role == CodecRole::VideoDecoder {
            self.keyframe_received = false;
        }
        Ok(())
    }

    /// `reset`: refused once closed; otherwise back to unconfigured with the
    /// queue emptied. Returns how much queued work was dropped.
    pub fn reset(&mut self) -> (r: Result<u32, CodecError>)
        ensures
            if old(self).state == CodecState::Closed {
                r matches Err(e) && refused_with(
                    e,
                    DOMExceptionName::InvalidStateError,
                    "Cannot reset a closed codec"@,
                ) && *final(self) == *old(self)
            } else {
                r == Ok::<u32, CodecError>(old(self).queue_size) && *final(self) == after_reset(
                    *old(self),
                )
            },
    {
        if self.state == CodecState::Closed {
            return Err(refusal(DOMExceptionName::InvalidStateError, "Cannot reset a closed codec"));
        }
        let cleared = self.queue_size;
        self.state = CodecState::Unconfigured;
        self.queue_size = 0;
        self.keyframe_received = false;
        if self.role != CodecRole::AudioEncoder {
            self.had_error = false;
        }
        Ok(cleared)
    }

    /// `close`: refused once closed; otherwise closed with the queue
    /// emptied. Returns how much queued work was dropped.
    pub fn close(&mut self) -> (r: Result<u32, CodecError>)
        ensures
            if old(self).state == CodecState::Closed {
                r matches Err(e) && refused_with(
                    e,
                    DOMExceptionName::InvalidStateError,
                    "Cannot close an already closed codec"@,
                ) && *final(self) == *old(self)
            } else {
                r == Ok::<u32, CodecError>(old(self).queue_size) && *final(self) == after_close(
                    *old(self),
                )
            },
    {
        if self.state == CodecState::Closed {
            return Err(
                refusal(DOMExceptionName::InvalidStateError, "Cannot close an already closed codec"),
            );
        }
        let cleared = self.queue_size;
        self.state = CodecState::Closed;
        self.queue_size = 0;
        Ok(cleared)
    }

    /// The checks the worker makes when it reaches a queued flush
    /// (`aborted`: a reset came in between, seen by the video decoder).
    /// `Ok(true)`: drain the codec; `Ok(false)`: resolve without draining.
    pub fn worker_flush(&self, aborted: bool) -> (r: Result<bool, CodecError>)
        ensures
            match worker_flush_refusal(*self, aborted) {
                Some((name, msg)) => r matches Err(e) && refused_with(e, name, msg),
                None => r == Ok::<bool, CodecError>(self.state == CodecState::Configured),
            },
    {
        let encoder = self.role == CodecRole::AudioEncoder;
        if self.role == CodecRole::VideoDecoder {
            if aborted {
                return Err(refusal(DOMExceptionName::AbortError, "The operation was aborted"));
            }
            if self.had_error {
                return Err(refusal(DOMExceptionName::EncodingError, "Decode error occurred"));
            }
            return Ok(self.state == CodecState::Configured);
        }
        if self.state != CodecState::Configured {
            if self.state == CodecState::Closed && self.had_error {
                return Err(
                    if encoder {
                        refusal(DOMExceptionName::EncodingError, "Encode error occurred")
                    } else {
                        refusal(DOMExceptionName::EncodingError, "Decode error occurred")
                    },
                );
            }
            return Err(
                if encoder {
                    refusal(DOMExceptionName::InvalidStateError, "Encoder is not configured")
                } else {
                    refusal(DOMExceptionName::InvalidStateError, "Decoder is not configured")
                },
            );
        }
        Ok(true)
    }

    /// The worker reaches a piece of queued work. Dropped work leaves the
    /// queue at once; the second result says whether a `dequeue` event is
    /// then due.
    pub fn worker_start(&mut self, empty_input: bool) -> (r: (WorkerStart, bool))
        ensures
            match worker_start_outcome(*old(self), empty_input) {
                None => r.0 is Proceed && !r.1 && *final(self) == *old(self),
                Some(None) => r.0 is Drop && r.1 == (old(self).queue_size > 0) && *final(self)
                    == after_work_done(*old(self)),
                Some(Some(msg)) => r.0 matches WorkerStart::Fail(m) && m@ == msg && r.1 == (
                old(self).queue_size > 0) && *final(self) == after_error(after_work_done(*old(self))),
            },
    {
        if self.state != CodecState::Configured {
            let fire = self.finish_work();
            if self.role == CodecRole::VideoDecoder {
                return (WorkerStart::Drop, fire);
            }
            self.report_error();
            let m = if self.role == CodecRole::AudioEncoder {
                String::from_str("Encoder not configured")
            } else {
                String::from_str("Decoder not configured")
            };
            return (WorkerStart::Fail(m), fire);
        }
        if self.role == CodecRole::AudioDecoder && empty_input {
            let fire = self.finish_work();
            self.report_error();
            let e = dom_exception(DOMExceptionName::EncodingError, "Cannot decode empty audio chunk data");
            return (WorkerStart::Fail(e.reason), fire);
        }
        (WorkerStart::Proceed, false)
    }

    /// The state's name.
    pub fn state_string(&self) -> (s: &'static str)
        ensures
            s@ == codec_state_name(self.state),
    {
        self.state.as_str()
    }
}

// ----------------------------------------------------------------------------
// Laws of the life cycle
// ----------------------------------------------------------------------------

/// Every transition keeps the rule that only an error leaves `had_error` set.
pub proof fn lemma_transitions_keep_wf(c: CodecControl, is_key: bool)
    requires
        control_wf(c),
    ensures
        control_wf(after_configure_accepted(c)),
        c.state != CodecState::Closed ==> control_wf(after_configured(c)),
        control_wf(after_error(c)),
        control_wf(after_work_queued(c, is_key)),
        control_wf(after_work_done(c)),
        control_wf(after_flush_accepted(c)),
        c.state != CodecState::Closed ==> control_wf(after_reset(c)),
        control_wf(after_close(c)),
{
}

/// Once closed, a codec refuses `configure`, `decode`/`encode` and `flush`
/// (and `reset` and `close`, whose contracts say so directly).
pub proof fn lemma_closed_refuses_all(c: CodecControl, is_key: bool)
    requires
        c.state == CodecState::Closed,
    ensures
        configure_refusal(c) is Some,
        work_refusal(c, is_key) is Some,
        flush_refusal(c) is Some,
{
}

/// `reset` on a codec that is not closed gives back a new codec object.
pub proof fn lemma_reset_is_fresh(c: CodecControl)
    requires
        control_wf(c),
        c.state != CodecState::Closed,
    ensures
        after_reset(c) == initial_control(c.role),
{
}

/// Accepted work and its processing leave the queue as it was.
pub proof fn lemma_work_round_trip(c: CodecControl, is_key: bool)
    requires
        work_refusal(c, is_key) is None,
        c.queue_size < u32::MAX,
    ensures
        after_work_done(after_work_queued(c, is_key)).queue_size == c.queue_size,
{
}

/// After a configure or a flush, the video decoder refuses a delta chunk
/// with a DataError and accepts a key chunk.
pub proof fn lemma_key_chunk_after_configure_and_flush(c: CodecControl)
    requires
        c.role == CodecRole::VideoDecoder,
        c.state != CodecState::Closed,
    ensures
        work_refusal(after_configured(c), false) == Some(
            (DOMExceptionName::DataError, "First chunk must be a keyframe"@),
        ),
        work_refusal(after_configured(c), true) is None,
        c.state == CodecState::Configured ==> work_refusal(after_flush_accepted(c), false) == Some(
            (DOMExceptionName::DataError, "First chunk must be a keyframe"@),
        ),
        c.state == CodecState::Configured ==> work_refusal(after_flush_accepted(c), true) is None,
{
}

/// Once a key chunk is accepted, the video decoder takes delta chunks until
/// the next configure or flush.
pub proof fn lemma_delta_after_key(c: CodecControl)
    requires
        c.role == CodecRole::VideoDecoder,
        work_refusal(c, true) is None,
    ensures
        work_refusal(after_work_queued(c, true), false) is None,
{
}

} // verus!
