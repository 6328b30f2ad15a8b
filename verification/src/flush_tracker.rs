//! Tracks pending flush operations so that overlapping flushes keep their own
//! abort and output-delivery state.

use vstd::prelude::*;
use std::sync::Arc;
use std::sync::atomic::{AtomicBool, Ordering};
use crossbeam::channel::Sender;
use crate::error::{abort_error, CodecError};

verus! {

#[verifier::external_type_specification]
#[verifier::external_body]
#[verifier::reject_recursive_types(T)]
pub struct ExSender<T>(Sender<T>);

/// `Sender::try_send`: hands `value` to the channel only if it can take it
/// without blocking. Whether it did depends on the channel's state at the
/// time, so nothing is stated of the result.
#[verifier::external_body]
fn try_send<T>(sender: &Sender<T>, value: T) -> bool {
    sender.try_send(value).is_ok()
}

/// The channel on which a flush's outcome is reported.
pub type FlushResponse = Sender<Result<(), CodecError>>;

struct PendingFlush {
    id: u64,
    response_sender: FlushResponse,
    abort_flag: Arc<AtomicBool>,
    buffering_outputs: bool,
}

/// Number of entries that are still buffering outputs.
pub open spec fn count_buffering(s: Seq<(u64, bool)>) -> nat
    decreases s.len(),
{
    if s.len() == 0 {
        0
    } else {
        count_buffering(s.drop_last()) + if s.last().1 {
            1nat
        } else {
            0nat
        }
    }
}

proof fn lemma_count_bounds(s: Seq<(u64, bool)>)
    ensures
        count_buffering(s) <= s.len(),
        count_buffering(s) > 0 <==> exists|i: int| 0 <= i < s.len() && (#[trigger] s[i]).1,
    decreases s.len(),
{
    if s.len() > 0 {
        lemma_count_bounds(s.drop_last());
        if count_buffering(s.drop_last()) > 0 {
            let i = choose|i: int| 0 <= i < s.drop_last().len() && (#[trigger] s.drop_last()[i]).1;
            assert(s[i].1);
        }
        if exists|i: int| 0 <= i < s.len() && (#[trigger] s[i]).1 {
            let i = choose|i: int| 0 <= i < s.len() && (#[trigger] s[i]).1;
            if i < s.len() - 1 {
                assert(s.drop_last()[i].1);
            }
        }
    }
}

proof fn lemma_count_push(s: Seq<(u64, bool)>, e: (u64, bool))
    ensures
        count_buffering(s.push(e)) == count_buffering(s) + if e.1 {
            1nat
        } else {
            0nat
        },
{
    assert(s.push(e).drop_last() =~= s);
}

proof fn lemma_count_update(s: Seq<(u64, bool)>, i: int, e: (u64, bool))
    requires
        0 <= i < s.len(),
    ensures
        count_buffering(s.update(i, e)) + (if s[i].1 {
            1nat
        } else {
            0nat
        }) == count_buffering(s) + if e.1 {
            1nat
        } else {
            0nat
        },
    decreases s.len(),
{
    if i == s.len() - 1 {
        assert(s.update(i, e).drop_last() =~= s.drop_last());
    } else {
        lemma_count_update(s.drop_last(), i, e);
        assert(s.update(i, e).drop_last() =~= s.drop_last().update(i, e));
    }
}

/// Tracks pending flushes: each has an id and is either still buffering
/// worker outputs or already delivering them.
pub struct FlushTracker {
    next_id: u64,
    pending: Vec<PendingFlush>,
    buffering_count: usize,
}

impl FlushTracker {
    /// The pending flushes in order: id, and whether it still buffers outputs.
    pub closed spec fn entries(&self) -> Seq<(u64, bool)> {
        self.pending@.map_values(|p: PendingFlush| (p.id, p.buffering_outputs))
    }

    /// The id the next registered flush receives.
    pub closed spec fn next_id(&self) -> u64 {
        self.next_id
    }

    /// The count of buffering flushes is kept in step with the entries.
    pub closed spec fn wf(&self) -> bool {
        self.buffering_count == count_buffering(self.entries())
    }

    /// Register a flush; it buffers worker outputs until its delivery begins.
    /// Returns its id; ids are handed out in sequence, wrapping around.
    pub fn register(&mut self, response_sender: FlushResponse, abort_flag: Arc<AtomicBool>) -> (id:
        u64)
        requires
            old(self).wf(),
            old(self).entries().len() < usize::MAX,
        ensures
            final(self).wf(),
            id == old(self).next_id(),
            final(self).next_id() == (if old(self).next_id() == u64::MAX {
                0
            } else {
                (old(self).next_id() + 1) as u64
            }),
            final(self).entries() == old(self).entries().push((id, true)),
    {
        proof {
            lemma_count_bounds(self.entries());
            lemma_count_push(self.entries(), (self.next_id, true));
        }
        let id = self.next_id;
        self.next_id = self.next_id.wrapping_add(1);
        self.pending.push(
            PendingFlush { id, response_sender, abort_flag, buffering_outputs: true },
        );
        self.buffering_count = self.buffering_count + 1;
        assert(self.entries() =~= old(self).entries().push((id, true)));
        id
    }

    /// Forget the first pending flush with `id`, if any; the last pending
    /// flush takes its place.
    pub fn finish(&mut self, id: u64)
        requires
            old(self).wf(),
        ensures
            final(self).wf(),
            final(self).next_id() == old(self).next_id(),
            (forall|j: int| 0 <= j < old(self).entries().len() ==> (#[trigger] old(self).entries()[j]).0
                != id) ==> final(self).entries() == old(self).entries(),
            forall|i: int|
                0 <= i < old(self).entries().len() && (#[trigger] old(self).entries()[i]).0 == id
                    && (forall|j: int| 0 <= j < i ==> (#[trigger] old(self).entries()[j]).0 != id)
                    ==> final(self).entries() == old(self).entries().update(
                    i,
                    old(self).entries().last(),
                ).drop_last(),
    {
        let ghost e = self.entries();
        let mut i: usize = 0;
        while i < self.pending.len()
            invariant
                i <= self.pending@.len(),
                e == self.entries(),
                e.len() == self.pending@.len(),
                self.wf(),
                self.next_id == old(self).next_id,
                e == old(self).entries(),
                forall|j: int| 0 <= j < i ==> (#[trigger] e[j]).0 != id,
            decreases self.pending@.len() - i,
        {
            if self.pending[i].id == id {
                proof {
                    assert(e[i as int].0 == id);
                    lemma_count_update(e, i as int, e.last());
                    assert(e.update(i as int, e.last()).drop_last().push(e.last()) =~= e.update(
                        i as int,
                        e.last(),
                    ));
                    lemma_count_push(e.update(i as int, e.last()).drop_last(), e.last());
                    lemma_count_bounds(e);
                }
                let flush = self.pending.swap_remove(i);
                if flush.buffering_outputs {
                    self.buffering_count = self.buffering_count.saturating_sub(1);
                }
                assert(self.entries() =~= e.update(i as int, e.last()).drop_last());
                return;
            }
            i = i + 1;
        }
    }

    /// Stop buffering outputs for the first pending flush with `id` that
    /// still buffers them, keeping it pending (and abortable).
    pub fn begin_output_delivery(&mut self, id: u64)
        requires
            old(self).wf(),
        ensures
            final(self).wf(),
            final(self).next_id() == old(self).next_id(),
            (forall|j: int|
                0 <= j < old(self).entries().len() ==> #[trigger] old(self).entries()[j] != (
                id,
                true,
            )) ==> final(self).entries() == old(self).entries(),
            forall|i: int|
                0 <= i < old(self).entries().len() && #[trigger] old(self).entries()[i] == (id, true)
                    && (forall|j: int| 0 <= j < i ==> #[trigger] old(self).entries()[j] != (id, true))
                    ==> final(self).entries() == old(self).entries().update(i, (id, false)),
    {
        let ghost e = self.entries();
        let mut i: usize = 0;
        while i < self.pending.len()
            invariant
                i <= self.pending@.len(),
                e == self.entries(),
                e.len() == self.pending@.len(),
                self.wf(),
                self.next_id == old(self).next_id,
                e == old(self).entries(),
                forall|j: int| 0 <= j < i ==> #[trigger] e[j] != (id, true),
            decreases self.pending@.len() - i,
        {
            if self.pending[i].id == id && self.pending[i].buffering_outputs {
                proof {
                    assert(e[i as int] == (id, true));
                    lemma_count_update(e, i as int, (id, false));
                }
                let ghost before = self.pending@;
                self.pending[i].buffering_outputs = false;
                assert(self.pending@ =~= before.update(
                    i as int,
                    PendingFlush { buffering_outputs: false, ..before[i as int] },
                ));
                self.buffering_count = self.buffering_count.saturating_sub(1);
                assert(self.entries() =~= e.update(i as int, (id, false)));
                return;
            }
            i = i + 1;
        }
    }

    /// Whether new worker outputs must be buffered: exactly when some pending
    /// flush still buffers them.
    pub fn should_buffer_outputs(&self) -> (r: bool)
        requires
            self.wf(),
        ensures
            r == (count_buffering(self.entries()) != 0),
            r == exists|i: int| 0 <= i < self.entries().len() && (#[trigger] self.entries()[i]).1,
    {
        proof {
            lemma_count_bounds(self.entries());
        }
        self.buffering_count != 0
    }

    /// Abort every pending flush: raise its abort flag and offer it an
    /// AbortError without blocking. No flush remains pending.
    pub fn abort_all(&mut self)
        ensures
            final(self).wf(),
            final(self).entries() == Seq::<(u64, bool)>::empty(),
            final(self).next_id() == old(self).next_id(),
    {
        self.buffering_count = 0;
        while self.pending.len() > 0
            invariant
                self.buffering_count == 0,
                self.next_id == old(self).next_id,
            decreases self.pending@.len(),
        {
            let flush = self.pending.remove(0);
            flush.abort_flag.store(true, Ordering::SeqCst);
            let _ = try_send(&flush.response_sender, Err(abort_error("The operation was aborted")));
        }
        assert(self.entries() =~= Seq::<(u64, bool)>::empty());
    }

    /// Forget every pending flush without notifying any of them.
    pub fn clear(&mut self)
        ensures
            final(self).wf(),
            final(self).entries() == Seq::<(u64, bool)>::empty(),
            final(self).next_id() == old(self).next_id(),
    {
        self.pending.clear();
        self.buffering_count = 0;
        assert(self.entries() =~= Seq::<(u64, bool)>::empty());
    }

    /// Number of pending flushes.
    pub fn pending_count(&self) -> (n: usize)
        ensures
            n == self.entries().len(),
    {
        self.pending.len()
    }
}

impl Default for FlushTracker {
    /// An empty tracker whose first flush gets id 0.
    fn default() -> (t: Self)
        ensures
            t.wf(),
            t.entries() == Seq::<(u64, bool)>::empty(),
            t.next_id() == 0,
    {
        let t = FlushTracker { next_id: 0, pending: Vec::new(), buffering_count: 0 };
        assert(t.entries() =~= Seq::<(u64, bool)>::empty());
        t
    }
}

/// Law: when one pending flush begins delivering its outputs, any other
/// pending flush that still buffers keeps outputs buffered; and once no
/// pending flush buffers, outputs are no longer buffered.
pub proof fn lemma_delivery_keeps_other_flushes_buffering(
    s: Seq<(u64, bool)>,
    i: int,
    j: int,
    id: u64,
)
    requires
        0 <= i < s.len(),
        0 <= j < s.len(),
        i != j,
        s[j].1,
    ensures
        count_buffering(s.update(i, (id, false))) != 0,
        (forall|k: int| 0 <= k < s.len() ==> !(#[trigger] s[k]).1) ==> count_buffering(s) == 0,
{
    lemma_count_bounds(s);
    lemma_count_bounds(s.update(i, (id, false)));
    assert(s.update(i, (id, false))[j].1);
}

} // verus!
