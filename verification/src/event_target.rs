//! The listener registry behind a codec's EventTarget: which listeners are
//! registered (DOM addEventListener / removeEventListener semantics), the
//! order a dispatch calls them in, `once` listeners leaving before their
//! call, and the counters that decide when the codec object and the process
//! must be kept alive.
//!
//! Callbacks are identified by a handle chosen by the caller: two handles are
//! equal exactly when the callbacks are strictly equal.

use vstd::prelude::*;

verus! {

/// A registered listener.
pub struct ListenerEntry {
    /// Registration order.
    pub id: u64,
    /// The event type listened for.
    pub event_type: String,
    /// Removed before its first call.
    pub once: bool,
    /// The DOM capture flag (part of the listener's identity).
    pub capture: bool,
    /// The callback's handle.
    pub callback: u64,
}

/// One call planned by a dispatch.
#[derive(Debug, Clone, Copy, PartialEq, Eq, Structural)]
pub struct DispatchItem {
    pub id: u64,
    pub once: bool,
    pub callback: u64,
    /// The `ondequeue` event handler rather than a listener.
    pub is_ondequeue: bool,
}

/// The event a codec fires on its own.
pub open spec fn dequeue() -> Seq<char> {
    seq!['d', 'e', 'q', 'u', 'e', 'u', 'e']
}

/// A `once` listener for the dequeue event: while one is registered the
/// process is kept alive.
pub open spec fn is_once_dequeue(e: ListenerEntry) -> bool {
    e.once && e.event_type@ == dequeue()
}

/// The number of `once` dequeue listeners.
pub open spec fn once_dequeue_count(s: Seq<ListenerEntry>) -> nat
    decreases s.len(),
{
    if s.len() == 0 {
        0
    } else {
        once_dequeue_count(s.drop_last()) + if is_once_dequeue(s.last()) {
            1nat
        } else {
            0nat
        }
    }
}

/// Two registrations are the same listener: same type, callback and capture.
pub open spec fn same_listener(e: ListenerEntry, event_type: Seq<char>, callback: u64, capture: bool) -> bool {
    e.event_type@ == event_type && e.callback == callback && e.capture == capture
}

/// Whether a listener is registered.
pub open spec fn has_listener(s: Seq<ListenerEntry>, event_type: Seq<char>, callback: u64, capture: bool) -> bool {
    exists|i: int| 0 <= i < s.len() && same_listener(#[trigger] s[i], event_type, callback, capture)
}

/// The state of a codec's EventTarget.
pub struct CodecEventState {
    /// Registered listeners, in registration order.
    pub listeners: Vec<ListenerEntry>,
    /// The next registration number.
    pub next_listener_id: u64,
    /// Registered `once` dequeue listeners not yet fired.
    pub once_pending: usize,
    /// The `ondequeue` handler.
    pub ondequeue: Option<u64>,
    /// The registration number of the `ondequeue` handler.
    pub ondequeue_id: u64,
    /// Enqueued work whose dequeue dispatch has not been delivered or
    /// discarded; while positive the codec object is held strongly.
    pub outstanding: usize,
}

/// The count after appending one listener.
pub proof fn lemma_count_push(s: Seq<ListenerEntry>, e: ListenerEntry)
    ensures
        once_dequeue_count(s.push(e)) == once_dequeue_count(s) + if is_once_dequeue(e) {
            1nat
        } else {
            0nat
        },
{
    assert(s.push(e).drop_last() =~= s);
}

/// No more `once` dequeue listeners than listeners.
pub proof fn lemma_count_le_len(s: Seq<ListenerEntry>)
    ensures
        once_dequeue_count(s) <= s.len(),
    decreases s.len(),
{
    if s.len() > 0 {
        lemma_count_le_len(s.drop_last());
    }
}

/// The count after removing one listener.
pub proof fn lemma_count_remove(s: Seq<ListenerEntry>, i: int)
    requires
        0 <= i < s.len(),
    ensures
        once_dequeue_count(s) == once_dequeue_count(s.remove(i)) + if is_once_dequeue(s[i]) {
            1nat
        } else {
            0nat
        },
    decreases s.len(),
{
    if i == s.len() - 1 {
        assert(s.remove(i) =~= s.drop_last());
    } else {
        lemma_count_remove(s.drop_last(), i);
        assert(s.remove(i).drop_last() =~= s.drop_last().remove(i));
        assert(s.remove(i).last() == s.last());
    }
}

impl CodecEventState {
    /// The registry is consistent: listeners in strictly increasing
    /// registration order below the next number, the handler's number
    /// distinct from theirs, no listener registered twice, and the count of
    /// pending `once` dequeue listeners exact.
    pub open spec fn wf(&self) -> bool {
        let s = self.listeners@;
        &&& forall|i: int, j: int| 0 <= i < j < s.len() ==> s[i].id < s[j].id
        &&& forall|i: int| 0 <= i < s.len() ==> (#[trigger] s[i]).id < self.next_listener_id
        &&& self.ondequeue is Some ==> self.ondequeue_id < self.next_listener_id
        &&& self.ondequeue is Some ==> forall|i: int|
            0 <= i < s.len() ==> (#[trigger] s[i]).id != self.ondequeue_id
        &&& forall|i: int, j: int|
            0 <= i < j < s.len() ==> !same_listener(s[j], s[i].event_type@, s[i].callback, s[i].capture)
        &&& self.once_pending == once_dequeue_count(s)
    }

    /// A registry without listeners or handler.
    pub fn new() -> (s: Self)
        ensures
            s.wf(),
            s.listeners@.len() == 0,
            s.next_listener_id == 0,
            s.ondequeue is None,
            s.ondequeue_id == 0,
            s.outstanding == 0,
            s.once_pending == 0,
    {
        CodecEventState {
            listeners: Vec::new(),
            next_listener_id: 0,
            once_pending: 0,
            ondequeue: None,
            ondequeue_id: 0,
            outstanding: 0,
        }
    }
}

fn is_dequeue(ty: &String) -> (r: bool)
    ensures
        r == (ty@ == dequeue()),
{
    proof {
        reveal_strlit("dequeue");
    }
    let d = String::from_str("dequeue");
    assert(d@ =~= dequeue());
    *ty == d
}

impl CodecEventState {
    /// The position of a registered listener, if any.
    fn find_listener(&self, ty: &String, callback: u64, capture: bool) -> (r: Option<usize>)
        ensures
            match r {
                Some(i) => i < self.listeners@.len() && same_listener(
                    self.listeners@[i as int],
                    ty@,
                    callback,
                    capture,
                ),
                None => !has_listener(self.listeners@, ty@, callback, capture),
            },
    {
        let mut i: usize = 0;
        while i < self.listeners.len()
            invariant
                i <= self.listeners@.len(),
                forall|j: int|
                    0 <= j < i ==> !same_listener(#[trigger] self.listeners@[j], ty@, callback, capture),
            decreases self.listeners@.len() - i,
        {
            let e = &self.listeners[i];
            if e.capture == capture && e.callback == callback && e.event_type == *ty {
                return Some(i);
            }
            i = i + 1;
        }
        None
    }

    /// Register a listener (DOM addEventListener). Registering the same
    /// callback with the same capture flag for the same type again changes
    /// nothing. A `once` dequeue listener keeps the process alive: the result
    /// is then the new keep-alive setting.
    pub fn add_listener(&mut self, event_type: &str, callback: u64, once: bool, capture: bool) -> (once_ref:
        Option<bool>)
        requires
            old(self).wf(),
            old(self).next_listener_id < u64::MAX,
        ensures
            final(self).wf(),
            final(self).ondequeue == old(self).ondequeue,
            final(self).ondequeue_id == old(self).ondequeue_id,
            final(self).outstanding == old(self).outstanding,
            has_listener(old(self).listeners@, event_type@, callback, capture) ==> {
                &&& final(self).listeners@ == old(self).listeners@
                &&& final(self).next_listener_id == old(self).next_listener_id
                &&& once_ref is None
            },
            !has_listener(old(self).listeners@, event_type@, callback, capture) ==> {
                let s = final(self).listeners@;
                &&& s.len() == old(self).listeners@.len() + 1
                &&& s.drop_last() == old(self).listeners@
                &&& s.last().id == old(self).next_listener_id
                &&& same_listener(s.last(), event_type@, callback, capture)
                &&& s.last().once == once
                &&& final(self).next_listener_id == old(self).next_listener_id + 1
                &&& once_ref == if once && event_type@ == dequeue() {
                    Some(true)
                } else {
                    None
                }
            },
            has_listener(final(self).listeners@, event_type@, callback, capture),
    {
        let ty = String::from_str(event_type);
        if self.find_listener(&ty, callback, capture).is_some() {
            return None;
        }
        let id = self.next_listener_id;
        let dq = is_dequeue(&ty);
        let ghost before = self.listeners@;
        let entry = ListenerEntry { id, event_type: ty, once, capture, callback };
        self.listeners.push(entry);
        self.next_listener_id = id + 1;
        proof {
            lemma_count_push(before, self.listeners@.last());
            assert(self.listeners@.drop_last() =~= before);
            let s = self.listeners@;
            assert forall|i: int, j: int| 0 <= i < j < s.len() implies s[i].id < s[j].id by {
                if j == s.len() - 1 {
                    assert(s[i] == before[i]);
                } else {
                    assert(s[i] == before[i] && s[j] == before[j]);
                }
            }
            assert forall|i: int, j: int|
                0 <= i < j < s.len() implies !same_listener(s[j], s[i].event_type@, s[i].callback, s[i].capture) by {
                if j == s.len() - 1 {
                    assert(s[i] == before[i]);
                    if same_listener(s[j], s[i].event_type@, s[i].callback, s[i].capture) {
                        assert(same_listener(before[i], event_type@, callback, capture));
                    }
                } else {
                    assert(s[i] == before[i] && s[j] == before[j]);
                }
            }
            assert(same_listener(s[s.len() - 1], event_type@, callback, capture));
        }
        let count = self.listeners.len();
        proof {
            lemma_count_le_len(self.listeners@);
            assert(once_dequeue_count(self.listeners@) <= count);
        }
        if once && dq {
            self.once_pending = self.once_pending + 1;
            return Some(self.once_pending > 0);
        }
        None
    }

    /// Remove a listener (DOM removeEventListener): the one registered with
    /// this type, callback and capture flag, if any. Removing a `once`
    /// dequeue listener gives the new keep-alive setting.
    pub fn remove_listener(&mut self, event_type: &str, callback: u64, capture: bool) -> (once_ref:
        Option<bool>)
        requires
            old(self).wf(),
        ensures
            final(self).wf(),
            final(self).next_listener_id == old(self).next_listener_id,
            final(self).ondequeue == old(self).ondequeue,
            final(self).ondequeue_id == old(self).ondequeue_id,
            final(self).outstanding == old(self).outstanding,
            !has_listener(final(self).listeners@, event_type@, callback, capture),
            !has_listener(old(self).listeners@, event_type@, callback, capture) ==> final(self).listeners@
                == old(self).listeners@ && once_ref is None,
            has_listener(old(self).listeners@, event_type@, callback, capture) ==> exists|k: int|
                0 <= k < old(self).listeners@.len() && same_listener(
                    #[trigger] old(self).listeners@[k],
                    event_type@,
                    callback,
                    capture,
                ) && final(self).listeners@ == old(self).listeners@.remove(k) && once_ref == if is_once_dequeue(
                    old(self).listeners@[k],
                ) {
                    Some(final(self).once_pending > 0)
                } else {
                    None
                },
    {
        let ty = String::from_str(event_type);
        let pos = match self.find_listener(&ty, callback, capture) {
            Some(i) => i,
            None => {
                return None;
            },
        };
        let ghost before = self.listeners@;
        let removed = self.listeners.remove(pos);
        let was_once_dequeue = removed.once && is_dequeue(&removed.event_type);
        proof {
            lemma_count_remove(before, pos as int);
            let s = self.listeners@;
            assert(s == before.remove(pos as int));
            assert forall|i: int| 0 <= i < s.len() implies #[trigger] s[i] == if i < pos {
                before[i]
            } else {
                before[i + 1]
            } by {}
            assert forall|i: int, j: int| 0 <= i < j < s.len() implies s[i].id < s[j].id by {
                assert(s[i] == if i < pos {
                    before[i]
                } else {
                    before[i + 1]
                });
                assert(s[j] == if j < pos {
                    before[j]
                } else {
                    before[j + 1]
                });
            }
            assert forall|i: int, j: int|
                0 <= i < j < s.len() implies !same_listener(s[j], s[i].event_type@, s[i].callback, s[i].capture) by {
                assert(s[i] == if i < pos {
                    before[i]
                } else {
                    before[i + 1]
                });
                assert(s[j] == if j < pos {
                    before[j]
                } else {
                    before[j + 1]
                });
            }
            assert forall|i: int| 0 <= i < s.len() implies !same_listener(#[trigger] s[i], event_type@, callback, capture) by {
                let oi = if i < pos {
                    i
                } else {
                    i + 1
                };
                assert(s[i] == before[oi]);
                if oi < pos {
                    assert(!same_listener(before[pos as int], before[oi].event_type@, before[oi].callback, before[oi].capture));
                } else {
                    assert(!same_listener(before[oi], before[pos as int].event_type@, before[pos as int].callback, before[pos as int].capture));
                }
            }
        }
        if was_once_dequeue {
            self.once_pending = self.once_pending - 1;
            return Some(self.once_pending > 0);
        }
        None
    }

    /// Set or clear the `ondequeue` handler. A handler set where there was
    /// none is a new registration (it runs after the listeners registered
    /// before it); replacing a handler keeps its place.
    pub fn set_ondequeue(&mut self, handler: Option<u64>)
        requires
            old(self).wf(),
            old(self).next_listener_id < u64::MAX,
        ensures
            final(self).wf(),
            final(self).ondequeue == handler,
            final(self).listeners@ == old(self).listeners@,
            final(self).once_pending == old(self).once_pending,
            final(self).outstanding == old(self).outstanding,
            handler is Some && old(self).ondequeue is None ==> final(self).ondequeue_id
                == old(self).next_listener_id && final(self).next_listener_id
                == old(self).next_listener_id + 1,
            !(handler is Some && old(self).ondequeue is None) ==> final(self).ondequeue_id
                == old(self).ondequeue_id && final(self).next_listener_id
                == old(self).next_listener_id,
    {
        if handler.is_some() && self.ondequeue.is_none() {
            self.ondequeue_id = self.next_listener_id;
            self.next_listener_id = self.next_listener_id + 1;
        }
        self.ondequeue = handler;
    }

    /// Work was enqueued: a dequeue dispatch will follow. The codec object
    /// is held strongly from the first outstanding item on; the result is
    /// `Some(true)` when that starts now.
    pub fn note_enqueue(&mut self) -> (strong: Option<bool>)
        requires
            old(self).outstanding < usize::MAX,
        ensures
            final(self).outstanding == old(self).outstanding + 1,
            strong == if old(self).outstanding == 0 {
                Some(true)
            } else {
                None
            },
            final(self).listeners@ == old(self).listeners@,
            final(self).next_listener_id == old(self).next_listener_id,
            final(self).once_pending == old(self).once_pending,
            final(self).ondequeue == old(self).ondequeue,
            final(self).ondequeue_id == old(self).ondequeue_id,
    {
        let strong = if self.outstanding == 0 {
            Some(true)
        } else {
            None
        };
        self.outstanding = self.outstanding + 1;
        strong
    }

    fn release_outstanding(&mut self, n: usize) -> (weak: Option<bool>)
        ensures
            final(self).outstanding == if old(self).outstanding >= n {
                (old(self).outstanding - n) as usize
            } else {
                0
            },
            weak == if final(self).outstanding == 0 {
                Some(false)
            } else {
                None
            },
            final(self).listeners@ == old(self).listeners@,
            final(self).next_listener_id == old(self).next_listener_id,
            final(self).once_pending == old(self).once_pending,
            final(self).ondequeue == old(self).ondequeue,
            final(self).ondequeue_id == old(self).ondequeue_id,
    {
        self.outstanding = if self.outstanding >= n {
            self.outstanding - n
        } else {
            0
        };
        if self.outstanding == 0 {
            Some(false)
        } else {
            None
        }
    }

    /// Queued work was discarded without dispatches: `cleared` items are no
    /// longer outstanding. The result is `Some(false)` when none remain and
    /// the codec object goes back to a weak hold.
    pub fn note_queue_cleared(&mut self, cleared: usize) -> (weak: Option<bool>)
        ensures
            final(self).outstanding == if old(self).outstanding >= cleared {
                (old(self).outstanding - cleared) as usize
            } else {
                0
            },
            weak == if final(self).outstanding == 0 {
                Some(false)
            } else {
                None
            },
            final(self).listeners@ == old(self).listeners@,
            final(self).next_listener_id == old(self).next_listener_id,
            final(self).once_pending == old(self).once_pending,
            final(self).ondequeue == old(self).ondequeue,
            final(self).ondequeue_id == old(self).ondequeue_id,
    {
        self.release_outstanding(cleared)
    }

    /// A dequeue dispatch was delivered. The result is `Some(false)` when no
    /// work remains outstanding.
    pub fn note_delivery(&mut self) -> (weak: Option<bool>)
        ensures
            final(self).outstanding == if old(self).outstanding >= 1 {
                (old(self).outstanding - 1) as usize
            } else {
                0
            },
            weak == if final(self).outstanding == 0 {
                Some(false)
            } else {
                None
            },
            final(self).listeners@ == old(self).listeners@,
            final(self).next_listener_id == old(self).next_listener_id,
            final(self).once_pending == old(self).once_pending,
            final(self).ondequeue == old(self).ondequeue,
            final(self).ondequeue_id == old(self).ondequeue_id,
    {
        self.release_outstanding(1)
    }

    /// Work completed without a dispatch (no dispatcher, or it was closing):
    /// only the counter drops.
    pub fn note_undelivered(&mut self)
        ensures
            final(self).outstanding == if old(self).outstanding >= 1 {
                (old(self).outstanding - 1) as usize
            } else {
                0
            },
            final(self).listeners@ == old(self).listeners@,
            final(self).next_listener_id == old(self).next_listener_id,
            final(self).once_pending == old(self).once_pending,
            final(self).ondequeue == old(self).ondequeue,
            final(self).ondequeue_id == old(self).ondequeue_id,
    {
        self.outstanding = if self.outstanding >= 1 {
            self.outstanding - 1
        } else {
            0
        };
    }
}

// ----------------------------------------------------------------------------
// Dispatch
// ----------------------------------------------------------------------------

/// The call a dispatch plans for a listener.
pub open spec fn item_of(e: ListenerEntry) -> DispatchItem {
    DispatchItem { id: e.id, once: e.once, callback: e.callback, is_ondequeue: false }
}

/// The calls for the listeners of one type, in registration order.
pub open spec fn typed_items(s: Seq<ListenerEntry>, ty: Seq<char>) -> Seq<DispatchItem>
    decreases s.len(),
{
    if s.len() == 0 {
        seq![]
    } else {
        typed_items(s.drop_last(), ty) + if s.last().event_type@ == ty {
            seq![item_of(s.last())]
        } else {
            seq![]
        }
    }
}

/// How many calls come before registration number `id`.
pub open spec fn count_below(items: Seq<DispatchItem>, id: u64) -> nat
    decreases items.len(),
{
    if items.len() == 0 {
        0
    } else {
        count_below(items.drop_last(), id) + if items.last().id < id {
            1nat
        } else {
            0nat
        }
    }
}

/// Calls in strictly increasing registration order.
pub open spec fn sorted_items(items: Seq<DispatchItem>) -> bool {
    forall|i: int, j: int| 0 <= i < j < items.len() ==> items[i].id < items[j].id
}

/// The calls a dispatch of `ty` makes, in order: the listeners of that type
/// and, for dequeue events, the `ondequeue` handler in its registration
/// place.
pub open spec fn dispatch_snapshot(st: CodecEventState, ty: Seq<char>) -> Seq<DispatchItem> {
    let items = typed_items(st.listeners@, ty);
    match st.ondequeue {
        Some(cb) => if ty == dequeue() {
            let k = count_below(items, st.ondequeue_id) as int;
            items.take(k) + seq![
                DispatchItem { id: st.ondequeue_id, once: false, callback: cb, is_ondequeue: true },
            ] + items.skip(k)
        } else {
            items
        },
        None => items,
    }
}

proof fn lemma_typed_items(s: Seq<ListenerEntry>, ty: Seq<char>, bound: u64, other: u64)
    requires
        forall|i: int, j: int| 0 <= i < j < s.len() ==> s[i].id < s[j].id,
        forall|i: int| 0 <= i < s.len() ==> (#[trigger] s[i]).id < bound,
        forall|i: int| 0 <= i < s.len() ==> (#[trigger] s[i]).id != other,
    ensures
        sorted_items(typed_items(s, ty)),
        forall|k: int| 0 <= k < typed_items(s, ty).len() ==> (#[trigger] typed_items(s, ty)[k]).id < bound,
        forall|k: int| 0 <= k < typed_items(s, ty).len() ==> (#[trigger] typed_items(s, ty)[k]).id != other,
    decreases s.len(),
{
    if s.len() > 0 {
        let p = s.drop_last();
        let last = s.last();
        assert(last == s[s.len() - 1]);
        assert forall|i: int| 0 <= i < p.len() implies (#[trigger] p[i]).id < last.id by {
            assert(p[i] == s[i]);
        }
        assert forall|i: int| 0 <= i < p.len() implies (#[trigger] p[i]).id != other by {
            assert(p[i] == s[i]);
        }
        lemma_typed_items(p, ty, last.id, other);
        let prev = typed_items(p, ty);
        let all = typed_items(s, ty);
        assert forall|k: int| 0 <= k < all.len() implies (#[trigger] all[k]).id < bound && all[k].id != other by {
            if k < prev.len() {
                assert(all[k] == prev[k]);
            } else {
                assert(all[k] == item_of(last));
            }
        }
        assert forall|a: int, b: int| 0 <= a < b < all.len() implies all[a].id < all[b].id by {
            if b < prev.len() {
                assert(all[a] == prev[a] && all[b] == prev[b]);
            } else {
                assert(all[a] == prev[a]);
                assert(all[b] == item_of(last));
            }
        }
    }
}

proof fn lemma_count_below(items: Seq<DispatchItem>, id: u64)
    requires
        sorted_items(items),
    ensures
        count_below(items, id) <= items.len(),
        forall|i: int| 0 <= i < items.len() ==> (i < count_below(items, id) <==> #[trigger] items[i].id < id),
    decreases items.len(),
{
    if items.len() > 0 {
        let p = items.drop_last();
        lemma_count_below(p, id);
        assert forall|i: int| 0 <= i < items.len() implies (i < count_below(items, id) <==> #[trigger] items[i].id
            < id) by {
            if i < p.len() {
                assert(items[i] == p[i]);
                if items.last().id < id {
                    assert(items[i].id < items.last().id) by {
                        assert(items[items.len() - 1] == items.last());
                    }
                }
            } else {
                assert(items[i] == items.last());
                if items.last().id >= id && p.len() > 0 {
                    assert(p[p.len() - 1] == items[items.len() - 2]);
                }
            }
        }
    }
}

impl CodecEventState {
    /// The calls for the listeners of one type, in registration order.
    fn items_of_type(&self, ty: &String) -> (items: Vec<DispatchItem>)
        ensures
            items@ == typed_items(self.listeners@, ty@),
    {
        let mut items: Vec<DispatchItem> = Vec::new();
        let mut i: usize = 0;
        while i < self.listeners.len()
            invariant
                i <= self.listeners@.len(),
                items@ == typed_items(self.listeners@.take(i as int), ty@),
            decreases self.listeners@.len() - i,
        {
            let e = &self.listeners[i];
            proof {
                assert(self.listeners@.take(i + 1).drop_last() =~= self.listeners@.take(i as int));
                assert(self.listeners@.take(i + 1).last() == self.listeners@[i as int]);
            }
            if e.event_type == *ty {
                items.push(DispatchItem { id: e.id, once: e.once, callback: e.callback, is_ondequeue: false });
            }
            proof {
                assert(items@ =~= typed_items(self.listeners@.take(i + 1), ty@));
            }
            i = i + 1;
        }
        proof {
            assert(self.listeners@.take(self.listeners@.len() as int) =~= self.listeners@);
        }
        items
    }

    /// The calls a dispatch of `event_type` makes, in registration order.
    pub fn snapshot(&self, event_type: &str) -> (r: Vec<DispatchItem>)
        requires
            self.wf(),
        ensures
            r@ == dispatch_snapshot(*self, event_type@),
            sorted_items(r@),
    {
        let ty = String::from_str(event_type);
        let items = self.items_of_type(&ty);
        let handler = match self.ondequeue {
            Some(cb) => {
                if is_dequeue(&ty) {
                    Some(cb)
                } else {
                    None
                }
            },
            None => None,
        };
        match handler {
            None => {
                proof {
                    lemma_typed_items(self.listeners@, ty@, self.next_listener_id, self.next_listener_id);
                }
                items
            },
            Some(cb) => {
                proof {
                    lemma_typed_items(self.listeners@, ty@, self.next_listener_id, self.ondequeue_id);
                }
                let od = DispatchItem { id: self.ondequeue_id, once: false, callback: cb, is_ondequeue: true };
                insert_in_order(items, od)
            },
        }
    }

    /// Before a planned call: the callback to call now, if its listener is
    /// still registered (for the handler: if it still holds its place, with
    /// its current callback). The callback and the `once` flag are read from
    /// the registered listener. A `once` listener is removed before its call;
    /// removing a `once` dequeue listener gives the new keep-alive setting.
    pub fn take_for_invocation(&mut self, event_type: &str, item: DispatchItem) -> (r: (
        Option<u64>,
        Option<bool>,
    ))
        requires
            old(self).wf(),
        ensures
            final(self).wf(),
            final(self).next_listener_id == old(self).next_listener_id,
            final(self).ondequeue == old(self).ondequeue,
            final(self).ondequeue_id == old(self).ondequeue_id,
            final(self).outstanding == old(self).outstanding,
            item.is_ondequeue ==> final(self).listeners@ == old(self).listeners@ && r == (
                if old(self).ondequeue_id == item.id {
                    old(self).ondequeue
                } else {
                    None
                },
                None::<bool>,
            ),
            !item.is_ondequeue ==> match live_index(old(self).listeners@, event_type@, item.id) {
                None => final(self).listeners@ == old(self).listeners@ && r == (
                    None::<u64>,
                    None::<bool>,
                ),
                Some(k) => r.0 == Some(old(self).listeners@[k].callback) && if old(self).listeners@[k].once {
                    final(self).listeners@ == old(self).listeners@.remove(k) && r.1 == if is_once_dequeue(
                        old(self).listeners@[k],
                    ) {
                        Some(final(self).once_pending > 0)
                    } else {
                        None
                    }
                } else {
                    final(self).listeners@ == old(self).listeners@ && r.1 is None
                },
            },
    {
        if item.is_ondequeue {
            let cb = if self.ondequeue_id == item.id {
                self.ondequeue
            } else {
                None
            };
            return (cb, None);
        }
        let ty = String::from_str(event_type);
        let mut i: usize = 0;
        while i < self.listeners.len()
            invariant
                i <= self.listeners@.len(),
                ty@ == event_type@,
                forall|j: int|
                    0 <= j < i ==> !((#[trigger] self.listeners@[j]).event_type@ == ty@
                        && self.listeners@[j].id == item.id),
            ensures
                i <= self.listeners@.len(),
                forall|j: int|
                    0 <= j < i ==> !((#[trigger] self.listeners@[j]).event_type@ == ty@
                        && self.listeners@[j].id == item.id),
                i < self.listeners@.len() ==> self.listeners@[i as int].event_type@ == ty@
                    && self.listeners@[i as int].id == item.id,
            decreases self.listeners@.len() - i,
        {
            if self.listeners[i].id == item.id && self.listeners[i].event_type == ty {
                break;
            }
            i = i + 1;
        }
        proof {
            lemma_live_index(self.listeners@, event_type@, item.id, i as int);
        }
        if i == self.listeners.len() {
            return (None, None);
        }
        let callback = self.listeners[i].callback;
        if !self.listeners[i].once {
            return (Some(callback), None);
        }
        let ghost before = self.listeners@;
        let removed = self.listeners.remove(i);
        let was_once_dequeue = removed.once && is_dequeue(&removed.event_type);
        proof {
            lemma_count_remove(before, i as int);
            let s = self.listeners@;
            assert forall|a: int| 0 <= a < s.len() implies #[trigger] s[a] == if a < i {
                before[a]
            } else {
                before[a + 1]
            } by {}
            assert forall|a: int, b: int| 0 <= a < b < s.len() implies s[a].id < s[b].id by {
                assert(s[a] == if a < i {
                    before[a]
                } else {
                    before[a + 1]
                });
                assert(s[b] == if b < i {
                    before[b]
                } else {
                    before[b + 1]
                });
            }
            assert forall|a: int, b: int|
                0 <= a < b < s.len() implies !same_listener(s[b], s[a].event_type@, s[a].callback, s[a].capture) by {
                assert(s[a] == if a < i {
                    before[a]
                } else {
                    before[a + 1]
                });
                assert(s[b] == if b < i {
                    before[b]
                } else {
                    before[b + 1]
                });
            }
        }
        if was_once_dequeue {
            self.once_pending = self.once_pending - 1;
            return (Some(callback), Some(self.once_pending > 0));
        }
        (Some(callback), None)
    }
}

/// The position of the registered listener of type `ty` with number `id`.
pub open spec fn live_index(s: Seq<ListenerEntry>, ty: Seq<char>, id: u64) -> Option<int> {
    if exists|i: int| 0 <= i < s.len() && s[i].event_type@ == ty && s[i].id == id {
        Some(choose|i: int| 0 <= i < s.len() && s[i].event_type@ == ty && s[i].id == id)
    } else {
        None
    }
}

proof fn lemma_live_index(s: Seq<ListenerEntry>, ty: Seq<char>, id: u64, i: int)
    requires
        forall|a: int, b: int| 0 <= a < b < s.len() ==> s[a].id < s[b].id,
        0 <= i <= s.len(),
        forall|j: int| 0 <= j < i ==> !((#[trigger] s[j]).event_type@ == ty && s[j].id == id),
        i < s.len() ==> s[i].event_type@ == ty && s[i].id == id,
    ensures
        i == s.len() ==> live_index(s, ty, id) is None,
        i < s.len() ==> live_index(s, ty, id) == Some(i),
{
    if i < s.len() {
        let k = choose|k: int| 0 <= k < s.len() && s[k].event_type@ == ty && s[k].id == id;
        assert(s[i].event_type@ == ty && s[i].id == id);
        if k != i {
            if k < i {
                assert(!(s[k].event_type@ == ty && s[k].id == id));
            } else {
                assert(s[i].id < s[k].id);
            }
        }
    }
}

/// Insert a call into calls sorted by registration number, at its place.
fn insert_in_order(items: Vec<DispatchItem>, od: DispatchItem) -> (r: Vec<DispatchItem>)
    requires
        sorted_items(items@),
        forall|a: int| 0 <= a < items@.len() ==> (#[trigger] items@[a]).id != od.id,
    ensures
        r@ == items@.take(count_below(items@, od.id) as int) + seq![od] + items@.skip(
            count_below(items@, od.id) as int,
        ),
        sorted_items(r@),
{
    let mut k: usize = 0;
    while k < items.len() && items[k].id < od.id
        invariant
            k <= items@.len(),
            forall|j: int| 0 <= j < k ==> (#[trigger] items@[j]).id < od.id,
        decreases items@.len() - k,
    {
        k = k + 1;
    }
    proof {
        lemma_count_below(items@, od.id);
        let cb = count_below(items@, od.id);
        if k < items@.len() {
            assert(!(items@[k as int].id < od.id));
            assert(!(k < cb));
        } else {
            if items@.len() > 0 {
                assert(items@[items@.len() - 1].id < od.id);
            }
        }
        if k > 0 {
            assert(items@[k - 1].id < od.id);
            assert(k - 1 < cb);
        }
        assert(k == cb);
    }
    let mut out: Vec<DispatchItem> = Vec::new();
    let mut j: usize = 0;
    while j < k
        invariant
            j <= k <= items@.len(),
            out@ == items@.take(j as int),
        decreases k - j,
    {
        out.push(items[j]);
        proof {
            assert(items@.take(j + 1) =~= items@.take(j as int).push(items@[j as int]));
        }
        j = j + 1;
    }
    out.push(od);
    let ghost head = out@;
    while j < items.len()
        invariant
            k <= j <= items@.len(),
            out@ == head + items@.subrange(k as int, j as int),
        decreases items@.len() - j,
    {
        out.push(items[j]);
        proof {
            assert(items@.subrange(k as int, j + 1) =~= items@.subrange(k as int, j as int).push(
                items@[j as int],
            ));
        }
        j = j + 1;
    }
    proof {
        lemma_count_below(items@, od.id);
        assert(items@.subrange(k as int, items@.len() as int) =~= items@.skip(k as int));
        let r = out@;
        assert(r =~= items@.take(k as int) + seq![od] + items@.skip(k as int));
        assert forall|a: int, b: int| 0 <= a < b < r.len() implies r[a].id < r[b].id by {
            if b < k {
                assert(r[a] == items@[a] && r[b] == items@[b]);
            } else if b == k {
                assert(r[a] == items@[a]);
            } else if a < k {
                assert(r[a] == items@[a] && r[b] == items@[b - 1]);
            } else if a == k {
                assert(r[b] == items@[b - 1]);
                assert(!(b - 1 < k));
            } else {
                assert(r[a] == items@[a - 1] && r[b] == items@[b - 1]);
            }
        }
    }
    out
}

} // verus!
