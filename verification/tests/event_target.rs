use webcodecs::event_target::CodecEventState;

#[test]
fn listeners_register_once_and_dispatch_in_order() {
    let mut st = CodecEventState::new();
    assert_eq!(st.add_listener("dequeue", 10, false, false), None);
    // Same callback and capture: no second registration.
    assert_eq!(st.add_listener("dequeue", 10, false, false), None);
    assert_eq!(st.listeners.len(), 1);
    st.set_ondequeue(Some(20));
    assert_eq!(st.add_listener("dequeue", 30, true, false), Some(true));
    assert_eq!(st.once_pending, 1);
    let snap = st.snapshot("dequeue");
    let order: Vec<u64> = snap.iter().map(|i| i.callback).collect();
    assert_eq!(order, vec![10, 20, 30]);
    assert!(snap[1].is_ondequeue);
    // Other event types see only their own listeners.
    assert!(st.snapshot("error").is_empty());
}

#[test]
fn once_listeners_leave_before_their_call() {
    let mut st = CodecEventState::new();
    st.add_listener("dequeue", 1, true, false);
    let snap = st.snapshot("dequeue");
    let (cb, keep_alive) = st.take_for_invocation("dequeue", snap[0]);
    assert_eq!(cb, Some(1));
    assert_eq!(keep_alive, Some(false));
    assert!(st.listeners.is_empty());
    // A second call for the same item finds nothing.
    assert_eq!(st.take_for_invocation("dequeue", snap[0]), (None, None));
}

#[test]
fn removing_listeners_and_handler_places() {
    let mut st = CodecEventState::new();
    st.add_listener("dequeue", 1, true, true);
    assert_eq!(st.remove_listener("dequeue", 1, false), None);
    assert_eq!(st.listeners.len(), 1);
    assert_eq!(st.remove_listener("dequeue", 1, true), Some(false));
    assert!(st.listeners.is_empty());
    st.set_ondequeue(Some(5));
    st.add_listener("dequeue", 6, false, false);
    // Replacing the handler keeps its place before listener 6.
    st.set_ondequeue(Some(7));
    let order: Vec<u64> = st.snapshot("dequeue").iter().map(|i| i.callback).collect();
    assert_eq!(order, vec![7, 6]);
    // Clearing and setting again moves it to the end.
    st.set_ondequeue(None);
    st.set_ondequeue(Some(8));
    let order: Vec<u64> = st.snapshot("dequeue").iter().map(|i| i.callback).collect();
    assert_eq!(order, vec![6, 8]);
}

#[test]
fn outstanding_work_pins_the_codec() {
    let mut st = CodecEventState::new();
    assert_eq!(st.note_enqueue(), Some(true));
    assert_eq!(st.note_enqueue(), None);
    assert_eq!(st.note_delivery(), None);
    assert_eq!(st.note_delivery(), Some(false));
    st.note_enqueue();
    st.note_enqueue();
    assert_eq!(st.note_queue_cleared(5), Some(false));
    assert_eq!(st.outstanding, 0);
    st.note_undelivered();
    assert_eq!(st.outstanding, 0);
}
