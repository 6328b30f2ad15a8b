use crossbeam::channel;
use std::sync::atomic::{AtomicBool, Ordering};
use std::sync::Arc;
use webcodecs::flush_tracker::FlushTracker;

#[test]
fn tracks_and_finishes_each_flush() {
    let mut tracker = FlushTracker::default();
    let (sender_a, _receiver_a) = channel::bounded(1);
    let (sender_b, _receiver_b) = channel::bounded(1);
    let id_a = tracker.register(sender_a, Arc::new(AtomicBool::new(false)));
    let _id_b = tracker.register(sender_b, Arc::new(AtomicBool::new(false)));
    assert!(tracker.pending_count() != 0);
    tracker.finish(id_a);
    assert_eq!(tracker.pending_count(), 1);
}

#[test]
fn aborts_every_pending_flush() {
    let mut tracker = FlushTracker::default();
    let (sender_a, receiver_a) = channel::bounded(1);
    let (sender_b, receiver_b) = channel::bounded(1);
    let flag_a = Arc::new(AtomicBool::new(false));
    let flag_b = Arc::new(AtomicBool::new(false));
    tracker.register(sender_a, flag_a.clone());
    tracker.register(sender_b, flag_b.clone());

    tracker.abort_all();

    assert!(flag_a.load(Ordering::SeqCst));
    assert!(flag_b.load(Ordering::SeqCst));
    assert!(receiver_a.recv().unwrap().is_err());
    assert!(receiver_b.recv().unwrap().is_err());
    assert!(tracker.pending_count() == 0);
}

#[test]
fn stops_buffering_before_delivery_without_finishing_flush() {
    let mut tracker = FlushTracker::default();
    let (sender, _receiver) = channel::bounded(1);
    let id = tracker.register(sender, Arc::new(AtomicBool::new(false)));

    assert!(tracker.should_buffer_outputs());
    tracker.begin_output_delivery(id);
    assert!(!tracker.should_buffer_outputs());
    assert!(tracker.pending_count() != 0);

    tracker.finish(id);
    assert!(tracker.pending_count() == 0);
}

#[test]
fn later_overlapping_flush_keeps_buffering() {
    let mut tracker = FlushTracker::default();
    let (sender_a, _receiver_a) = channel::bounded(1);
    let (sender_b, _receiver_b) = channel::bounded(1);
    let id_a = tracker.register(sender_a, Arc::new(AtomicBool::new(false)));
    let id_b = tracker.register(sender_b, Arc::new(AtomicBool::new(false)));

    tracker.begin_output_delivery(id_a);
    assert!(tracker.should_buffer_outputs());
    tracker.begin_output_delivery(id_b);
    assert!(!tracker.should_buffer_outputs());
}

#[test]
fn abort_message_is_an_abort_error() {
    let mut tracker = FlushTracker::default();
    let (sender, receiver) = channel::bounded(1);
    tracker.register(sender, Arc::new(AtomicBool::new(false)));
    tracker.abort_all();
    let err = receiver.recv().unwrap().unwrap_err();
    assert_eq!(err.reason, "AbortError: The operation was aborted");
}

#[test]
fn clear_forgets_pending_flushes() {
    let mut tracker = FlushTracker::default();
    let (sender, _receiver) = channel::bounded(1);
    tracker.register(sender, Arc::new(AtomicBool::new(false)));
    tracker.clear();
    assert_eq!(tracker.pending_count(), 0);
    assert!(!tracker.should_buffer_outputs());
}
