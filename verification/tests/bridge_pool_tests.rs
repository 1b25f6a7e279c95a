use mobydick::bridge::{CompletionBridge, PollVerdict};
use mobydick::pool::WorkerPool;

#[test]
fn bridge_runs_exactly_once_after_the_result_arrives() {
    let mut b = CompletionBridge::new();
    // Ticks before the worker delivered: the poll keeps rescheduling.
    assert_eq!(b.poll(false), PollVerdict::Reschedule);
    assert_eq!(b.poll(false), PollVerdict::Reschedule);
    // The tick that finds the result runs the continuation, once.
    assert_eq!(b.poll(true), PollVerdict::Run);
    // Any later tick deregisters without running anything again.
    assert_eq!(b.poll(true), PollVerdict::Deregister);
    assert_eq!(b.poll(false), PollVerdict::Deregister);
}

#[test]
fn detached_bridge_never_runs() {
    let mut b = CompletionBridge::new();
    assert_eq!(b.poll(false), PollVerdict::Reschedule);
    b.detach();
    // Even with the result available, a detached registration only
    // deregisters: its owner is gone.
    assert_eq!(b.poll(true), PollVerdict::Deregister);
}

#[test]
fn detach_after_delivery_changes_nothing() {
    let mut b = CompletionBridge::new();
    assert_eq!(b.poll(true), PollVerdict::Run);
    b.detach();
    assert_eq!(b.poll(true), PollVerdict::Deregister);
}

#[test]
fn fresh_pool_has_issued_no_tickets() {
    let pool = WorkerPool::new(5);
    assert_eq!(pool.tickets_issued(), 0);
    assert_eq!(pool.pending_count(), 0);
    assert_eq!(pool.active_count(), 0);
}

#[test]
fn pool_serves_jobs_in_submission_order() {
    let mut pool = WorkerPool::new(5);
    let t1 = pool.submit();
    let t2 = pool.submit();
    let t3 = pool.submit();
    assert_eq!(pool.pending_count(), 3);
    assert_eq!(pool.start_next(), Some(t1));
    assert_eq!(pool.start_next(), Some(t2));
    assert_eq!(pool.start_next(), Some(t3));
    assert_eq!(pool.start_next(), None);
    assert_eq!(pool.active_count(), 3);
}

#[test]
fn pool_admits_at_most_its_capacity() {
    let mut pool = WorkerPool::new(2);
    for _ in 0..4 {
        pool.submit();
    }
    assert!(pool.start_next().is_some());
    assert!(pool.start_next().is_some());
    // Both workers busy: nothing more is handed out.
    assert_eq!(pool.start_next(), None);
    assert_eq!(pool.active_count(), 2);
    assert_eq!(pool.pending_count(), 2);
    // A worker finishing frees a slot for the next queued job.
    assert!(pool.worker_done());
    assert!(pool.start_next().is_some());
    assert_eq!(pool.active_count(), 2);
}

#[test]
fn tickets_are_issued_once_and_leave_the_queue_for_good() {
    let mut pool = WorkerPool::new(1);
    let t1 = pool.submit();
    let t2 = pool.submit();
    assert_ne!(t1, t2);
    assert_eq!(pool.start_next(), Some(t1));
    assert!(pool.worker_done());
    // t1 is gone from the queue: the next job handed out is t2.
    assert_eq!(pool.start_next(), Some(t2));
    assert!(pool.worker_done());
    assert_eq!(pool.start_next(), None);
    assert!(!pool.worker_done());
}
