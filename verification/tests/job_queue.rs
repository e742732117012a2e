use clip_pipeline::JobQueue;
use clip_pipeline::JobQueueReport;
use clip_pipeline::PipelineError;

#[test]
fn first_job_is_admitted_immediately() {
    let mut queue = JobQueue::new(1);
    assert!(queue.enqueue(1));
    assert!(!queue.enqueue(2));
    assert!(!queue.enqueue(3));
    assert_eq!(queue.len(), 3);
}

#[test]
fn advance_notifies_the_next_waiter_ready() {
    let mut queue = JobQueue::new(1);
    queue.enqueue(1);
    queue.enqueue(2);
    queue.enqueue(3);

    let notices = queue.advance(1).unwrap();
    assert_eq!(notices.len(), 2);
    assert_eq!(notices[0].job_id, 2);
    assert_eq!(notices[0].report, JobQueueReport::Ready);
    assert_eq!(notices[1].job_id, 3);
    assert_eq!(notices[1].report, JobQueueReport::InQueue(1));

    let notices = queue.advance(2).unwrap();
    assert_eq!(notices.len(), 1);
    assert_eq!(notices[0].job_id, 3);
    assert_eq!(notices[0].report, JobQueueReport::Ready);

    let notices = queue.advance(3).unwrap();
    assert!(notices.is_empty());
    assert_eq!(queue.len(), 0);
}

#[test]
fn positions_never_increase_for_waiters() {
    // Job 4 (0-indexed position 3) sees positions 3, 2, 1 shrink as its
    // predecessors advance, and Ready only after all of them are gone.
    let mut queue = JobQueue::new(1);
    for id in 1..=4 {
        queue.enqueue(id);
    }
    assert_eq!(queue.position_of(4), Some(3));

    queue.advance(1).unwrap();
    assert_eq!(queue.position_of(4), Some(2));

    queue.advance(2).unwrap();
    assert_eq!(queue.position_of(4), Some(1));

    let notices = queue.advance(3).unwrap();
    assert_eq!(notices[0].job_id, 4);
    assert_eq!(notices[0].report, JobQueueReport::Ready);
    assert_eq!(queue.position_of(4), Some(0));
}

#[test]
fn advancing_a_waiter_keeps_the_running_job_in_place() {
    // A waiting job that fails before admission leaves the queue without
    // disturbing the single processing slot.
    let mut queue = JobQueue::new(1);
    queue.enqueue(10);
    queue.enqueue(11);
    queue.enqueue(12);

    queue.advance(11).unwrap();
    assert_eq!(queue.position_of(10), Some(0));
    assert_eq!(queue.position_of(12), Some(1));
    assert_eq!(queue.position_of(11), None);
}

#[test]
fn advancing_a_waiter_sends_no_ready() {
    // No slot was freed, so nobody newly enters the capacity window: the
    // waiters behind the leaver learn their new positions, nothing more.
    let mut queue = JobQueue::new(1);
    queue.enqueue(10);
    queue.enqueue(11);
    queue.enqueue(12);
    queue.enqueue(13);

    let notices = queue.advance(11).unwrap();
    assert_eq!(notices.len(), 2);
    assert_eq!(notices[0].job_id, 12);
    assert_eq!(notices[0].report, JobQueueReport::InQueue(1));
    assert_eq!(notices[1].job_id, 13);
    assert_eq!(notices[1].report, JobQueueReport::InQueue(2));
    assert!(notices.iter().all(|notice| notice.report != JobQueueReport::Ready));

    // The running job was never re-notified and still holds the slot.
    assert_eq!(queue.position_of(10), Some(0));
}

#[test]
fn advancing_an_unknown_job_is_a_queue_invariant_error() {
    let mut queue = JobQueue::new(1);
    queue.enqueue(1);
    match queue.advance(99) {
        Err(PipelineError::QueueInvariant(_)) => {},
        _ => panic!("expected a queue invariant error"),
    }
    assert_eq!(queue.len(), 1);
}

#[test]
fn wider_capacity_admits_that_many() {
    let mut queue = JobQueue::new(2);
    assert!(queue.enqueue(1));
    assert!(queue.enqueue(2));
    assert!(!queue.enqueue(3));

    let notices = queue.advance(1).unwrap();
    assert_eq!(notices.len(), 1);
    assert_eq!(notices[0].job_id, 3);
    assert_eq!(notices[0].report, JobQueueReport::Ready);
}
