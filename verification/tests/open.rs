use open_mpv::window::open::ScanQueue;

#[test]
fn slow_worker_bounds_rapid_requests_and_rejects_stale_completion() {
    let mut queue = ScanQueue::default();
    let first = queue.request(0).unwrap();
    for request in 1..10_000 {
        assert!(queue.request(request).is_none());
    }
    assert!(queue.is_cancelled(first.id));
    let (current, next) = queue.finish();
    assert!(!current);
    assert_eq!(next.unwrap().request, 9_999);
    let (current, next) = queue.finish();
    assert!(current);
    assert!(next.is_none());
}

#[test]
fn cancellation_retains_worker_slot_and_discards_pending_request() {
    let mut queue = ScanQueue::default();
    let first = queue.request(0).unwrap();
    assert!(queue.request(1).is_none());
    queue.cancel_all();
    assert!(queue.is_cancelled(first.id));
    assert!(queue.request(2).is_none());
    let (current, next) = queue.finish();
    assert!(!current);
    assert_eq!(next.unwrap().request, 2);
    queue.cancel_all();
    let (current, next) = queue.finish();
    assert!(!current);
    assert!(next.is_none());
}

#[test]
fn a_running_job_is_told_apart_from_the_one_before() {
    let mut queue = ScanQueue::default();
    let first = queue.request("a").unwrap();
    assert!(!queue.is_cancelled(first.id));
    queue.request("b");
    let (_, second) = queue.finish();
    let second = second.unwrap();
    assert!(queue.is_cancelled(first.id));
    assert!(!queue.is_cancelled(second.id));
}
