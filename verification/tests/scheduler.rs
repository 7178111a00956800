use open_mpv::loader::scheduler::{Interest, Job, Scheduler};

/// A scheduler with the jobs that it asked to have cancelled.
#[derive(Default)]
struct Decodes {
    scheduler: Scheduler<u64>,
    cancelled: Vec<u64>,
}

impl Decodes {
    fn replace(&mut self, foreground: Option<(&str, u64)>, neighbors: &[&str]) {
        let foreground = foreground.map(|(path, token)| (path.as_bytes().to_vec(), token));
        let neighbors = neighbors
            .iter()
            .map(|path| path.as_bytes().to_vec())
            .collect();
        let cancelled = self.scheduler.replace(foreground, &neighbors);
        self.cancelled.extend(cancelled);
    }

    fn select(&mut self, path: &str, token: u64, neighbors: &[&str]) {
        self.replace(Some((path, token)), neighbors);
    }

    fn invalidate(&mut self, path: &str) {
        let cancelled = self.scheduler.invalidate(path.as_bytes());
        self.cancelled.extend(cancelled);
    }

    fn cancel_all(&mut self) {
        let cancelled = self.scheduler.cancel_all();
        self.cancelled.extend(cancelled);
    }

    fn start(&mut self) -> Option<Job> {
        self.scheduler.start()
    }

    fn finish(&mut self, job: &Job) -> Option<Interest<u64>> {
        self.scheduler.finish(&job.path)
    }

    fn is_cancelled(&self, job: &Job) -> bool {
        self.cancelled.contains(&job.id)
    }
}

#[test]
fn sustained_navigation_waits_for_cancelled_jobs_and_keeps_only_latest_demand() {
    let mut decodes = Decodes::default();
    decodes.select("0", 0, &["1", "2"]);
    let first = decodes.start().unwrap();
    let second = decodes.start().unwrap();
    for i in 1..1000 {
        decodes.select(&i.to_string(), i, &["left", "right"]);
        assert!(decodes.start().is_none());
        assert_eq!(decodes.scheduler.active_count(), 2);
        assert!(decodes.scheduler.pending_count() <= 3);
    }
    assert!(decodes.is_cancelled(&first));
    assert!(decodes.is_cancelled(&second));
    assert!(decodes.finish(&second).is_none());
    let latest = decodes.start().unwrap();
    assert_eq!(latest.path, b"999");
    assert!(matches!(
        decodes.finish(&latest),
        Some(Interest::Foreground(999))
    ));
    assert!(decodes.finish(&first).is_none());
}

#[test]
fn neighbor_promotion_updates_token_and_failure_has_one_foreground_recipient() {
    let mut decodes = Decodes::default();
    decodes.select("a", 1, &["b", "b"]);
    let a = decodes.start().unwrap();
    let b = decodes.start().unwrap();
    decodes.select("b", 2, &["a", "b"]);
    decodes.select("b", 3, &["a"]);
    assert!(!decodes.is_cancelled(&b));
    assert!(decodes.start().is_none());
    // Completion routing is identical for success and decode failure.
    assert!(matches!(decodes.finish(&b), Some(Interest::Foreground(3))));
    assert!(decodes.finish(&b).is_none());
    assert!(matches!(decodes.finish(&a), Some(Interest::Neighbor)));
    assert!(decodes.start().is_none());
}

#[test]
fn cached_foreground_reserves_capacity_for_next_miss() {
    let mut decodes = Decodes::default();
    decodes.replace(None, &["a", "b"]);
    let a = decodes.start().unwrap();
    assert!(decodes.start().is_none());
    decodes.select("c", 1, &["a", "b"]);
    assert_eq!(decodes.start().unwrap().path, b"c");
    assert!(!decodes.is_cancelled(&a));
}

#[test]
fn demoted_foreground_does_not_leave_two_speculations_ahead_of_current_image() {
    let mut decodes = Decodes::default();
    decodes.select("a", 1, &["b"]);
    let a = decodes.start().unwrap();
    let b = decodes.start().unwrap();
    decodes.select("c", 2, &["a", "b"]);
    assert!(!decodes.is_cancelled(&a));
    assert!(decodes.is_cancelled(&b));
    assert!(decodes.finish(&b).is_none());
    assert_eq!(decodes.start().unwrap().path, b"c");
}

#[test]
fn invalidation_and_return_to_cancelled_path_wait_for_old_completion() {
    let mut decodes = Decodes::default();
    decodes.select("a", 1, &["b"]);
    let old = decodes.start().unwrap();
    decodes.invalidate("a");
    decodes.select("a", 2, &["b"]);
    assert!(decodes.is_cancelled(&old));
    assert!(
        decodes.start().is_none(),
        "pending foreground blocks speculation"
    );
    assert!(decodes.finish(&old).is_none());
    let fresh = decodes.start().unwrap();
    assert!(!decodes.is_cancelled(&fresh));
    assert!(matches!(
        decodes.finish(&fresh),
        Some(Interest::Foreground(2))
    ));
}

#[test]
fn late_save_invalidation_retries_latest_foreground_without_reselecting_it() {
    let mut decodes = Decodes::default();
    decodes.select("a", 3, &[]);
    let old = decodes.start().unwrap();
    // A save from an earlier destination generation has finished. Its
    // caller cannot select A again, but current generation 3 still needs A.
    decodes.invalidate("a");
    decodes.invalidate("a");
    assert!(decodes.start().is_none());
    assert!(decodes.finish(&old).is_none());
    let fresh = decodes.start().unwrap();
    assert_eq!(fresh.path, b"a");
    assert!(matches!(
        decodes.finish(&fresh),
        Some(Interest::Foreground(3))
    ));
    assert!(decodes.start().is_none());
}

#[test]
fn clear_and_drop_cancel_active_and_discard_queued_work() {
    let mut decodes = Decodes::default();
    decodes.select("a", 1, &["b", "c"]);
    let a = decodes.start().unwrap();
    let b = decodes.start().unwrap();
    decodes.cancel_all();
    assert!(decodes.is_cancelled(&a));
    assert!(decodes.is_cancelled(&b));
    assert!(decodes.finish(&a).is_none());
    assert!(decodes.finish(&b).is_none());
    assert!(decodes.start().is_none());
    decodes.select("d", 2, &[]);
    let d = decodes.start().unwrap();
    // Its owner cancels everything before it lets the scheduler go.
    decodes.cancel_all();
    assert!(decodes.is_cancelled(&d));
}

#[test]
fn oversized_input_and_duplicate_paths_cannot_grow_queue() {
    let mut decodes = Decodes::default();
    let many: Vec<String> = (0..1000).map(|i| i.to_string()).collect();
    let neighbors: Vec<&str> = many.iter().map(String::as_str).collect();
    decodes.replace(Some(("a", 1)), &neighbors);
    assert_eq!(decodes.scheduler.pending_count(), 3);
    decodes.select("a", 2, &["a", "a"]);
    assert_eq!(decodes.scheduler.pending_count(), 1);
}
