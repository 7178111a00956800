use open_mpv::annotation::{CommitResult, Point, Session, Tool, MAX_SHAPES};
use open_mpv::number::Real;

fn point(x: f64, y: f64) -> Point {
    Point::new(Real::new(x.to_bits()), Real::new(y.to_bits()))
}

/// Whether the draft's ends are at least the minimum distance apart.
fn far_enough(session: &Session, minimum: f64) -> bool {
    let shape = session.draft().unwrap();
    let dx = f64::from_bits(shape.end.x.bits) - f64::from_bits(shape.start.x.bits);
    let dy = f64::from_bits(shape.end.y.bits) - f64::from_bits(shape.start.y.bits);
    dx.hypot(dy) >= minimum
}

fn commit(session: &mut Session, minimum: f64) -> CommitResult {
    let far = far_enough(session, minimum);
    session.commit(far)
}

#[test]
fn session_commits_undoes_and_clears_shapes() {
    let mut session = Session::default();
    assert_eq!(session.status().tool, Tool::Box);
    assert!(session.begin(point(10.0, 10.0)));
    session.update(point(40.0, 30.0));
    assert_eq!(commit(&mut session, 3.0), CommitResult::Added);
    assert_eq!(session.status().shape_count, 1);

    session.set_tool(Tool::Arrow);
    assert!(session.begin(point(1.0, 2.0)));
    session.update(point(20.0, 22.0));
    assert_eq!(commit(&mut session, 3.0), CommitResult::Added);
    assert_eq!(session.status().shape_count, 2);
    assert!(session.undo());
    assert_eq!(session.status().shape_count, 1);
    assert!(session.clear());
    assert_eq!(session.status().shape_count, 0);
    assert!(session.status().can_undo);
    session.begin(point(2.0, 2.0));
    session.update(point(2.5, 2.5));
    assert_eq!(commit(&mut session, 3.0), CommitResult::TooSmall);
    assert!(session.undo(), "clear should be reversible");
    assert_eq!(session.status().shape_count, 1);
    assert!(session.clear());
    assert!(!session.clear());
}

#[test]
fn tiny_and_cancelled_drafts_never_enter_history() {
    let mut session = Session::default();
    session.begin(point(5.0, 5.0));
    session.update(point(6.0, 6.0));
    assert_eq!(commit(&mut session, 3.0), CommitResult::TooSmall);
    assert_eq!(session.status().shape_count, 0);

    session.begin(point(5.0, 5.0));
    assert!(session.has_draft());
    assert!(session.cancel_draft());
    assert!(!session.has_draft());
    assert!(!session.cancel_draft());
}

#[test]
fn history_is_bounded() {
    let mut session = Session::default();
    for index in 0..MAX_SHAPES {
        assert!(session.begin(point(index as f64, 0.0)));
        session.update(point(index as f64 + 10.0, 0.0));
        assert_eq!(commit(&mut session, 1.0), CommitResult::Added);
    }
    assert_eq!(session.status().shape_count, MAX_SHAPES);
    assert!(!session.begin(point(0.0, 0.0)));
}

#[test]
fn shapes_keep_their_tool_and_ends() {
    let mut session = Session::new();
    session.begin(point(1.0, 2.0));
    session.update(point(30.0, 40.0));
    session.commit(true);
    session.set_tool(Tool::Arrow);
    session.begin(point(5.0, 6.0));
    assert_eq!(session.shapes(false).len(), 1);
    let shapes = session.shapes(true);
    assert_eq!(shapes.len(), 2);
    assert_eq!(shapes[0].tool, Tool::Box);
    assert_eq!(shapes[0].end, point(30.0, 40.0));
    assert_eq!(shapes[1].tool, Tool::Arrow);
    assert_eq!(shapes[1].start, point(5.0, 6.0));
}

#[test]
fn undo_takes_the_draft_back_first() {
    let mut session = Session::new();
    session.begin(point(0.0, 0.0));
    session.update(point(9.0, 9.0));
    session.commit(true);
    session.begin(point(1.0, 1.0));
    assert!(session.undo());
    assert!(!session.has_draft());
    assert_eq!(session.status().shape_count, 1);
    assert!(session.undo());
    assert_eq!(session.status().shape_count, 0);
    assert!(!session.undo());
}

#[test]
fn repeated_clears_can_be_taken_back() {
    let mut session = Session::new();
    for _ in 0..3 {
        session.begin(point(0.0, 0.0));
        session.commit(true);
        assert!(session.clear());
        assert!(session.undo());
        assert_eq!(session.status().shape_count, 1);
        assert!(session.undo());
        assert_eq!(session.status().shape_count, 0);
    }
}
