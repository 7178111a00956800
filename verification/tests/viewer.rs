use open_mpv::annotation::{CommitResult, Point, Tool};
use open_mpv::number::Real;
use open_mpv::viewer::{
    Axis, DragPlan, FitPolicy, MarkupCopyError, Medium, Mode, ScrollAction, ScrollGesture,
    ScrollUnit, State, DETENT,
};

const ZOOM_STEP: f64 = 1.1;
const SURFACE_PIXELS_PER_DETENT: f64 = 50.0;

/// Travel in the logical pixels of a touchpad, as parts of a detent.
fn travel(pixels: f64) -> i64 {
    (pixels / SURFACE_PIXELS_PER_DETENT * DETENT as f64).round() as i64
}

/// One touchpad event, in logical pixels.
fn swipe(g: &mut ScrollGesture, dx: f64, dy: f64) -> ScrollAction {
    g.event(ScrollUnit::Surface, travel(dx), travel(dy))
}

/// How much a travel zooms.
fn factor(travel: i64) -> f64 {
    ZOOM_STEP.powf(-(travel as f64) / DETENT as f64)
}

fn point(x: f64, y: f64) -> Point {
    Point::new(Real::new(x.to_bits()), Real::new(y.to_bits()))
}

#[test]
fn wheel_detents_act_one_at_a_time() {
    let mut g = ScrollGesture::new();
    let ScrollAction::Zoom(turned) = g.event(ScrollUnit::Wheel, 0, -DETENT) else {
        panic!("expected a zoom");
    };
    assert_eq!(factor(turned), ZOOM_STEP);
    assert_eq!(
        g.event(ScrollUnit::Wheel, DETENT, 0),
        ScrollAction::Navigate(1)
    );
    assert_eq!(
        g.event(ScrollUnit::Wheel, -DETENT, 0),
        ScrollAction::Navigate(-1)
    );
    assert_eq!(g.event(ScrollUnit::Wheel, 0, 0), ScrollAction::Ignore);
}

/// Images advanced by a sideways swipe of `pixels`, delivered the way
/// a touchpad delivers it: many small events.
fn images_moved(pixels: f64) -> usize {
    let mut g = ScrollGesture::new();
    (0..(pixels / 10.0).round() as usize)
        .filter(|_| swipe(&mut g, 10.0, 0.0) == ScrollAction::Navigate(1))
        .count()
}

#[test]
fn a_touchpad_swipe_advances_by_travel_not_by_event_count() {
    // One image per 100 logical px, however many events that took. The
    // defect this guards: a 150 px swipe arrives as ~15 events and used to
    // move 15 images.
    assert_eq!(images_moved(150.0), 1);
    assert_eq!(images_moved(250.0), 2);
    assert_eq!(images_moved(350.0), 3);
    // A twitch is not a swipe.
    assert_eq!(images_moved(30.0), 0);
}

#[test]
fn touchpad_zoom_is_gentle_where_wheel_zoom_is_a_full_step() {
    let mut g = ScrollGesture::new();
    // Reading a 10 px flick as ten detents would zoom out 2.6x.
    let ScrollAction::Zoom(moved) = swipe(&mut g, 0.0, 10.0) else {
        panic!("expected a zoom");
    };
    let factor = factor(moved);
    assert!(
        (factor - ZOOM_STEP.powf(-10.0 / SURFACE_PIXELS_PER_DETENT)).abs() < 1e-12,
        "{factor} should be one fifth of a detent"
    );
    assert!(
        factor > 0.97 && factor < 1.0,
        "{factor} is not a gentle step"
    );
}

#[test]
fn sideways_jitter_during_a_zoom_never_navigates() {
    let mut g = ScrollGesture::new();
    for _ in 0..20 {
        // Fingers drifting a pixel sideways per event while zooming.
        assert_ne!(swipe(&mut g, 1.0, -12.0), ScrollAction::Navigate(-1));
        assert_ne!(swipe(&mut g, -1.0, -12.0), ScrollAction::Navigate(1));
    }
    assert_eq!(g.axis, Some(Axis::Vertical));
}

#[test]
fn a_new_gesture_is_free_to_pick_the_other_axis() {
    let mut g = ScrollGesture::new();
    for _ in 0..5 {
        swipe(&mut g, 20.0, 0.0);
    }
    assert_eq!(g.axis, Some(Axis::Horizontal));
    // What happens between gestures.
    g = ScrollGesture::new();
    swipe(&mut g, 0.0, 30.0);
    assert_eq!(g.axis, Some(Axis::Vertical));
}

#[test]
fn showing_a_medium_resets_the_view() {
    let mut view = State::new();
    view.show(Medium::Texture, FitPolicy::DownscaleOnly);
    view.rotate_view(1);
    view.rotate_view(-2);
    assert_eq!(view.rotation(), 3);
    assert!(view.is_sideways());
    view.zoom_to(Real::new(2.0_f64.to_bits()));
    assert_eq!(view.mode(), Mode::Manual(Real::new(2.0_f64.to_bits())));
    view.zoom_fit();
    assert_eq!(view.mode(), Mode::Fit);
    assert_eq!(
        view.toggle_fit_actual(),
        Mode::Manual(Real::new(1.0_f64.to_bits()))
    );
    view.show(Medium::Live, FitPolicy::ScaleToViewport);
    assert_eq!(view.rotation(), 0);
    assert_eq!(view.medium(), Some(Medium::Live));
    assert_eq!(view.fit_policy(), FitPolicy::ScaleToViewport);
    view.set_default_fit_actual(true);
    view.show(Medium::Texture, FitPolicy::DownscaleOnly);
    assert_eq!(view.mode(), Mode::Manual(Real::new(1.0_f64.to_bits())));
    view.clear();
    assert_eq!(view.medium(), None);
}

#[test]
fn only_still_pictures_are_marked_up() {
    let mut view = State::default();
    assert!(!view.start_markup());
    view.show(Medium::Live, FitPolicy::ScaleToViewport);
    assert!(!view.start_markup());
    assert_eq!(view.annotated_texture(), Err(MarkupCopyError::NoImage));
    view.show(Medium::Texture, FitPolicy::DownscaleOnly);
    assert!(view.start_markup());
    assert_eq!(view.annotated_texture(), Err(MarkupCopyError::NoAnnotations));
    view.set_markup_tool(Tool::Arrow);
    assert!(view.begin_markup_draft(point(1.0, 1.0)));
    view.update_markup_draft(point(20.0, 20.0));
    assert!(view.markup_has_draft());
    assert_eq!(view.commit_markup_draft(true), CommitResult::Added);
    assert_eq!(view.annotated_texture(), Ok(()));
    assert_eq!(view.markup_status().unwrap().shape_count, 1);
    assert_eq!(view.markup_shapes(true)[0].tool, Tool::Arrow);
    assert!(view.clear_markup());
    assert!(view.undo_markup());
    assert_eq!(view.markup_shapes(false).len(), 1);
    assert!(view.cancel_markup());
    assert!(!view.cancel_markup());
    assert_eq!(view.markup_status(), None);
}

#[test]
fn marking_up_takes_the_drag_and_keeps_the_file() {
    let mut view = State::new();
    view.show(Medium::Texture, FitPolicy::DownscaleOnly);
    assert_eq!(view.drag_begin(true), DragPlan::Pan);
    assert_eq!(view.drag_begin(false), DragPlan::Denied);
    assert_eq!(
        view.scroll(ScrollAction::Navigate(1)),
        ScrollAction::Navigate(1)
    );
    view.start_markup();
    assert_eq!(view.drag_begin(true), DragPlan::Denied);
    assert_eq!(view.scroll(ScrollAction::Navigate(1)), ScrollAction::Ignore);
    assert_eq!(view.scroll(ScrollAction::Zoom(5)), ScrollAction::Zoom(5));
}

#[test]
fn copy_failures_are_explained() {
    assert_eq!(
        MarkupCopyError::NoImage.describe(),
        "No image is available for Quick Markup"
    );
    assert_eq!(
        MarkupCopyError::NoAnnotations.describe(),
        "Draw a box or arrow before copying"
    );
    assert_eq!(
        MarkupCopyError::RendererUnavailable.describe(),
        "Cannot prepare the annotated image"
    );
    assert_eq!(
        MarkupCopyError::EmptyRender.describe(),
        "The annotated image could not be rendered"
    );
}
