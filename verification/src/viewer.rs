//! The view of one medium: fit and manual zoom, rotation in quarter turns,
//! markup, and what scrolling does. Geometry is left to the widget.
use vstd::prelude::*;

use crate::annotation::{CommitResult, Point, Session, Shape, Sketch, Status, Tool};
use crate::number::Real;

verus! {

/// One wheel detent, in the units of scroll travel.
pub const DETENT: i64 = 1_000_000;

/// Travel before a touchpad gesture commits to zooming or navigating, so that
/// sideways jitter during a zoom cannot flip the image.
pub const AXIS_LOCK: i64 = 200_000;

/// Sideways travel that counts as one swipe to the next image.
pub const SWIPE: i64 = 2_000_000;

/// 1.0
pub const ACTUAL_SIZE: u64 = 0x3ff0_0000_0000_0000;

#[derive(Debug, Clone, Copy, PartialEq, Eq, Structural)]
pub enum Axis {
    Horizontal,
    Vertical,
}

/// How scroll travel is reported: in detents, or in touchpad movement.
#[derive(Debug, Clone, Copy, PartialEq, Eq, Structural)]
pub enum ScrollUnit {
    Wheel,
    Surface,
}

#[derive(Debug, Clone, Copy, PartialEq, Eq, Structural)]
pub enum ScrollAction {
    Ignore,
    /// +1 next, -1 previous.
    Navigate(i32),
    /// Zoom out by one step for each detent of this travel; in where it is negative.
    Zoom(i64),
}

/// Scroll travel accumulated within one touchpad gesture. A wheel detent is a
/// complete gesture in itself and does not touch this.
#[derive(Debug, Clone, Copy, PartialEq, Eq, Structural)]
pub struct ScrollGesture {
    /// Unspent travel.
    pub dx: i64,
    pub dy: i64,
    pub axis: Option<Axis>,
}

pub open spec fn size(travel: int) -> int {
    if travel < 0 {
        -travel
    } else {
        travel
    }
}

/// A sum kept within what is counted.
pub open spec fn kept(travel: int) -> int {
    if travel > i64::MAX {
        i64::MAX as int
    } else if travel < i64::MIN {
        i64::MIN as int
    } else {
        travel
    }
}

fn keep(travel: i128) -> (result: i64)
    ensures
        result as int == kept(travel as int),
{
    if travel > i64::MAX as i128 {
        i64::MAX
    } else if travel < i64::MIN as i128 {
        i64::MIN
    } else {
        travel as i64
    }
}

fn size_of(travel: i64) -> (result: i128)
    ensures
        result as int == size(travel as int),
{
    if travel < 0 {
        -(travel as i128)
    } else {
        travel as i128
    }
}

pub open spec fn direction(travel: int) -> i32 {
    if travel > 0 {
        1i32
    } else {
        -1i32
    }
}

impl ScrollGesture {
    pub open spec fn fresh() -> ScrollGesture {
        ScrollGesture { dx: 0, dy: 0, axis: None }
    }

    /// What a wheel detent does: one image or one zoom step each.
    pub open spec fn wheel_action(dx: i64, dy: i64) -> ScrollAction {
        if size(dx as int) > size(dy as int) {
            ScrollAction::Navigate(direction(dx as int))
        } else if dy != 0 {
            ScrollAction::Zoom(dy)
        } else {
            ScrollAction::Ignore
        }
    }

    /// The gesture with more travel; its axis is decided once it went far enough.
    pub open spec fn moved(self, dx: i64, dy: i64) -> ScrollGesture {
        let x = kept(self.dx + dx);
        let y = kept(self.dy + dy);
        ScrollGesture {
            dx: x as i64,
            dy: y as i64,
            axis: match self.axis {
                Some(axis) => Some(axis),
                None => if size(x) >= AXIS_LOCK || size(y) >= AXIS_LOCK {
                    Some(
                        if size(x) > size(y) {
                            Axis::Horizontal
                        } else {
                            Axis::Vertical
                        },
                    )
                } else {
                    None
                },
            },
        }
    }

    /// What the travel so far does.
    pub open spec fn action(self) -> ScrollAction {
        match self.axis {
            None => ScrollAction::Ignore,
            Some(Axis::Horizontal) => if size(self.dx as int) < SWIPE {
                ScrollAction::Ignore
            } else {
                ScrollAction::Navigate(direction(self.dx as int))
            },
            Some(Axis::Vertical) => if self.dy == 0 {
                ScrollAction::Ignore
            } else {
                ScrollAction::Zoom(self.dy)
            },
        }
    }

    /// The gesture once the travel was spent on its action.
    pub open spec fn spent(self) -> ScrollGesture {
        match self.action() {
            ScrollAction::Ignore => self,
            ScrollAction::Navigate(way) => ScrollGesture {
                dx: (self.dx - way * SWIPE) as i64,
                ..self
            },
            ScrollAction::Zoom(_) => ScrollGesture { dy: 0, ..self },
        }
    }

    pub fn new() -> (result: Self)
        ensures
            result == ScrollGesture::fresh(),
    {
        ScrollGesture { dx: 0, dy: 0, axis: None }
    }

    /// What one scroll event should do. Wheel detents act immediately. Touchpad
    /// travel is accumulated: a swipe delivers dozens of events, and acting on
    /// each one would race through the folder or zoom by orders of magnitude.
    pub fn event(&mut self, unit: ScrollUnit, dx: i64, dy: i64) -> (result: ScrollAction)
        ensures
            match unit {
                ScrollUnit::Wheel => result == ScrollGesture::wheel_action(dx, dy) && *final(self)
                    == *old(self),
                ScrollUnit::Surface => result == old(self).moved(dx, dy).action() && *final(self)
                    == old(self).moved(dx, dy).spent(),
            },
    {
        if unit == ScrollUnit::Wheel {
            return if size_of(dx) > size_of(dy) {
                ScrollAction::Navigate(
                    if dx > 0 {
                        1
                    } else {
                        -1
                    },
                )
            } else if dy != 0 {
                ScrollAction::Zoom(dy)
            } else {
                ScrollAction::Ignore
            };
        }
        self.dx = keep(self.dx as i128 + dx as i128);
        self.dy = keep(self.dy as i128 + dy as i128);
        let across = size_of(self.dx);
        let down = size_of(self.dy);
        if self.axis.is_none() && (across >= AXIS_LOCK as i128 || down >= AXIS_LOCK as i128) {
            self.axis = Some(
                if across > down {
                    Axis::Horizontal
                } else {
                    Axis::Vertical
                },
            );
        }
        match self.axis {
            None => ScrollAction::Ignore,
            Some(Axis::Horizontal) => {
                if across < SWIPE as i128 {
                    return ScrollAction::Ignore;
                }
                if self.dx > 0 {
                    self.dx = self.dx - SWIPE;
                    ScrollAction::Navigate(1)
                } else {
                    self.dx = self.dx + SWIPE;
                    ScrollAction::Navigate(-1)
                }
            },
            Some(Axis::Vertical) => {
                let travel = self.dy;
                self.dy = 0;
                if travel == 0 {
                    ScrollAction::Ignore
                } else {
                    ScrollAction::Zoom(travel)
                }
            },
        }
    }
}

/// Once a gesture zooms, sideways travel never navigates; once it navigates,
/// it never zooms.
pub proof fn axes_do_not_mix(gesture: ScrollGesture, dx: i64, dy: i64)
    requires
        gesture.axis is Some,
    ensures
        gesture.moved(dx, dy).axis == gesture.axis,
        gesture.moved(dx, dy).spent().axis == gesture.axis,
        gesture.axis == Some(Axis::Vertical) ==> !(gesture.moved(dx, dy).action() is Navigate),
        gesture.axis == Some(Axis::Horizontal) ==> !(gesture.moved(dx, dy).action() is Zoom),
{
}

/// A swipe advances by travel, not by the number of events: each step to an image
/// spends the same distance in its direction.
pub proof fn swipes_spend_their_travel(gesture: ScrollGesture)
    requires
        gesture.action() is Navigate,
    ensures
        gesture.spent().dx == gesture.dx - gesture.action()->Navigate_0 * SWIPE,
        size(gesture.spent().dx as int) == size(gesture.dx as int) - SWIPE,
{
}

/// How a medium is scaled.
#[derive(Debug, Clone, Copy, PartialEq, Eq, Structural)]
pub enum Mode {
    /// To the window, as its fit policy says.
    Fit,
    /// To this factor; 1.0 is pixel-exact.
    Manual(Real),
}

#[derive(Debug, Clone, Copy, PartialEq, Eq, Structural)]
pub enum FitPolicy {
    /// Images retain pixel-exact presentation when they already fit.
    DownscaleOnly,
    /// Video uses the largest aspect-preserving size that the window allows.
    ScaleToViewport,
}

/// What is on display.
#[derive(Debug, Clone, Copy, PartialEq, Eq, Structural)]
pub enum Medium {
    /// A picture that does not change by itself.
    Texture,
    /// A source that redraws itself.
    Live,
}

/// Why an annotated image could not be copied.
#[derive(Debug, Clone, Copy, PartialEq, Eq, Structural)]
pub enum MarkupCopyError {
    NoImage,
    NoAnnotations,
    RendererUnavailable,
    EmptyRender,
}

impl MarkupCopyError {
    pub open spec fn text(self) -> Seq<char> {
        match self {
            MarkupCopyError::NoImage => "No image is available for Quick Markup"@,
            MarkupCopyError::NoAnnotations => "Draw a box or arrow before copying"@,
            MarkupCopyError::RendererUnavailable => "Cannot prepare the annotated image"@,
            MarkupCopyError::EmptyRender => "The annotated image could not be rendered"@,
        }
    }

    pub fn describe(self) -> (result: String)
        ensures
            result@ == self.text(),
    {
        match self {
            MarkupCopyError::NoImage => "No image is available for Quick Markup".to_owned(),
            MarkupCopyError::NoAnnotations => "Draw a box or arrow before copying".to_owned(),
            MarkupCopyError::RendererUnavailable => "Cannot prepare the annotated image".to_owned(),
            MarkupCopyError::EmptyRender => "The annotated image could not be rendered".to_owned(),
        }
    }
}

/// The state of the view apart from its geometry.
pub struct State {
    medium: Option<Medium>,
    mode: Mode,
    fit_policy: FitPolicy,
    /// Quarter turns, 0 to 3.
    rotation: u8,
    default_fit_actual: bool,
    annotation: Option<Session>,
}

/// The state as a value.
#[verifier::ext_equal]
pub struct Display {
    pub medium: Option<Medium>,
    pub mode: Mode,
    pub fit_policy: FitPolicy,
    pub rotation: int,
    pub default_fit_actual: bool,
    pub annotation: Option<Sketch>,
}

impl View for State {
    type V = Display;

    closed spec fn view(&self) -> Display {
        Display {
            medium: self.medium,
            mode: self.mode,
            fit_policy: self.fit_policy,
            rotation: self.rotation as int,
            default_fit_actual: self.default_fit_actual,
            annotation: match self.annotation {
                Some(session) => Some(session@),
                None => None,
            },
        }
    }
}

impl Display {
    /// The rotation is a quarter turn, and only a still picture is marked up.
    pub open spec fn wf(self) -> bool {
        &&& 0 <= self.rotation < 4
        &&& self.annotation matches Some(sketch) ==> sketch.wf() && self.medium == Some(
            Medium::Texture,
        )
    }

    pub open spec fn default_mode(self) -> Mode {
        if self.default_fit_actual {
            Mode::Manual(Real { bits: ACTUAL_SIZE })
        } else {
            Mode::Fit
        }
    }

    pub open spec fn shown(self, medium: Medium, fit_policy: FitPolicy) -> Display {
        Display {
            medium: Some(medium),
            mode: self.default_mode(),
            fit_policy,
            rotation: 0,
            annotation: None,
            ..self
        }
    }

    pub open spec fn turned(self, quarter_turns: int) -> Display {
        Display { rotation: (self.rotation + quarter_turns) % 4, ..self }
    }

    pub open spec fn with_sketch(self, sketch: Sketch) -> Display {
        Display { annotation: Some(sketch), ..self }
    }
}

/// Turning one way and back again changes nothing; four quarter turns are none.
pub proof fn turns_can_be_undone(display: Display, turns: int)
    requires
        display.wf(),
    ensures
        display.turned(turns).turned(-turns) == display,
        display.turned(turns).wf(),
        display.turned(1).turned(1).turned(1).turned(1) == display,
{
}

/// What pressing the pointer on the picture begins.
#[derive(Debug, Clone, Copy, PartialEq, Eq, Structural)]
pub enum DragPlan {
    /// Nothing here; another gesture may take the drag.
    Denied,
    Pan,
}

impl State {
    pub fn new() -> (result: Self)
        ensures
            result@ == (Display {
                medium: None,
                mode: Mode::Fit,
                fit_policy: FitPolicy::DownscaleOnly,
                rotation: 0,
                default_fit_actual: false,
                annotation: None,
            }),
            result@.wf(),
    {
        State {
            medium: None,
            mode: Mode::Fit,
            fit_policy: FitPolicy::DownscaleOnly,
            rotation: 0,
            default_fit_actual: false,
            annotation: None,
        }
    }

    /// Shows a new medium, resetting the view to the default fit.
    pub fn show(&mut self, medium: Medium, fit_policy: FitPolicy)
        requires
            old(self)@.wf(),
        ensures
            final(self)@ == old(self)@.shown(medium, fit_policy),
            final(self)@.wf(),
    {
        self.medium = Some(medium);
        self.fit_policy = fit_policy;
        self.rotation = 0;
        self.annotation = None;
        self.mode = if self.default_fit_actual {
            Mode::Manual(Real::new(ACTUAL_SIZE))
        } else {
            Mode::Fit
        };
    }

    /// Removes the medium.
    pub fn clear(&mut self)
        requires
            old(self)@.wf(),
        ensures
            final(self)@ == (Display { medium: None, annotation: None, ..old(self)@ }),
            final(self)@.wf(),
    {
        self.medium = None;
        self.annotation = None;
    }

    /// Replaces the picture without touching the view.
    pub fn update_texture(&mut self)
        requires
            old(self)@.wf(),
        ensures
            final(self)@ == (Display { medium: Some(Medium::Texture), ..old(self)@ }),
            final(self)@.wf(),
    {
        self.medium = Some(Medium::Texture);
    }

    pub fn set_default_fit_actual(&mut self, actual: bool)
        requires
            old(self)@.wf(),
        ensures
            final(self)@ == (Display { default_fit_actual: actual, ..old(self)@ }),
            final(self)@.wf(),
    {
        self.default_fit_actual = actual;
    }

    pub fn medium(&self) -> (result: Option<Medium>)
        ensures
            result == self@.medium,
    {
        self.medium
    }

    pub fn mode(&self) -> (result: Mode)
        ensures
            result == self@.mode,
    {
        self.mode
    }

    pub fn fit_policy(&self) -> (result: FitPolicy)
        ensures
            result == self@.fit_policy,
    {
        self.fit_policy
    }

    /// The rotation in quarter turns.
    pub fn rotation(&self) -> (result: u8)
        ensures
            result as int == self@.rotation,
    {
        self.rotation
    }

    /// Whether width and height are swapped by the rotation.
    pub fn is_sideways(&self) -> (result: bool)
        ensures
            result == (self@.rotation % 2 == 1),
    {
        self.rotation % 2 == 1
    }

    /// Rotates the view by quarter turns.
    pub fn rotate_view(&mut self, quarter_turns: i8)
        requires
            old(self)@.wf(),
        ensures
            final(self)@ == old(self)@.turned(quarter_turns as int),
            final(self)@.wf(),
    {
        let total: i16 = self.rotation as i16 + quarter_turns as i16;
        let positive: i16 = total + 128;
        self.rotation = (positive % 4) as u8;
    }

    /// Scales to the window.
    pub fn zoom_fit(&mut self)
        requires
            old(self)@.wf(),
        ensures
            final(self)@ == (Display { mode: Mode::Fit, ..old(self)@ }),
            final(self)@.wf(),
    {
        self.mode = Mode::Fit;
    }

    /// Scales to a factor.
    pub fn zoom_to(&mut self, zoom: Real)
        requires
            old(self)@.wf(),
        ensures
            final(self)@ == (Display { mode: Mode::Manual(zoom), ..old(self)@ }),
            final(self)@.wf(),
    {
        self.mode = Mode::Manual(zoom);
    }

    /// The mode that switching between fit and actual size leads to.
    pub fn toggle_fit_actual(&self) -> (result: Mode)
        ensures
            result == (if self@.mode == Mode::Fit {
                Mode::Manual(Real { bits: ACTUAL_SIZE })
            } else {
                Mode::Fit
            }),
    {
        match self.mode {
            Mode::Fit => Mode::Manual(Real::new(ACTUAL_SIZE)),
            Mode::Manual(_) => Mode::Fit,
        }
    }

    /// Begins a markup, which only a still picture can have.
    pub fn start_markup(&mut self) -> (result: bool)
        requires
            old(self)@.wf(),
        ensures
            result == (old(self)@.medium == Some(Medium::Texture)),
            final(self)@ == (if result {
                old(self)@.with_sketch(Sketch::fresh())
            } else {
                old(self)@
            }),
            final(self)@.wf(),
    {
        let still = match self.medium {
            Some(Medium::Texture) => true,
            _ => false,
        };
        if still {
            self.annotation = Some(Session::new());
        }
        still
    }

    /// Ends a markup and drops it. Returns whether there was one.
    pub fn cancel_markup(&mut self) -> (result: bool)
        requires
            old(self)@.wf(),
        ensures
            result == (old(self)@.annotation is Some),
            final(self)@ == (Display { annotation: None, ..old(self)@ }),
            final(self)@.wf(),
    {
        self.annotation.take().is_some()
    }

    pub fn is_marking_up(&self) -> (result: bool)
        ensures
            result == (self@.annotation is Some),
    {
        self.annotation.is_some()
    }

    pub fn markup_has_draft(&self) -> (result: bool)
        ensures
            result == (self@.annotation matches Some(sketch) && sketch.draft is Some),
    {
        match &self.annotation {
            Some(session) => session.has_draft(),
            None => false,
        }
    }

    pub fn markup_draft(&self) -> (result: Option<Shape>)
        ensures
            result == match self@.annotation {
                Some(sketch) => sketch.draft,
                None => None,
            },
    {
        match &self.annotation {
            Some(session) => session.draft(),
            None => None,
        }
    }

    /// Begins a shape. Returns whether there is room for one.
    pub fn begin_markup_draft(&mut self, point: Point) -> (result: bool)
        requires
            old(self)@.wf(),
        ensures
            final(self)@.wf(),
            match old(self)@.annotation {
                Some(sketch) => {
                    &&& result == (sketch.shapes.len() < crate::annotation::MAX_SHAPES)
                    &&& final(self)@ == (if result {
                        old(self)@.with_sketch(
                            Sketch {
                                draft: Some(
                                    Shape { tool: sketch.tool, start: point, end: point },
                                ),
                                ..sketch
                            },
                        )
                    } else {
                        old(self)@
                    })
                },
                None => !result && final(self)@ == old(self)@,
            },
    {
        match self.annotation.take() {
            Some(mut session) => {
                let result = session.begin(point);
                self.annotation = Some(session);
                result
            },
            None => false,
        }
    }

    /// Moves the end of the shape being drawn.
    pub fn update_markup_draft(&mut self, point: Point)
        requires
            old(self)@.wf(),
        ensures
            final(self)@.wf(),
            final(self)@ == match old(self)@.annotation {
                Some(sketch) => old(self)@.with_sketch(
                    Sketch {
                        draft: match sketch.draft {
                            Some(shape) => Some(Shape { end: point, ..shape }),
                            None => None,
                        },
                        ..sketch
                    },
                ),
                None => old(self)@,
            },
    {
        match self.annotation.take() {
            Some(mut session) => {
                session.update(point);
                self.annotation = Some(session);
            },
            None => {},
        }
    }

    /// Ends the shape being drawn; `far_enough` says that it is large enough.
    pub fn commit_markup_draft(&mut self, far_enough: bool) -> (result: CommitResult)
        requires
            old(self)@.wf(),
        ensures
            final(self)@.wf(),
            match old(self)@.annotation {
                Some(sketch) => if sketch.draft is Some && far_enough {
                    result == CommitResult::Added && final(self)@ == old(self)@.with_sketch(
                        sketch.committed(),
                    )
                } else {
                    result == CommitResult::TooSmall && final(self)@ == old(self)@.with_sketch(
                        Sketch { draft: None, ..sketch },
                    )
                },
                None => result == CommitResult::TooSmall && final(self)@ == old(self)@,
            },
    {
        match self.annotation.take() {
            Some(mut session) => {
                let result = session.commit(far_enough);
                self.annotation = Some(session);
                result
            },
            None => CommitResult::TooSmall,
        }
    }

    /// Drops the shape being drawn. Returns whether there was one.
    pub fn cancel_markup_draft(&mut self) -> (result: bool)
        requires
            old(self)@.wf(),
        ensures
            final(self)@.wf(),
            result == (old(self)@.annotation matches Some(sketch) && sketch.draft is Some),
            final(self)@ == match old(self)@.annotation {
                Some(sketch) => old(self)@.with_sketch(Sketch { draft: None, ..sketch }),
                None => old(self)@,
            },
    {
        match self.annotation.take() {
            Some(mut session) => {
                let result = session.cancel_draft();
                self.annotation = Some(session);
                result
            },
            None => false,
        }
    }

    pub fn set_markup_tool(&mut self, tool: Tool)
        requires
            old(self)@.wf(),
        ensures
            final(self)@.wf(),
            final(self)@ == match old(self)@.annotation {
                Some(sketch) => old(self)@.with_sketch(Sketch { tool, draft: None, ..sketch }),
                None => old(self)@,
            },
    {
        match self.annotation.take() {
            Some(mut session) => {
                session.set_tool(tool);
                self.annotation = Some(session);
            },
            None => {},
        }
    }

    /// Takes one step of the markup back. Returns whether there was one.
    pub fn undo_markup(&mut self) -> (result: bool)
        requires
            old(self)@.wf(),
        ensures
            final(self)@.wf(),
            result == (old(self)@.annotation matches Some(sketch) && sketch.can_undo()),
            final(self)@ == match old(self)@.annotation {
                Some(sketch) => old(self)@.with_sketch(sketch.undone()),
                None => old(self)@,
            },
    {
        match self.annotation.take() {
            Some(mut session) => {
                let result = session.undo();
                self.annotation = Some(session);
                result
            },
            None => false,
        }
    }

    /// Takes all shapes away. Returns whether there was anything.
    pub fn clear_markup(&mut self) -> (result: bool)
        requires
            old(self)@.wf(),
        ensures
            final(self)@.wf(),
            result == (old(self)@.annotation matches Some(sketch) && (sketch.shapes.len() > 0
                || sketch.draft is Some)),
            final(self)@ == match old(self)@.annotation {
                Some(sketch) => old(self)@.with_sketch(sketch.cleared()),
                None => old(self)@,
            },
    {
        match self.annotation.take() {
            Some(mut session) => {
                let result = session.clear();
                self.annotation = Some(session);
                result
            },
            None => false,
        }
    }

    pub fn markup_status(&self) -> (result: Option<Status>)
        ensures
            match (result, self@.annotation) {
                (Some(status), Some(sketch)) => status.tool == sketch.tool && status.shape_count
                    == sketch.shapes.len() && status.can_undo == sketch.can_undo(),
                (None, None) => true,
                _ => false,
            },
    {
        match &self.annotation {
            Some(session) => Some(session.status()),
            None => None,
        }
    }

    /// The shapes to draw over the picture.
    pub fn markup_shapes(&self, include_draft: bool) -> (result: Vec<Shape>)
        ensures
            result@ == match self@.annotation {
                Some(sketch) => if include_draft && sketch.draft is Some {
                    sketch.shapes.push(sketch.draft->0)
                } else {
                    sketch.shapes
                },
                None => Seq::empty(),
            },
    {
        match &self.annotation {
            Some(session) => session.shapes(include_draft),
            None => Vec::new(),
        }
    }

    /// Whether the annotated picture can be copied.
    pub fn annotated_texture(&self) -> (result: Result<(), MarkupCopyError>)
        ensures
            result == (if self@.medium != Some(Medium::Texture) || self@.annotation is None {
                Err(MarkupCopyError::NoImage)
            } else if self@.annotation->0.shapes.len() == 0 {
                Err(MarkupCopyError::NoAnnotations)
            } else {
                Ok::<(), MarkupCopyError>(())
            }),
    {
        match self.medium {
            Some(Medium::Texture) => {},
            _ => return Err(MarkupCopyError::NoImage),
        }
        match &self.annotation {
            Some(session) => if session.status().shape_count == 0 {
                Err(MarkupCopyError::NoAnnotations)
            } else {
                Ok(())
            },
            None => Err(MarkupCopyError::NoImage),
        }
    }

    /// What a press of the pointer begins: panning where the picture overflows the
    /// window, and nothing while it is being marked up.
    pub fn drag_begin(&self, pannable: bool) -> (result: DragPlan)
        ensures
            result == (if self@.annotation is None && pannable {
                DragPlan::Pan
            } else {
                DragPlan::Denied
            }),
    {
        if self.annotation.is_none() && pannable {
            DragPlan::Pan
        } else {
            DragPlan::Denied
        }
    }

    /// What a scroll action does here: nothing navigates while marking up.
    pub fn scroll(&self, action: ScrollAction) -> (result: ScrollAction)
        ensures
            result == (if action is Navigate && self@.annotation is Some {
                ScrollAction::Ignore
            } else {
                action
            }),
    {
        match action {
            ScrollAction::Navigate(way) => if self.annotation.is_some() {
                ScrollAction::Ignore
            } else {
                ScrollAction::Navigate(way)
            },
            _ => action,
        }
    }
}

impl Default for State {
    fn default() -> (result: Self)
        ensures
            result@ == (Display {
                medium: None,
                mode: Mode::Fit,
                fit_policy: FitPolicy::DownscaleOnly,
                rotation: 0,
                default_fit_actual: false,
                annotation: None,
            }),
    {
        State::new()
    }
}

/// A wheel detent acts at once: sideways it goes to the next file on the right and the one
/// before on the left, and otherwise it zooms by its own travel.
pub proof fn wheel_detents_act_at_once(dx: i64, dy: i64)
    ensures
        dy == 0 && dx > 0 ==> ScrollGesture::wheel_action(dx, dy) == ScrollAction::Navigate(1),
        dy == 0 && dx < 0 ==> ScrollGesture::wheel_action(dx, dy) == ScrollAction::Navigate(
            (-1) as i32,
        ),
        dx == 0 && dy != 0 ==> ScrollGesture::wheel_action(dx, dy) == ScrollAction::Zoom(dy),
        dx == 0 && dy == 0 ==> ScrollGesture::wheel_action(dx, dy) == ScrollAction::Ignore,
        dx == dy && dy != 0 ==> ScrollGesture::wheel_action(dx, dy) == ScrollAction::Zoom(dy),
        0 <= dy < dx ==> ScrollGesture::wheel_action(dx, dy) == ScrollAction::Navigate(1),
        0 <= dx < dy ==> ScrollGesture::wheel_action(dx, dy) == ScrollAction::Zoom(dy),
        dx < dy && dy <= 0 ==> ScrollGesture::wheel_action(dx, dy) == ScrollAction::Navigate(
            (-1) as i32,
        ),
        dy < dx && dx <= 0 ==> ScrollGesture::wheel_action(dx, dy) == ScrollAction::Zoom(dy),
{
}

/// A touchpad gesture does nothing for its first fifth of a detent, and then commits to the
/// axis along which it went further.
pub proof fn gestures_commit_to_one_axis(dx: i64, dy: i64)
    ensures
        ({
            let moved = ScrollGesture::fresh().moved(dx, dy);
            &&& -200_000 < dx < 200_000 && -200_000 < dy < 200_000 ==> moved.axis is None
                && moved.action() == ScrollAction::Ignore && moved.dx == dx && moved.dy == dy
            &&& dx >= 200_000 && -dx < dy < dx ==> moved.axis == Some(Axis::Horizontal)
            &&& dx <= -200_000 && dx < dy < -dx ==> moved.axis == Some(Axis::Horizontal)
            &&& dy >= 200_000 && -dy <= dx <= dy ==> moved.axis == Some(Axis::Vertical)
            &&& dy <= -200_000 && dy <= dx <= -dy ==> moved.axis == Some(Axis::Vertical)
        }),
{
}

/// A swipe of two detents goes on by one file, to the right or back to the left, and a
/// shorter one waits; a zoom uses up all its travel.
pub proof fn swipes_go_on_by_one(gesture: ScrollGesture)
    ensures
        gesture.axis == Some(Axis::Horizontal) && gesture.dx >= 2_000_000 ==> gesture.action()
            == ScrollAction::Navigate(1) && gesture.spent().dx == gesture.dx - 2_000_000,
        gesture.axis == Some(Axis::Horizontal) && gesture.dx <= -2_000_000 ==> gesture.action()
            == ScrollAction::Navigate((-1) as i32) && gesture.spent().dx == gesture.dx + 2_000_000,
        gesture.axis == Some(Axis::Horizontal) && -2_000_000 < gesture.dx < 2_000_000
            ==> gesture.action() == ScrollAction::Ignore && gesture.spent() == gesture,
        gesture.axis == Some(Axis::Vertical) && gesture.dy != 0 ==> gesture.action()
            == ScrollAction::Zoom(gesture.dy) && gesture.spent().dy == 0 && gesture.spent().dx
            == gesture.dx,
        gesture.axis == Some(Axis::Vertical) && gesture.dy == 0 ==> gesture.action()
            == ScrollAction::Ignore,
        gesture.axis is None ==> gesture.action() == ScrollAction::Ignore && gesture.spent()
            == gesture,
{
}

/// Travel adds up within a gesture, as far as it can be counted.
pub proof fn travel_adds_up(gesture: ScrollGesture, dx: i64, dy: i64)
    ensures
        i64::MIN <= gesture.dx + dx <= i64::MAX ==> gesture.moved(dx, dy).dx == gesture.dx + dx,
        i64::MIN <= gesture.dy + dy <= i64::MAX ==> gesture.moved(dx, dy).dy == gesture.dy + dy,
        gesture.dx + dx > i64::MAX ==> gesture.moved(dx, dy).dx == i64::MAX,
        gesture.dx + dx < i64::MIN ==> gesture.moved(dx, dy).dx == i64::MIN,
        gesture.dy + dy > i64::MAX ==> gesture.moved(dx, dy).dy == i64::MAX,
        gesture.dy + dy < i64::MIN ==> gesture.moved(dx, dy).dy == i64::MIN,
{
}

/// A new medium is shown upright, without markup and as the default has it: fitted to the
/// window, or at its actual size. It keeps the default.
pub proof fn media_are_shown_afresh(display: Display, medium: Medium, policy: FitPolicy)
    ensures
        ({
            let shown = display.shown(medium, policy);
            &&& shown.medium == Some(medium)
            &&& shown.fit_policy == policy
            &&& shown.rotation == 0
            &&& shown.annotation is None
            &&& shown.default_fit_actual == display.default_fit_actual
            &&& !display.default_fit_actual ==> shown.mode == Mode::Fit
            &&& display.default_fit_actual ==> (shown.mode matches Mode::Manual(zoom) && zoom.bits
                == 0x3ff0_0000_0000_0000)
        }),
{
}

/// A turn clockwise adds a quarter and one counterclockwise takes one off, going round at
/// a whole turn; nothing else changes.
pub proof fn turns_are_quarters(display: Display)
    requires
        display.wf(),
    ensures
        display.rotation < 3 ==> display.turned(1).rotation == display.rotation + 1,
        display.rotation == 3 ==> display.turned(1).rotation == 0,
        display.rotation > 0 ==> display.turned(-1).rotation == display.rotation - 1,
        display.rotation == 0 ==> display.turned(-1).rotation == 3,
        display.turned(1) == (Display { rotation: display.turned(1).rotation, ..display }),
        display.turned(-1) == (Display { rotation: display.turned(-1).rotation, ..display }),
{
}

/// A markup takes the place of the one before it and leaves the view as it is.
pub proof fn markups_leave_the_view(display: Display, sketch: Sketch)
    ensures
        display.with_sketch(sketch).annotation == Some(sketch),
        display.with_sketch(sketch) == (Display { annotation: Some(sketch), ..display }),
{
}

/// A medium is shown at first as the settings say: at its own size, or fitted.
pub proof fn settings_decide_the_first_zoom(display: Display)
    ensures
        !display.default_fit_actual ==> display.default_mode() == Mode::Fit,
        display.default_fit_actual ==> display.default_mode() == Mode::Manual(
            Real { bits: 0x3ff0_0000_0000_0000 },
        ),
{
}

/// What a markup that cannot be copied says.
pub proof fn copy_failures_are_told()
    ensures
        MarkupCopyError::NoImage.text() == "No image is available for Quick Markup"@,
        MarkupCopyError::NoAnnotations.text() == "Draw a box or arrow before copying"@,
        MarkupCopyError::RendererUnavailable.text() == "Cannot prepare the annotated image"@,
        MarkupCopyError::EmptyRender.text() == "The annotated image could not be rendered"@,
{
}

}
