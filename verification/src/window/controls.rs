//! Which controls are on screen, how they share the room, and how the pointer looks.
use vstd::prelude::*;

use crate::annotation::{Status, Tool};
use crate::loader::DecodedKind;
use crate::number::{Real, EIGHT};

verus! {

/// Seek bar width when the window has room for it.
pub const SEEK_BAR_MAX_WIDTH: i32 = 320;

/// Floor for narrow windows; below this the bar stops being aimable. The control bar
/// sheds other things before letting the seek bar reach it.
pub const SEEK_BAR_MIN_WIDTH: i32 = 96;

/// What is shown of the controls.
#[derive(Debug, Clone, Copy, PartialEq, Eq, Structural)]
pub struct ControlMode {
    pub normal: bool,
    pub photo: bool,
    /// The play and pause button, for whatever moves.
    pub play: bool,
    pub transport: bool,
    pub subtitles: bool,
    pub markup_button: bool,
    pub markup: bool,
    pub arrows: bool,
    pub bar: bool,
    /// How far the toast stays above the lower edge.
    pub toast_margin: i32,
    /// Which tool's button is pressed.
    pub tool: Option<Tool>,
}

/// Only controls relevant to the current medium occupy the bottom strip. Loading and
/// error states leave the image unobstructed, and Quick Markup replaces everything else.
pub fn control_mode(
    photo: bool,
    video: bool,
    animation: bool,
    markup_available: bool,
    status: Option<Status>,
) -> (result: ControlMode)
    ensures
        ({
            let marking = status is Some;
            result == ControlMode {
                normal: !marking,
                photo: photo && !marking,
                play: (video || animation) && !marking,
                transport: video && !marking,
                subtitles: video && !marking,
                markup_button: markup_available,
                markup: marking,
                arrows: !marking,
                bar: photo || video || marking,
                toast_margin: if marking {
                    100
                } else {
                    56
                },
                tool: match status {
                    Some(found) => Some(found.tool),
                    None => None,
                },
            }
        }),
{
    let (marking, tool) = match status {
        Some(found) => (true, Some(found.tool)),
        None => (false, None),
    };
    ControlMode {
        normal: !marking,
        photo: photo && !marking,
        play: (video || animation) && !marking,
        transport: video && !marking,
        subtitles: video && !marking,
        markup_button: markup_available,
        markup: marking,
        arrows: !marking,
        bar: photo || video || marking,
        toast_margin: if marking {
            100
        } else {
            56
        },
        tool,
    }
}

/// How the video controls share the window's width.
#[derive(Debug, Clone, Copy, PartialEq, Eq, Structural)]
pub struct Fit {
    pub time: bool,
    pub mute: bool,
    pub subtitles: bool,
    pub speed: bool,
    pub seek_bar: i32,
}

#[derive(Debug, Clone, Copy, PartialEq, Eq, Structural)]
pub enum FitStep {
    /// Measure what stands around the seek bar with so many controls shed, in the order
    /// time, mute, subtitles, speed.
    Measure(usize),
    Fitted(Fit),
}

/// The room left for the seek bar beside everything else.
pub open spec fn room(width: i32, others: i32) -> int {
    width - others
}

/// The width of the seek bar in the given room.
pub open spec fn seek_bar_width(room: int) -> int {
    if room < 0 {
        0
    } else if room > SEEK_BAR_MAX_WIDTH {
        SEEK_BAR_MAX_WIDTH as int
    } else {
        room
    }
}

/// The controls that remain when so many have been shed.
pub open spec fn remaining(shed: int, seek_bar: int) -> Fit {
    Fit {
        time: shed < 1,
        mute: shed < 2,
        subtitles: shed < 3,
        speed: shed < 4,
        seek_bar: seek_bar as i32,
    }
}

/// Keeps video controls inside the window. The seek bar gives up width first; on very
/// narrow windows the time, the mute button and the menus yield before play, Trash, or
/// the seek target. Takes what was measured so far, with ever more controls shed.
pub fn fit_seek_bar(width: i32, measured: &Vec<i32>) -> (result: FitStep)
    requires
        1 <= measured@.len() <= 5,
    ensures
        ({
            let shed = measured@.len() - 1;
            let left = room(width, measured@[shed]);
            result == if left < SEEK_BAR_MIN_WIDTH && shed < 4 {
                FitStep::Measure((shed + 1) as usize)
            } else {
                FitStep::Fitted(remaining(shed, seek_bar_width(left)))
            }
        }),
{
    let shed: usize = measured.len() - 1;
    let left: i64 = width as i64 - measured[shed] as i64;
    if left < SEEK_BAR_MIN_WIDTH as i64 && shed < 4 {
        return FitStep::Measure(shed + 1);
    }
    let seek_bar: i32 = if left < 0 {
        0
    } else if left > SEEK_BAR_MAX_WIDTH as i64 {
        SEEK_BAR_MAX_WIDTH
    } else {
        left as i32
    };
    FitStep::Fitted(
        Fit {
            time: shed < 1,
            mute: shed < 2,
            subtitles: shed < 3,
            speed: shed < 4,
            seek_bar,
        },
    )
}

/// As long as anything can still be shed, the seek bar keeps a width that can be aimed
/// at, and the bar never outgrows the window.
pub proof fn seek_bar_stays_aimable(width: i32, others: i32, shed: int)
    requires
        0 <= shed <= 4,
        room(width, others) >= SEEK_BAR_MIN_WIDTH,
    ensures
        SEEK_BAR_MIN_WIDTH <= remaining(shed, seek_bar_width(room(width, others))).seek_bar
            <= SEEK_BAR_MAX_WIDTH,
        others + remaining(shed, seek_bar_width(room(width, others))).seek_bar <= width,
{
}

/// What is on screen, as far as saving a rotation depends on it.
#[derive(Debug, Clone, PartialEq, Eq)]
pub enum Savable {
    Image { kind: DecodedKind, mime: String },
    Video,
    Nothing,
}

/// Why a rotation of what is on screen cannot be saved; nothing, where it can.
pub open spec fn obstacle(savable: Savable, editable: bool) -> Option<Seq<char>> {
    match savable {
        Savable::Image { kind, mime } => match kind {
            DecodedKind::Static => if editable {
                None
            } else {
                Some(mime@ + " images cannot be written back"@)
            },
            DecodedKind::Svg => Some("SVG rotation is view-only — the file is never rewritten"@),
            DecodedKind::Animated => Some("Animated images can only be rotated in the view"@),
        },
        Savable::Video => Some("Video cannot be rotated and saved"@),
        Savable::Nothing => Some("Nothing to save"@),
    }
}

/// Save appears only once an editable image has a pending rotation.
pub fn save_control_visible(can_save: bool, rotation: u8) -> (result: bool)
    ensures
        result == (can_save && rotation != 0),
{
    can_save && rotation != 0
}

/// Whether a rotation can be saved now, and what to say about it. Rotate-save is
/// offered only where it is safe and meaningful: still raster images in formats that
/// can be rewritten.
pub fn save_availability(
    savable: &Savable,
    editable: bool,
    saving: bool,
    marking: bool,
    rotation: u8,
) -> (result: (bool, String))
    ensures
        ({
            let enabled = !saving && !marking && rotation != 0 && obstacle(*savable, editable) is None;
            &&& result.0 == enabled
            &&& result.1@ == match obstacle(*savable, editable) {
                Some(why) => why,
                None => if saving {
                    "A rotation is already being saved"@
                } else if enabled {
                    "Save rotation to file"@
                } else {
                    "Rotate the image first"@
                },
            }
        }),
{
    let why = match savable {
        Savable::Image { kind, mime } => match kind {
            DecodedKind::Static => if editable {
                None
            } else {
                Some(mime.clone().concat(" images cannot be written back"))
            },
            DecodedKind::Svg => Some(
                "SVG rotation is view-only — the file is never rewritten".to_owned(),
            ),
            DecodedKind::Animated => Some(
                "Animated images can only be rotated in the view".to_owned(),
            ),
        },
        Savable::Video => Some("Video cannot be rotated and saved".to_owned()),
        Savable::Nothing => Some("Nothing to save".to_owned()),
    };
    let enabled = !saving && !marking && save_control_visible(why.is_none(), rotation);
    let text = match why {
        Some(text) => text,
        None => if saving {
            "A rotation is already being saved".to_owned()
        } else if enabled {
            "Save rotation to file".to_owned()
        } else {
            "Rotate the image first".to_owned()
        },
    };
    (enabled, text)
}

/// An edge or a corner of the window.
#[derive(Debug, Clone, Copy, PartialEq, Eq, Structural)]
pub enum Edge {
    NorthWest,
    North,
    NorthEast,
    West,
    East,
    SouthWest,
    South,
    SouthEast,
}

/// Which edge a point belongs to. Corners win over sides so that the diagonal grabs stay
/// reachable.
pub open spec fn edge_of(left: bool, right: bool, top: bool, bottom: bool) -> Option<Edge> {
    if left && top {
        Some(Edge::NorthWest)
    } else if right && top {
        Some(Edge::NorthEast)
    } else if left && bottom {
        Some(Edge::SouthWest)
    } else if right && bottom {
        Some(Edge::SouthEast)
    } else if left {
        Some(Edge::West)
    } else if right {
        Some(Edge::East)
    } else if top {
        Some(Edge::North)
    } else if bottom {
        Some(Edge::South)
    } else {
        None
    }
}

/// Which edge a point can grab: the resize border runs eight pixels along the edges, so
/// on the right and below it starts at the given coordinates.
pub fn resize_edge_at(x: Real, y: Real, right: Real, bottom: Real) -> (result: Option<Edge>)
    ensures
        result == edge_of(
            (Real { bits: EIGHT }).is_at_least(x),
            x.is_at_least(right),
            (Real { bits: EIGHT }).is_at_least(y),
            y.is_at_least(bottom),
        ),
{
    let margin = Real::new(EIGHT);
    let left = margin.at_least(x);
    let top = margin.at_least(y);
    let right = x.at_least(right);
    let bottom = y.at_least(bottom);
    match (left, right, top, bottom) {
        (true, _, true, _) => Some(Edge::NorthWest),
        (_, true, true, _) => Some(Edge::NorthEast),
        (true, _, _, true) => Some(Edge::SouthWest),
        (_, true, _, true) => Some(Edge::SouthEast),
        (true, _, _, _) => Some(Edge::West),
        (_, true, _, _) => Some(Edge::East),
        (_, _, true, _) => Some(Edge::North),
        (_, _, _, true) => Some(Edge::South),
        _ => None,
    }
}

pub open spec fn edge_cursor(edge: Edge) -> Seq<char> {
    match edge {
        Edge::NorthWest => "nw-resize"@,
        Edge::North => "n-resize"@,
        Edge::NorthEast => "ne-resize"@,
        Edge::West => "w-resize"@,
        Edge::East => "e-resize"@,
        Edge::SouthWest => "sw-resize"@,
        Edge::SouthEast => "se-resize"@,
        Edge::South => "s-resize"@,
    }
}

fn edge_cursor_name(edge: Edge) -> (result: &'static str)
    ensures
        result@ == edge_cursor(edge),
{
    match edge {
        Edge::NorthWest => "nw-resize",
        Edge::North => "n-resize",
        Edge::NorthEast => "ne-resize",
        Edge::West => "w-resize",
        Edge::East => "e-resize",
        Edge::SouthWest => "sw-resize",
        Edge::SouthEast => "se-resize",
        Edge::South => "s-resize",
    }
}

/// The cursor to show: the resize arrow wins wherever there is an edge to grab, then
/// Quick Markup uses a crosshair over the image, and otherwise the pointer goes away
/// with the controls.
pub open spec fn cursor(
    edge: Option<Edge>,
    marking_up: bool,
    chrome_visible: bool,
    hide_cursor: bool,
) -> Option<Seq<char>> {
    match edge {
        Some(found) => Some(edge_cursor(found)),
        None => if marking_up {
            Some("crosshair"@)
        } else if hide_cursor && !chrome_visible {
            Some("none"@)
        } else {
            None
        },
    }
}

pub fn cursor_name(
    edge: Option<Edge>,
    marking_up: bool,
    chrome_visible: bool,
    hide_cursor: bool,
) -> (result: Option<&'static str>)
    ensures
        match result {
            Some(name) => cursor(edge, marking_up, chrome_visible, hide_cursor) == Some(name@),
            None => cursor(edge, marking_up, chrome_visible, hide_cursor) is None,
        },
{
    match edge {
        Some(found) => Some(edge_cursor_name(found)),
        None => if marking_up {
            Some("crosshair")
        } else if hide_cursor && !chrome_visible {
            Some("none")
        } else {
            None
        },
    }
}

/// The cursor over a medium that extends beyond the window: a grabbing hand during a
/// pan, and an open hand wherever nothing else decides.
pub open spec fn pan_cursor(base: Option<Seq<char>>, pannable: bool, panning: bool) -> Option<
    Seq<char>,
> {
    if panning {
        Some("grabbing"@)
    } else if base is None && pannable {
        Some("grab"@)
    } else {
        base
    }
}

pub fn pan_cursor_name(base: Option<&'static str>, pannable: bool, panning: bool) -> (result: Option<
    &'static str,
>)
    ensures
        match (result, pan_cursor(
            match base {
                Some(name) => Some(name@),
                None => None,
            },
            pannable,
            panning,
        )) {
            (Some(name), Some(text)) => name@ == text,
            (None, None) => true,
            _ => false,
        },
{
    if panning {
        Some("grabbing")
    } else if base.is_none() && pannable {
        Some("grab")
    } else {
        base
    }
}

/// A frameless window could not be grabbed if the pointer vanished on its border: over
/// an edge it shows, whatever else is going on.
pub proof fn pointer_shows_over_an_edge(edge: Edge, marking_up: bool, chrome_visible: bool, hide_cursor: bool)
    ensures
        cursor(Some(edge), marking_up, chrome_visible, hide_cursor) == Some(edge_cursor(edge)),
        edge_cursor(edge) != "none"@,
{
    reveal_strlit("none");
    reveal_strlit("nw-resize");
    reveal_strlit("n-resize");
    reveal_strlit("ne-resize");
    reveal_strlit("w-resize");
    reveal_strlit("e-resize");
    reveal_strlit("sw-resize");
    reveal_strlit("se-resize");
    reveal_strlit("s-resize");
    assert("none"@.len() == 4);
}

/// The budget of the cache in bytes, given in mebibytes.
pub fn cache_budget_bytes(mebibytes: u32) -> (result: usize)
    ensures
        result == if mebibytes * 1048576 <= usize::MAX {
            mebibytes * 1048576
        } else {
            usize::MAX as int
        },
{
    let bytes: u64 = mebibytes as u64 * 1048576;
    if bytes <= usize::MAX as u64 {
        bytes as usize
    } else {
        usize::MAX
    }
}

/// Controls are shed in their order, the time first and the speed last, and come back
/// in the opposite order.
pub proof fn controls_are_shed_in_order(shed: int, seek_bar: int)
    requires
        0 <= shed <= 4,
        0 <= seek_bar <= SEEK_BAR_MAX_WIDTH,
    ensures
        remaining(0, seek_bar).time && remaining(0, seek_bar).mute && remaining(0, seek_bar).subtitles
            && remaining(0, seek_bar).speed,
        !remaining(1, seek_bar).time && remaining(1, seek_bar).mute,
        !remaining(2, seek_bar).mute && remaining(2, seek_bar).subtitles,
        !remaining(3, seek_bar).subtitles && remaining(3, seek_bar).speed,
        !remaining(4, seek_bar).speed && !remaining(4, seek_bar).subtitles && !remaining(
            4,
            seek_bar,
        ).mute && !remaining(4, seek_bar).time,
        remaining(shed, seek_bar).time ==> remaining(shed, seek_bar).mute,
        remaining(shed, seek_bar).mute ==> remaining(shed, seek_bar).subtitles,
        remaining(shed, seek_bar).subtitles ==> remaining(shed, seek_bar).speed,
        remaining(shed, seek_bar).seek_bar == seek_bar,
{
}

/// The seek bar takes the room that is left, up to its full width, and none where
/// there is none.
pub proof fn the_seek_bar_takes_what_is_left(width: i32, others: i32)
    ensures
        others >= width ==> seek_bar_width(room(width, others)) == 0,
        0 <= width - others <= 320 ==> seek_bar_width(room(width, others)) == width - others,
        width - others >= 320 ==> seek_bar_width(room(width, others)) == 320,
{
}

/// Of what is on screen only a still picture of a format that can be written back is
/// saved.
pub proof fn only_editable_stills_are_saved(savable: Savable, editable: bool)
    ensures
        obstacle(savable, editable) is None <==> savable is Image && savable->kind
            == DecodedKind::Static && editable,
        savable is Video ==> obstacle(savable, editable) == Some(
            "Video cannot be rotated and saved"@,
        ),
        savable is Nothing ==> obstacle(savable, editable) == Some("Nothing to save"@),
        savable is Image && savable->kind == DecodedKind::Svg ==> obstacle(savable, editable)
            == Some("SVG rotation is view-only — the file is never rewritten"@),
        savable is Image && savable->kind == DecodedKind::Animated ==> obstacle(savable, editable)
            == Some("Animated images can only be rotated in the view"@),
        savable is Image && savable->kind == DecodedKind::Static && !editable ==> obstacle(
            savable,
            editable,
        ) == Some(savable->mime@ + " images cannot be written back"@),
{
}

/// A point grabs the edges that it is near to, a corner where it is near to two; and
/// none where it is near to none.
pub proof fn points_grab_what_they_are_near_to(left: bool, right: bool, top: bool, bottom: bool)
    requires
        !(left && right),
        !(top && bottom),
    ensures
        edge_of(left, right, top, bottom) == Some(Edge::NorthWest) <==> left && top,
        edge_of(left, right, top, bottom) == Some(Edge::NorthEast) <==> right && top,
        edge_of(left, right, top, bottom) == Some(Edge::SouthWest) <==> left && bottom,
        edge_of(left, right, top, bottom) == Some(Edge::SouthEast) <==> right && bottom,
        edge_of(left, right, top, bottom) == Some(Edge::West) <==> left && !top && !bottom,
        edge_of(left, right, top, bottom) == Some(Edge::East) <==> right && !top && !bottom,
        edge_of(left, right, top, bottom) == Some(Edge::North) <==> top && !left && !right,
        edge_of(left, right, top, bottom) == Some(Edge::South) <==> bottom && !left && !right,
        edge_of(left, right, top, bottom) is None <==> !left && !right && !top && !bottom,
{
}

/// In a window too small to tell its sides apart the upper left wins.
pub proof fn the_upper_left_wins(left: bool, right: bool, top: bool, bottom: bool)
    ensures
        left && top ==> edge_of(left, right, top, bottom) == Some(Edge::NorthWest),
        !left && right && top ==> edge_of(left, right, top, bottom) == Some(Edge::NorthEast),
        left && right && !top && bottom ==> edge_of(left, right, top, bottom) == Some(
            Edge::SouthWest,
        ),
        left && right && !top && !bottom ==> edge_of(left, right, top, bottom) == Some(Edge::West),
        !left && !right && top && bottom ==> edge_of(left, right, top, bottom) == Some(Edge::North),
{
}

/// Each edge has the arrow that points its way.
pub proof fn arrows_point_to_their_edges()
    ensures
        edge_cursor(Edge::NorthWest) == "nw-resize"@,
        edge_cursor(Edge::North) == "n-resize"@,
        edge_cursor(Edge::NorthEast) == "ne-resize"@,
        edge_cursor(Edge::West) == "w-resize"@,
        edge_cursor(Edge::East) == "e-resize"@,
        edge_cursor(Edge::SouthWest) == "sw-resize"@,
        edge_cursor(Edge::South) == "s-resize"@,
        edge_cursor(Edge::SouthEast) == "se-resize"@,
{
}

/// Away from the edges the pointer is a crosshair while marking up; it is hidden only
/// where it is to be hidden and the controls are gone.
pub proof fn the_pointer_goes_with_the_controls(
    marking_up: bool,
    chrome_visible: bool,
    hide_cursor: bool,
)
    ensures
        marking_up ==> cursor(None, marking_up, chrome_visible, hide_cursor) == Some("crosshair"@),
        !marking_up && hide_cursor && !chrome_visible ==> cursor(
            None,
            marking_up,
            chrome_visible,
            hide_cursor,
        ) == Some("none"@),
        !marking_up && (chrome_visible || !hide_cursor) ==> cursor(
            None,
            marking_up,
            chrome_visible,
            hide_cursor,
        ) is None,
{
}

/// A pan closes the hand, whatever the pointer was; what can be panned opens it where
/// nothing else decides.
pub proof fn hands_show_what_can_be_panned(base: Option<Seq<char>>, pannable: bool)
    ensures
        pan_cursor(base, pannable, true) == Some("grabbing"@),
        base is None && pannable ==> pan_cursor(base, pannable, false) == Some("grab"@),
        base is Some ==> pan_cursor(base, pannable, false) == base,
        !pannable ==> pan_cursor(base, pannable, false) == base,
{
}

}
