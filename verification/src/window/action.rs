//! Typed workspace command vocabulary and context policy.
//!
//! Actions, accelerators, buttons and menus are adapters. They name an
//! [`Action`]; this module decides whether it is currently available and resolves
//! contextual actions to one concrete [`Command`] without touching widgets.
use vstd::prelude::*;

use crate::player::rates;
use crate::player::tracks::{AudioChoice, SubtitleChoice};
use crate::text::same_text;

verus! {

#[derive(Debug, Clone, Copy, PartialEq, Eq, PartialOrd, Ord, Structural)]
pub enum Action {
    OpenFile,
    OpenFolder,
    Right,
    Left,
    Up,
    Down,
    Next,
    Previous,
    First,
    Last,
    PlayPause,
    SeekBack,
    SeekForward,
    SpeedDown,
    SpeedUp,
    SpeedReset,
    Mute,
    SubtitleOpen,
    SubtitleToggle,
    SubtitleCycle,
    VolumeUp,
    VolumeDown,
    ZoomIn,
    ZoomOut,
    ZoomFit,
    ZoomActual,
    ZoomToggle,
    RotateClockwise,
    RotateCounterclockwise,
    Markup,
    MarkupBox,
    MarkupArrow,
    MarkupCopy,
    MarkupClear,
    Save,
    Trash,
    Undo,
    Fullscreen,
    Help,
    Close,
    Escape,
    SubtitleSelect,
    AudioSelect,
    SpeedSet,
}

#[derive(Debug, Clone, Copy, PartialEq, Eq, Structural)]
pub enum Media {
    Empty,
    Loading,
    Image { markup_available: bool },
    /// A moving image, which can be paused like a video.
    Animation,
    Video,
    Error,
}

/// What actions depend on.
#[derive(Debug, Clone, Copy, PartialEq, Eq, Structural)]
pub struct WorkspaceState {
    pub media: Media,
    pub has_navigation: bool,
    pub pannable: bool,
    pub marking: bool,
    pub markup_draft: bool,
    pub markup_shapes: bool,
    pub markup_can_copy: bool,
    pub markup_can_undo: bool,
    pub can_save: bool,
    pub can_undo_trash: bool,
    pub help_visible: bool,
    pub fullscreen: bool,
}

/// What is to be done. Rates are hundredths.
#[derive(Debug, Clone, PartialEq, Eq)]
pub enum Command {
    OpenFile,
    OpenFolder,
    Pan(i32, i32),
    Next,
    Previous,
    First,
    Last,
    TogglePlayback,
    Seek(i8),
    StepSpeed(i8),
    ResetSpeed,
    ToggleMute,
    OpenSubtitle,
    ToggleSubtitles,
    CycleSubtitles,
    SelectSubtitle(SubtitleChoice),
    SelectAudio(AudioChoice),
    SetSpeed(u32),
    ChangeVolume(i8),
    ZoomIn,
    ZoomOut,
    ZoomFit,
    ZoomActual,
    ZoomToggle,
    Rotate(i8),
    ToggleMarkup,
    MarkupBox,
    MarkupArrow,
    CopyMarkup,
    ClearMarkup,
    Save,
    Trash,
    MarkupUndo,
    TrashUndo,
    ToggleFullscreen,
    ToggleHelp,
    CancelMarkupDraft,
    CancelMarkup,
    HideHelp,
    LeaveFullscreen,
    Close,
}

/// The name of an action.
pub open spec fn action_name(action: Action) -> Seq<char> {
    match action {
        Action::OpenFile => "open-file"@,
        Action::OpenFolder => "open-folder"@,
        Action::Right => "right"@,
        Action::Left => "left"@,
        Action::Up => "up"@,
        Action::Down => "down"@,
        Action::Next => "next"@,
        Action::Previous => "prev"@,
        Action::First => "first"@,
        Action::Last => "last"@,
        Action::PlayPause => "play-pause"@,
        Action::SeekBack => "seek-back"@,
        Action::SeekForward => "seek-forward"@,
        Action::SpeedDown => "speed-down"@,
        Action::SpeedUp => "speed-up"@,
        Action::SpeedReset => "speed-reset"@,
        Action::Mute => "mute"@,
        Action::SubtitleOpen => "subtitle-open"@,
        Action::SubtitleToggle => "subtitle-toggle"@,
        Action::SubtitleCycle => "subtitle-cycle"@,
        Action::VolumeUp => "volume-up"@,
        Action::VolumeDown => "volume-down"@,
        Action::ZoomIn => "zoom-in"@,
        Action::ZoomOut => "zoom-out"@,
        Action::ZoomFit => "zoom-fit"@,
        Action::ZoomActual => "zoom-actual"@,
        Action::ZoomToggle => "zoom-toggle"@,
        Action::RotateClockwise => "rotate-cw"@,
        Action::RotateCounterclockwise => "rotate-ccw"@,
        Action::Markup => "markup"@,
        Action::MarkupBox => "markup-box"@,
        Action::MarkupArrow => "markup-arrow"@,
        Action::MarkupCopy => "markup-copy"@,
        Action::MarkupClear => "markup-clear"@,
        Action::Save => "save"@,
        Action::Trash => "trash"@,
        Action::Undo => "undo"@,
        Action::Fullscreen => "fullscreen"@,
        Action::Help => "help"@,
        Action::Close => "close"@,
        Action::Escape => "escape"@,
        Action::SubtitleSelect => "subtitle"@,
        Action::AudioSelect => "audio"@,
        Action::SpeedSet => "speed"@,
    }
}

/// The actions that keys can be bound to, in the order of the help, with what the
/// help says of them.
pub open spec fn configurable_list() -> Seq<(Action, Seq<char>)> {
    seq![
        (Action::OpenFile, "Open a file"@),
        (Action::OpenFolder, "Open a folder"@),
        (Action::Right, "Next image, or pan when zoomed in"@),
        (Action::Left, "Previous image, or pan when zoomed in"@),
        (Action::Up, "Volume up, or pan when zoomed in"@),
        (Action::Down, "Volume down, or pan when zoomed in"@),
        (Action::Next, "Next image"@),
        (Action::Previous, "Previous image"@),
        (Action::First, "First image"@),
        (Action::Last, "Last image"@),
        (Action::PlayPause, "Pause video or animation, or next image"@),
        (Action::SeekBack, "Seek back 10 seconds"@),
        (Action::SeekForward, "Seek forward 10 seconds"@),
        (Action::SpeedDown, "Slower video playback"@),
        (Action::SpeedUp, "Faster video playback"@),
        (Action::SpeedReset, "Reset video speed to 1x"@),
        (Action::Mute, "Mute audio"@),
        (Action::SubtitleOpen, "Add an external subtitle"@),
        (Action::SubtitleToggle, "Show or hide subtitles"@),
        (Action::SubtitleCycle, "Next subtitle track"@),
        (Action::VolumeUp, "Volume up"@),
        (Action::VolumeDown, "Volume down"@),
        (Action::ZoomIn, "Zoom in"@),
        (Action::ZoomOut, "Zoom out"@),
        (Action::ZoomFit, "Fit to window"@),
        (Action::ZoomActual, "Actual size, 100%"@),
        (Action::ZoomToggle, "Toggle fit and 100%"@),
        (Action::RotateClockwise, "Rotate right"@),
        (Action::RotateCounterclockwise, "Rotate left"@),
        (Action::Markup, "Start or cancel Quick Markup"@),
        (Action::MarkupBox, "Quick Markup box tool"@),
        (Action::MarkupArrow, "Quick Markup arrow tool"@),
        (Action::MarkupCopy, "Copy the annotated image"@),
        (Action::MarkupClear, "Clear all annotations"@),
        (Action::Save, "Save rotation to the file"@),
        (Action::Trash, "Move to trash"@),
        (Action::Undo, "Undo delete or last annotation"@),
        (Action::Fullscreen, "Fullscreen"@),
        (Action::Help, "This list"@),
        (Action::Close, "Quit"@),
        (Action::Escape, ""@),
    ]
}

/// The keys that are bound where the configuration says nothing.
pub open spec fn default_bind_list() -> Seq<(Seq<char>, Action)> {
    seq![
        ("<Control>o"@, Action::OpenFile),
        ("<Control><Shift>o"@, Action::OpenFolder),
        ("Right"@, Action::Right),
        ("Left"@, Action::Left),
        ("Up"@, Action::Up),
        ("Down"@, Action::Down),
        ("space"@, Action::PlayPause),
        ("Page_Down"@, Action::Next),
        ("BackSpace"@, Action::Previous),
        ("Page_Up"@, Action::Previous),
        ("Home"@, Action::First),
        ("End"@, Action::Last),
        ("plus"@, Action::ZoomIn),
        ("equal"@, Action::ZoomIn),
        ("KP_Add"@, Action::ZoomIn),
        ("minus"@, Action::ZoomOut),
        ("KP_Subtract"@, Action::ZoomOut),
        ("0"@, Action::ZoomFit),
        ("1"@, Action::ZoomActual),
        ("z"@, Action::ZoomToggle),
        ("r"@, Action::RotateClockwise),
        ("<Shift>r"@, Action::RotateCounterclockwise),
        ("a"@, Action::Markup),
        ("b"@, Action::MarkupBox),
        ("<Shift>a"@, Action::MarkupArrow),
        ("<Control>c"@, Action::MarkupCopy),
        ("c"@, Action::MarkupClear),
        ("s"@, Action::Save),
        ("j"@, Action::SeekBack),
        ("l"@, Action::SeekForward),
        ("<Shift>Left"@, Action::SeekBack),
        ("<Shift>Right"@, Action::SeekForward),
        ("bracketleft"@, Action::SpeedDown),
        ("bracketright"@, Action::SpeedUp),
        ("backslash"@, Action::SpeedReset),
        ("m"@, Action::Mute),
        ("v"@, Action::SubtitleToggle),
        ("<Shift>v"@, Action::SubtitleCycle),
        ("Delete"@, Action::Trash),
        ("KP_Delete"@, Action::Trash),
        ("<Control>z"@, Action::Undo),
        ("f"@, Action::Fullscreen),
        ("F11"@, Action::Fullscreen),
        ("q"@, Action::Close),
        ("question"@, Action::Help),
        ("Escape"@, Action::Escape),
    ]
}

/// Menu actions that take a parameter.
pub open spec fn is_parameterized(action: Action) -> bool {
    action == Action::SubtitleSelect || action == Action::AudioSelect || action == Action::SpeedSet
}

/// All actions: those that keys can be bound to, then those with a parameter.
pub open spec fn all_actions() -> Seq<Action> {
    seq![
        Action::OpenFile,
        Action::OpenFolder,
        Action::Right,
        Action::Left,
        Action::Up,
        Action::Down,
        Action::Next,
        Action::Previous,
        Action::First,
        Action::Last,
        Action::PlayPause,
        Action::SeekBack,
        Action::SeekForward,
        Action::SpeedDown,
        Action::SpeedUp,
        Action::SpeedReset,
        Action::Mute,
        Action::SubtitleOpen,
        Action::SubtitleToggle,
        Action::SubtitleCycle,
        Action::VolumeUp,
        Action::VolumeDown,
        Action::ZoomIn,
        Action::ZoomOut,
        Action::ZoomFit,
        Action::ZoomActual,
        Action::ZoomToggle,
        Action::RotateClockwise,
        Action::RotateCounterclockwise,
        Action::Markup,
        Action::MarkupBox,
        Action::MarkupArrow,
        Action::MarkupCopy,
        Action::MarkupClear,
        Action::Save,
        Action::Trash,
        Action::Undo,
        Action::Fullscreen,
        Action::Help,
        Action::Close,
        Action::Escape,
        Action::SubtitleSelect,
        Action::AudioSelect,
        Action::SpeedSet,
    ]
}

/// The place of an action among all of them.
pub open spec fn rank(action: Action) -> int {
    match action {
        Action::OpenFile => 0,
        Action::OpenFolder => 1,
        Action::Right => 2,
        Action::Left => 3,
        Action::Up => 4,
        Action::Down => 5,
        Action::Next => 6,
        Action::Previous => 7,
        Action::First => 8,
        Action::Last => 9,
        Action::PlayPause => 10,
        Action::SeekBack => 11,
        Action::SeekForward => 12,
        Action::SpeedDown => 13,
        Action::SpeedUp => 14,
        Action::SpeedReset => 15,
        Action::Mute => 16,
        Action::SubtitleOpen => 17,
        Action::SubtitleToggle => 18,
        Action::SubtitleCycle => 19,
        Action::VolumeUp => 20,
        Action::VolumeDown => 21,
        Action::ZoomIn => 22,
        Action::ZoomOut => 23,
        Action::ZoomFit => 24,
        Action::ZoomActual => 25,
        Action::ZoomToggle => 26,
        Action::RotateClockwise => 27,
        Action::RotateCounterclockwise => 28,
        Action::Markup => 29,
        Action::MarkupBox => 30,
        Action::MarkupArrow => 31,
        Action::MarkupCopy => 32,
        Action::MarkupClear => 33,
        Action::Save => 34,
        Action::Trash => 35,
        Action::Undo => 36,
        Action::Fullscreen => 37,
        Action::Help => 38,
        Action::Close => 39,
        Action::Escape => 40,
        Action::SubtitleSelect => 41,
        Action::AudioSelect => 42,
        Action::SpeedSet => 43,
    }
}

/// Length, first and last two characters of a text, which tell the names apart.
spec fn mark(text: Seq<char>) -> (int, char, char, char) {
    (text.len() as int, text[0], text[text.len() - 2], text[text.len() - 1])
}

/// The mark of an action's name.
spec fn mark_of(action: Action) -> (int, char, char, char) {
    match action {
        Action::OpenFile => (9, 'o', 'l', 'e'),
        Action::OpenFolder => (11, 'o', 'e', 'r'),
        Action::Right => (5, 'r', 'h', 't'),
        Action::Left => (4, 'l', 'f', 't'),
        Action::Up => (2, 'u', 'u', 'p'),
        Action::Down => (4, 'd', 'w', 'n'),
        Action::Next => (4, 'n', 'x', 't'),
        Action::Previous => (4, 'p', 'e', 'v'),
        Action::First => (5, 'f', 's', 't'),
        Action::Last => (4, 'l', 's', 't'),
        Action::PlayPause => (10, 'p', 's', 'e'),
        Action::SeekBack => (9, 's', 'c', 'k'),
        Action::SeekForward => (12, 's', 'r', 'd'),
        Action::SpeedDown => (10, 's', 'w', 'n'),
        Action::SpeedUp => (8, 's', 'u', 'p'),
        Action::SpeedReset => (11, 's', 'e', 't'),
        Action::Mute => (4, 'm', 't', 'e'),
        Action::SubtitleOpen => (13, 's', 'e', 'n'),
        Action::SubtitleToggle => (15, 's', 'l', 'e'),
        Action::SubtitleCycle => (14, 's', 'l', 'e'),
        Action::VolumeUp => (9, 'v', 'u', 'p'),
        Action::VolumeDown => (11, 'v', 'w', 'n'),
        Action::ZoomIn => (7, 'z', 'i', 'n'),
        Action::ZoomOut => (8, 'z', 'u', 't'),
        Action::ZoomFit => (8, 'z', 'i', 't'),
        Action::ZoomActual => (11, 'z', 'a', 'l'),
        Action::ZoomToggle => (11, 'z', 'l', 'e'),
        Action::RotateClockwise => (9, 'r', 'c', 'w'),
        Action::RotateCounterclockwise => (10, 'r', 'c', 'w'),
        Action::Markup => (6, 'm', 'u', 'p'),
        Action::MarkupBox => (10, 'm', 'o', 'x'),
        Action::MarkupArrow => (12, 'm', 'o', 'w'),
        Action::MarkupCopy => (11, 'm', 'p', 'y'),
        Action::MarkupClear => (12, 'm', 'a', 'r'),
        Action::Save => (4, 's', 'v', 'e'),
        Action::Trash => (5, 't', 's', 'h'),
        Action::Undo => (4, 'u', 'd', 'o'),
        Action::Fullscreen => (10, 'f', 'e', 'n'),
        Action::Help => (4, 'h', 'l', 'p'),
        Action::Close => (5, 'c', 's', 'e'),
        Action::Escape => (6, 'e', 'p', 'e'),
        Action::SubtitleSelect => (8, 's', 'l', 'e'),
        Action::AudioSelect => (5, 'a', 'i', 'o'),
        Action::SpeedSet => (5, 's', 'e', 'd'),
    }
}

proof fn name_is_marked(action: Action)
    ensures
        mark(action_name(action)) == mark_of(action),
{
    match action {
        Action::OpenFile => {
            reveal_strlit("open-file");
        },
        Action::OpenFolder => {
            reveal_strlit("open-folder");
        },
        Action::Right => {
            reveal_strlit("right");
        },
        Action::Left => {
            reveal_strlit("left");
        },
        Action::Up => {
            reveal_strlit("up");
        },
        Action::Down => {
            reveal_strlit("down");
        },
        Action::Next => {
            reveal_strlit("next");
        },
        Action::Previous => {
            reveal_strlit("prev");
        },
        Action::First => {
            reveal_strlit("first");
        },
        Action::Last => {
            reveal_strlit("last");
        },
        Action::PlayPause => {
            reveal_strlit("play-pause");
        },
        Action::SeekBack => {
            reveal_strlit("seek-back");
        },
        Action::SeekForward => {
            reveal_strlit("seek-forward");
        },
        Action::SpeedDown => {
            reveal_strlit("speed-down");
        },
        Action::SpeedUp => {
            reveal_strlit("speed-up");
        },
        Action::SpeedReset => {
            reveal_strlit("speed-reset");
        },
        Action::Mute => {
            reveal_strlit("mute");
        },
        Action::SubtitleOpen => {
            reveal_strlit("subtitle-open");
        },
        Action::SubtitleToggle => {
            reveal_strlit("subtitle-toggle");
        },
        Action::SubtitleCycle => {
            reveal_strlit("subtitle-cycle");
        },
        Action::VolumeUp => {
            reveal_strlit("volume-up");
        },
        Action::VolumeDown => {
            reveal_strlit("volume-down");
        },
        Action::ZoomIn => {
            reveal_strlit("zoom-in");
        },
        Action::ZoomOut => {
            reveal_strlit("zoom-out");
        },
        Action::ZoomFit => {
            reveal_strlit("zoom-fit");
        },
        Action::ZoomActual => {
            reveal_strlit("zoom-actual");
        },
        Action::ZoomToggle => {
            reveal_strlit("zoom-toggle");
        },
        Action::RotateClockwise => {
            reveal_strlit("rotate-cw");
        },
        Action::RotateCounterclockwise => {
            reveal_strlit("rotate-ccw");
        },
        Action::Markup => {
            reveal_strlit("markup");
        },
        Action::MarkupBox => {
            reveal_strlit("markup-box");
        },
        Action::MarkupArrow => {
            reveal_strlit("markup-arrow");
        },
        Action::MarkupCopy => {
            reveal_strlit("markup-copy");
        },
        Action::MarkupClear => {
            reveal_strlit("markup-clear");
        },
        Action::Save => {
            reveal_strlit("save");
        },
        Action::Trash => {
            reveal_strlit("trash");
        },
        Action::Undo => {
            reveal_strlit("undo");
        },
        Action::Fullscreen => {
            reveal_strlit("fullscreen");
        },
        Action::Help => {
            reveal_strlit("help");
        },
        Action::Close => {
            reveal_strlit("close");
        },
        Action::Escape => {
            reveal_strlit("escape");
        },
        Action::SubtitleSelect => {
            reveal_strlit("subtitle");
        },
        Action::AudioSelect => {
            reveal_strlit("audio");
        },
        Action::SpeedSet => {
            reveal_strlit("speed");
        },
    }
}

/// No two actions share a name.
pub proof fn names_are_unique(left: Action, right: Action)
    requires
        action_name(left) == action_name(right),
    ensures
        left == right,
{
    name_is_marked(left);
    name_is_marked(right);
    assert(mark_of(left) == mark_of(right));
}

proof fn listed_at_rank(action: Action)
    ensures
        0 <= rank(action) < all_actions().len(),
        all_actions()[rank(action)] == action,
        !is_parameterized(action) ==> rank(action) < configurable_list().len()
            && configurable_list()[rank(action)].0 == action,
        is_parameterized(action) ==> rank(action) >= configurable_list().len(),
{
}

/// Every action is registered, exactly once.
pub proof fn every_action_is_registered(action: Action)
    ensures
        all_actions().contains(action),
        forall|i: int|
            0 <= i < all_actions().len() && #[trigger] all_actions()[i] == action ==> i == rank(
                action,
            ),
{
    listed_at_rank(action);
    let list = all_actions();
    assert(list[rank(action)] == action);
    assert forall|i: int| 0 <= i < list.len() && #[trigger] list[i] == action implies i == rank(
        action,
    ) by {
        ranks_in_order(i);
    }
}

proof fn ranks_in_order(at: int)
    requires
        0 <= at < all_actions().len(),
    ensures
        rank(all_actions()[at]) == at,
{
}

/// Whether an action is one that a name in the configuration can mean.
pub open spec fn is_configurable(action: Action) -> bool {
    !is_parameterized(action)
}

/// The action that a name in the configuration means.
pub open spec fn action_named(name: Seq<char>) -> Option<Action> {
    if exists|action: Action| is_configurable(action) && #[trigger] action_name(action) == name {
        Some(choose|action: Action| is_configurable(action) && #[trigger] action_name(action) == name)
    } else {
        None
    }
}

/// Exactly the configurable actions are in the help list.
proof fn configurable_is_listed(at: int)
    requires
        0 <= at < configurable_list().len(),
    ensures
        is_configurable(configurable_list()[at].0),
        rank(configurable_list()[at].0) == at,
{
}

impl Action {
    pub fn name(self) -> (result: &'static str)
        ensures
            result@ == action_name(self),
    {
        match self {
            Action::OpenFile => "open-file",
            Action::OpenFolder => "open-folder",
            Action::Right => "right",
            Action::Left => "left",
            Action::Up => "up",
            Action::Down => "down",
            Action::Next => "next",
            Action::Previous => "prev",
            Action::First => "first",
            Action::Last => "last",
            Action::PlayPause => "play-pause",
            Action::SeekBack => "seek-back",
            Action::SeekForward => "seek-forward",
            Action::SpeedDown => "speed-down",
            Action::SpeedUp => "speed-up",
            Action::SpeedReset => "speed-reset",
            Action::Mute => "mute",
            Action::SubtitleOpen => "subtitle-open",
            Action::SubtitleToggle => "subtitle-toggle",
            Action::SubtitleCycle => "subtitle-cycle",
            Action::VolumeUp => "volume-up",
            Action::VolumeDown => "volume-down",
            Action::ZoomIn => "zoom-in",
            Action::ZoomOut => "zoom-out",
            Action::ZoomFit => "zoom-fit",
            Action::ZoomActual => "zoom-actual",
            Action::ZoomToggle => "zoom-toggle",
            Action::RotateClockwise => "rotate-cw",
            Action::RotateCounterclockwise => "rotate-ccw",
            Action::Markup => "markup",
            Action::MarkupBox => "markup-box",
            Action::MarkupArrow => "markup-arrow",
            Action::MarkupCopy => "markup-copy",
            Action::MarkupClear => "markup-clear",
            Action::Save => "save",
            Action::Trash => "trash",
            Action::Undo => "undo",
            Action::Fullscreen => "fullscreen",
            Action::Help => "help",
            Action::Close => "close",
            Action::Escape => "escape",
            Action::SubtitleSelect => "subtitle",
            Action::AudioSelect => "audio",
            Action::SpeedSet => "speed",
        }
    }

    /// The name under which the window registers the action.
    pub fn detailed_name(self) -> (result: String)
        ensures
            result@ == "win."@ + action_name(self),
    {
        let mut result = "win.".to_owned();
        result.append(self.name());
        result
    }

    /// The actions that keys can be bound to, with what the help says of them.
    pub fn configurable() -> (result: Vec<(Action, &'static str)>)
        ensures
            result@.len() == configurable_list().len(),
            forall|i: int|
                0 <= i < result@.len() ==> (#[trigger] result@[i]).0 == configurable_list()[i].0
                    && result@[i].1@ == configurable_list()[i].1,
    {
        vec![
            (Action::OpenFile, "Open a file"),
            (Action::OpenFolder, "Open a folder"),
            (Action::Right, "Next image, or pan when zoomed in"),
            (Action::Left, "Previous image, or pan when zoomed in"),
            (Action::Up, "Volume up, or pan when zoomed in"),
            (Action::Down, "Volume down, or pan when zoomed in"),
            (Action::Next, "Next image"),
            (Action::Previous, "Previous image"),
            (Action::First, "First image"),
            (Action::Last, "Last image"),
            (Action::PlayPause, "Pause video or animation, or next image"),
            (Action::SeekBack, "Seek back 10 seconds"),
            (Action::SeekForward, "Seek forward 10 seconds"),
            (Action::SpeedDown, "Slower video playback"),
            (Action::SpeedUp, "Faster video playback"),
            (Action::SpeedReset, "Reset video speed to 1x"),
            (Action::Mute, "Mute audio"),
            (Action::SubtitleOpen, "Add an external subtitle"),
            (Action::SubtitleToggle, "Show or hide subtitles"),
            (Action::SubtitleCycle, "Next subtitle track"),
            (Action::VolumeUp, "Volume up"),
            (Action::VolumeDown, "Volume down"),
            (Action::ZoomIn, "Zoom in"),
            (Action::ZoomOut, "Zoom out"),
            (Action::ZoomFit, "Fit to window"),
            (Action::ZoomActual, "Actual size, 100%"),
            (Action::ZoomToggle, "Toggle fit and 100%"),
            (Action::RotateClockwise, "Rotate right"),
            (Action::RotateCounterclockwise, "Rotate left"),
            (Action::Markup, "Start or cancel Quick Markup"),
            (Action::MarkupBox, "Quick Markup box tool"),
            (Action::MarkupArrow, "Quick Markup arrow tool"),
            (Action::MarkupCopy, "Copy the annotated image"),
            (Action::MarkupClear, "Clear all annotations"),
            (Action::Save, "Save rotation to the file"),
            (Action::Trash, "Move to trash"),
            (Action::Undo, "Undo delete or last annotation"),
            (Action::Fullscreen, "Fullscreen"),
            (Action::Help, "This list"),
            (Action::Close, "Quit"),
            (Action::Escape, ""),
        ]
    }

    /// The keys that are bound where the configuration says nothing.
    pub fn default_binds() -> (result: Vec<(&'static str, Action)>)
        ensures
            result@.len() == default_bind_list().len(),
            forall|i: int|
                0 <= i < result@.len() ==> (#[trigger] result@[i]).0@ == default_bind_list()[i].0
                    && result@[i].1 == default_bind_list()[i].1,
    {
        vec![
            ("<Control>o", Action::OpenFile),
            ("<Control><Shift>o", Action::OpenFolder),
            ("Right", Action::Right),
            ("Left", Action::Left),
            ("Up", Action::Up),
            ("Down", Action::Down),
            ("space", Action::PlayPause),
            ("Page_Down", Action::Next),
            ("BackSpace", Action::Previous),
            ("Page_Up", Action::Previous),
            ("Home", Action::First),
            ("End", Action::Last),
            ("plus", Action::ZoomIn),
            ("equal", Action::ZoomIn),
            ("KP_Add", Action::ZoomIn),
            ("minus", Action::ZoomOut),
            ("KP_Subtract", Action::ZoomOut),
            ("0", Action::ZoomFit),
            ("1", Action::ZoomActual),
            ("z", Action::ZoomToggle),
            ("r", Action::RotateClockwise),
            ("<Shift>r", Action::RotateCounterclockwise),
            ("a", Action::Markup),
            ("b", Action::MarkupBox),
            ("<Shift>a", Action::MarkupArrow),
            ("<Control>c", Action::MarkupCopy),
            ("c", Action::MarkupClear),
            ("s", Action::Save),
            ("j", Action::SeekBack),
            ("l", Action::SeekForward),
            ("<Shift>Left", Action::SeekBack),
            ("<Shift>Right", Action::SeekForward),
            ("bracketleft", Action::SpeedDown),
            ("bracketright", Action::SpeedUp),
            ("backslash", Action::SpeedReset),
            ("m", Action::Mute),
            ("v", Action::SubtitleToggle),
            ("<Shift>v", Action::SubtitleCycle),
            ("Delete", Action::Trash),
            ("KP_Delete", Action::Trash),
            ("<Control>z", Action::Undo),
            ("f", Action::Fullscreen),
            ("F11", Action::Fullscreen),
            ("q", Action::Close),
            ("question", Action::Help),
            ("Escape", Action::Escape),
        ]
    }

    /// The action that a name in the configuration means.
    pub fn parse(name: &str) -> (result: Option<Self>)
        ensures
            result == action_named(name@),
            match result {
                Some(action) => is_configurable(action) && action_name(action) == name@,
                None => forall|action: Action|
                    is_configurable(action) ==> #[trigger] action_name(action) != name@,
            },
            forall|action: Action| #[trigger]
                action_name(action) == name@ ==> result == (if is_configurable(action) {
                    Some(action)
                } else {
                    None
                }),
    {
        let list = Action::configurable();
        for i in 0..list.len()
            invariant
                list@.len() == configurable_list().len(),
                forall|k: int|
                    0 <= k < list@.len() ==> (#[trigger] list@[k]).0 == configurable_list()[k].0,
                forall|k: int| 0 <= k < i ==> action_name((#[trigger] list@[k]).0) != name@,
        {
            let action = list[i].0;
            if same_text(action.name(), name) {
                proof {
                    configurable_is_listed(i as int);
                    assert forall|other: Action| #[trigger] action_name(other) == name@ implies other
                        == action by {
                        names_are_unique(other, action);
                    }
                }
                return Some(action);
            }
        }
        assert forall|action: Action| is_configurable(action) implies #[trigger] action_name(action)
            != name@ by {
            listed_at_rank(action);
            assert(list@[rank(action)].0 == action);
        }
        None
    }

    /// All actions.
    pub fn all() -> (result: Vec<Action>)
        ensures
            result@ == all_actions(),
    {
        let list = vec![
            Action::OpenFile,
            Action::OpenFolder,
            Action::Right,
            Action::Left,
            Action::Up,
            Action::Down,
            Action::Next,
            Action::Previous,
            Action::First,
            Action::Last,
            Action::PlayPause,
            Action::SeekBack,
            Action::SeekForward,
            Action::SpeedDown,
            Action::SpeedUp,
            Action::SpeedReset,
            Action::Mute,
            Action::SubtitleOpen,
            Action::SubtitleToggle,
            Action::SubtitleCycle,
            Action::VolumeUp,
            Action::VolumeDown,
            Action::ZoomIn,
            Action::ZoomOut,
            Action::ZoomFit,
            Action::ZoomActual,
            Action::ZoomToggle,
            Action::RotateClockwise,
            Action::RotateCounterclockwise,
            Action::Markup,
            Action::MarkupBox,
            Action::MarkupArrow,
            Action::MarkupCopy,
            Action::MarkupClear,
            Action::Save,
            Action::Trash,
            Action::Undo,
            Action::Fullscreen,
            Action::Help,
            Action::Close,
            Action::Escape,
            Action::SubtitleSelect,
            Action::AudioSelect,
            Action::SpeedSet,
        ];
        assert(list@ =~= all_actions());
        list
    }

    /// Whether an action with a parameter is available; None for others.
    pub open spec fn availability(self, state: WorkspaceState) -> Option<bool> {
        if is_parameterized(self) {
            Some(state.media == Media::Video && !state.marking)
        } else {
            None
        }
    }

    /// The command that an action means, where it is available.
    pub open spec fn meaning(self, state: WorkspaceState) -> Option<Command> {
        let video = state.media is Video;
        let image = state.media is Image || state.media is Animation;
        let moving = state.media is Video || state.media is Animation;
        let viewing = image || video;
        let normal = !state.marking;
        let browsing = normal && state.has_navigation;
        match self {
            Action::OpenFile => when(normal, Command::OpenFile),
            Action::OpenFolder => when(normal, Command::OpenFolder),
            Action::Right => either(state.pannable, Command::Pan(1, 0), browsing, Command::Next),
            Action::Left => either(state.pannable, Command::Pan((-1) as i32, 0), browsing, Command::Previous),
            Action::Up => either(
                state.pannable,
                Command::Pan(0, (-1) as i32),
                normal && video,
                Command::ChangeVolume(1),
            ),
            Action::Down => either(
                state.pannable,
                Command::Pan(0, 1),
                normal && video,
                Command::ChangeVolume((-1) as i8),
            ),
            Action::Next => when(browsing, Command::Next),
            Action::Previous => when(browsing, Command::Previous),
            Action::First => when(browsing, Command::First),
            Action::Last => when(browsing, Command::Last),
            Action::PlayPause => either(moving, Command::TogglePlayback, browsing, Command::Next),
            Action::SeekBack => when(video && normal, Command::Seek((-1) as i8)),
            Action::SeekForward => when(video && normal, Command::Seek(1)),
            Action::SpeedDown => when(video && normal, Command::StepSpeed((-1) as i8)),
            Action::SpeedUp => when(video && normal, Command::StepSpeed(1)),
            Action::SpeedReset => when(video && normal, Command::ResetSpeed),
            Action::Mute => when(video && normal, Command::ToggleMute),
            Action::SubtitleOpen => when(video && normal, Command::OpenSubtitle),
            Action::SubtitleToggle => when(video && normal, Command::ToggleSubtitles),
            Action::SubtitleCycle => when(video && normal, Command::CycleSubtitles),
            Action::VolumeUp => when(video && normal, Command::ChangeVolume(1)),
            Action::VolumeDown => when(video && normal, Command::ChangeVolume((-1) as i8)),
            Action::ZoomIn => when(viewing, Command::ZoomIn),
            Action::ZoomOut => when(viewing, Command::ZoomOut),
            Action::ZoomFit => when(viewing, Command::ZoomFit),
            Action::ZoomActual => when(viewing, Command::ZoomActual),
            Action::ZoomToggle => when(viewing, Command::ZoomToggle),
            Action::RotateClockwise => when(image, Command::Rotate(1)),
            Action::RotateCounterclockwise => when(image, Command::Rotate((-1) as i8)),
            Action::Markup => when(
                state.media == (Media::Image { markup_available: true }) || state.marking,
                Command::ToggleMarkup,
            ),
            Action::MarkupBox => when(state.marking, Command::MarkupBox),
            Action::MarkupArrow => when(state.marking, Command::MarkupArrow),
            Action::MarkupCopy => when(state.markup_can_copy, Command::CopyMarkup),
            Action::MarkupClear => when(state.marking && state.markup_shapes, Command::ClearMarkup),
            Action::Save => when(image && state.can_save && normal, Command::Save),
            Action::Trash => when(state.media != Media::Empty && normal, Command::Trash),
            Action::Undo => either(
                state.markup_can_undo,
                Command::MarkupUndo,
                normal && state.can_undo_trash,
                Command::TrashUndo,
            ),
            Action::Fullscreen => Some(Command::ToggleFullscreen),
            Action::Help => Some(Command::ToggleHelp),
            Action::Close => Some(Command::Close),
            Action::Escape => Some(
                if state.markup_draft {
                    Command::CancelMarkupDraft
                } else if state.marking {
                    Command::CancelMarkup
                } else if state.help_visible {
                    Command::HideHelp
                } else if state.fullscreen {
                    Command::LeaveFullscreen
                } else {
                    Command::Close
                },
            ),
            Action::SubtitleSelect => None,
            Action::AudioSelect => None,
            Action::SpeedSet => None,
        }
    }

    /// The command that an action means, where it is available.
    pub fn resolve(self, state: WorkspaceState) -> (result: Option<Command>)
        ensures
            result == self.meaning(state),
    {
        let (video, image) = match state.media {
            Media::Video => (true, false),
            Media::Image { markup_available: _ } => (false, true),
            Media::Animation => (false, true),
            _ => (false, false),
        };
        let moving = video || state.media == Media::Animation;
        let viewing = video || image;
        let normal = !state.marking;
        let browsing = normal && state.has_navigation;
        let controls = video && normal;
        Some(
            match self {
                Action::OpenFile if normal => Command::OpenFile,
                Action::OpenFolder if normal => Command::OpenFolder,
                Action::Right if state.pannable => Command::Pan(1, 0),
                Action::Left if state.pannable => Command::Pan(-1, 0),
                Action::Up if state.pannable => Command::Pan(0, -1),
                Action::Down if state.pannable => Command::Pan(0, 1),
                Action::Right if browsing => Command::Next,
                Action::Left if browsing => Command::Previous,
                Action::Up if controls => Command::ChangeVolume(1),
                Action::Down if controls => Command::ChangeVolume(-1),
                Action::Next if browsing => Command::Next,
                Action::Previous if browsing => Command::Previous,
                Action::First if browsing => Command::First,
                Action::Last if browsing => Command::Last,
                Action::PlayPause if moving => Command::TogglePlayback,
                Action::PlayPause if browsing => Command::Next,
                Action::SeekBack if controls => Command::Seek(-1),
                Action::SeekForward if controls => Command::Seek(1),
                Action::SpeedDown if controls => Command::StepSpeed(-1),
                Action::SpeedUp if controls => Command::StepSpeed(1),
                Action::SpeedReset if controls => Command::ResetSpeed,
                Action::Mute if controls => Command::ToggleMute,
                Action::SubtitleOpen if controls => Command::OpenSubtitle,
                Action::SubtitleToggle if controls => Command::ToggleSubtitles,
                Action::SubtitleCycle if controls => Command::CycleSubtitles,
                Action::VolumeUp if controls => Command::ChangeVolume(1),
                Action::VolumeDown if controls => Command::ChangeVolume(-1),
                Action::ZoomIn if viewing => Command::ZoomIn,
                Action::ZoomOut if viewing => Command::ZoomOut,
                Action::ZoomFit if viewing => Command::ZoomFit,
                Action::ZoomActual if viewing => Command::ZoomActual,
                Action::ZoomToggle if viewing => Command::ZoomToggle,
                Action::RotateClockwise if image => Command::Rotate(1),
                Action::RotateCounterclockwise if image => Command::Rotate(-1),
                Action::Markup if state.media == (Media::Image { markup_available: true })
                    || state.marking => Command::ToggleMarkup,
                Action::MarkupBox if state.marking => Command::MarkupBox,
                Action::MarkupArrow if state.marking => Command::MarkupArrow,
                Action::MarkupCopy if state.markup_can_copy => Command::CopyMarkup,
                Action::MarkupClear if state.marking && state.markup_shapes => Command::ClearMarkup,
                Action::Save if image && state.can_save && normal => Command::Save,
                Action::Trash if state.media != Media::Empty && normal => Command::Trash,
                Action::Undo if state.markup_can_undo => Command::MarkupUndo,
                Action::Undo if normal && state.can_undo_trash => Command::TrashUndo,
                Action::Fullscreen => Command::ToggleFullscreen,
                Action::Help => Command::ToggleHelp,
                Action::Close => Command::Close,
                Action::Escape if state.markup_draft => Command::CancelMarkupDraft,
                Action::Escape if state.marking => Command::CancelMarkup,
                Action::Escape if state.help_visible => Command::HideHelp,
                Action::Escape if state.fullscreen => Command::LeaveFullscreen,
                Action::Escape => Command::Close,
                _ => return None,
            },
        )
    }

    fn parameterized_available(self, state: WorkspaceState) -> (result: Option<bool>)
        ensures
            result == self.availability(state),
    {
        match self {
            Action::SubtitleSelect | Action::AudioSelect | Action::SpeedSet => Some(
                state.media == Media::Video && !state.marking,
            ),
            _ => None,
        }
    }

    pub fn resolve_subtitle(self, state: WorkspaceState, choice: SubtitleChoice) -> (result: Option<
        Command,
    >)
        ensures
            result == (if self == Action::SubtitleSelect && self.availability(state) == Some(true) {
                Some(Command::SelectSubtitle(choice))
            } else {
                None
            }),
    {
        match self.parameterized_available(state) {
            Some(true) if self == Action::SubtitleSelect => Some(Command::SelectSubtitle(choice)),
            _ => None,
        }
    }

    pub fn resolve_audio(self, state: WorkspaceState, choice: AudioChoice) -> (result: Option<
        Command,
    >)
        ensures
            result == (if self == Action::AudioSelect && self.availability(state) == Some(true) {
                Some(Command::SelectAudio(choice))
            } else {
                None
            }),
    {
        match self.parameterized_available(state) {
            Some(true) if self == Action::AudioSelect => Some(Command::SelectAudio(choice)),
            _ => None,
        }
    }

    pub fn resolve_speed(self, state: WorkspaceState, rate: u32) -> (result: Option<Command>)
        ensures
            result == (if self == Action::SpeedSet && self.availability(state) == Some(true)
                && rates().contains(rate) {
                Some(Command::SetSpeed(rate))
            } else {
                None
            }),
    {
        match self.parameterized_available(state) {
            Some(true) if self == Action::SpeedSet && crate::player::is_rate(rate) => Some(
                Command::SetSpeed(rate),
            ),
            _ => None,
        }
    }

    /// Whether an action is available.
    pub open spec fn is_enabled(self, state: WorkspaceState) -> bool {
        match self.availability(state) {
            Some(available) => available,
            None => self.meaning(state) is Some,
        }
    }

    pub fn enabled(self, state: WorkspaceState) -> (result: bool)
        ensures
            result == self.is_enabled(state),
    {
        match self.parameterized_available(state) {
            Some(available) => available,
            None => self.resolve(state).is_some(),
        }
    }
}

pub open spec fn when(condition: bool, command: Command) -> Option<Command> {
    if condition {
        Some(command)
    } else {
        None
    }
}

pub open spec fn either(
    first: bool,
    command: Command,
    second: bool,
    otherwise: Command,
) -> Option<Command> {
    if first {
        Some(command)
    } else {
        when(second, otherwise)
    }
}

/// While an image is marked up nothing navigates, opens, saves or trashes.
pub proof fn markup_keeps_the_image(action: Action, state: WorkspaceState)
    requires
        state.marking,
        state.media is Image,
    ensures
        match action.meaning(state) {
            Some(Command::Next) => false,
            Some(Command::Previous) => false,
            Some(Command::First) => false,
            Some(Command::Last) => false,
            Some(Command::OpenFile) => false,
            Some(Command::OpenFolder) => false,
            Some(Command::Save) => false,
            Some(Command::Trash) => false,
            Some(Command::TrashUndo) => false,
            _ => true,
        },
        is_parameterized(action) ==> !action.is_enabled(state),
{
}

/// There is always a way out: Escape, help, fullscreen and closing are available
/// in every state.
pub proof fn escape_is_always_available(state: WorkspaceState)
    ensures
        Action::Escape.is_enabled(state),
        Action::Help.is_enabled(state),
        Action::Fullscreen.is_enabled(state),
        Action::Close.is_enabled(state),
{
}

/// One action stands for pausing or resuming on whatever moves, and for stepping on from
/// whatever does not.
pub proof fn play_pause_follows_the_medium(state: WorkspaceState)
    requires
        !state.marking,
        state.has_navigation,
    ensures
        Action::PlayPause.meaning(state) == Some(
            if state.media is Video || state.media is Animation {
                Command::TogglePlayback
            } else {
                Command::Next
            },
        ),
{
}

/// Where nothing is open, only opening and the window's own actions are available.
pub proof fn nothing_acts_on_an_empty_workspace(action: Action, state: WorkspaceState)
    requires
        state.media == Media::Empty,
        !state.has_navigation,
        !state.pannable,
        !state.marking,
        !state.markup_can_copy,
        !state.markup_can_undo,
        !state.can_undo_trash,
    ensures
        action.is_enabled(state) <==> (action == Action::OpenFile || action == Action::OpenFolder
            || action == Action::Fullscreen || action == Action::Help || action == Action::Close
            || action == Action::Escape),
{
}

/// The arrows browse: right is the next file and left the one before, unless the image
/// can be moved, which they then do, each against its opposite. Up and down change the
/// volume of a video.
pub proof fn arrows_browse_or_pan(state: WorkspaceState)
    ensures
        !state.marking && state.has_navigation && !state.pannable ==> Action::Right.meaning(state)
            == Some(Command::Next) && Action::Left.meaning(state) == Some(Command::Previous),
        !state.pannable && (state.marking || !state.has_navigation) ==> Action::Right.meaning(state)
            is None && Action::Left.meaning(state) is None,
        state.pannable ==> Action::Right.meaning(state) == Some(Command::Pan(1, 0))
            && Action::Left.meaning(state) == Some(Command::Pan((-1) as i32, 0))
            && Action::Up.meaning(state) == Some(Command::Pan(0, (-1) as i32))
            && Action::Down.meaning(state) == Some(Command::Pan(0, 1)),
        !state.pannable && !state.marking && state.media == Media::Video ==> Action::Up.meaning(
            state,
        ) == Some(Command::ChangeVolume(1)) && Action::Down.meaning(state) == Some(
            Command::ChangeVolume((-1) as i8),
        ),
        !state.pannable && (state.marking || state.media != Media::Video) ==> Action::Up.meaning(
            state,
        ) is None && Action::Down.meaning(state) is None,
{
}

/// Stepping through the folder needs one with files in it, and no markup under way.
pub proof fn browsing_needs_a_folder(state: WorkspaceState)
    ensures
        !state.marking && state.has_navigation ==> Action::Next.meaning(state) == Some(
            Command::Next,
        ) && Action::Previous.meaning(state) == Some(Command::Previous) && Action::First.meaning(
            state,
        ) == Some(Command::First) && Action::Last.meaning(state) == Some(Command::Last),
        state.marking || !state.has_navigation ==> Action::Next.meaning(state) is None
            && Action::Previous.meaning(state) is None && Action::First.meaning(state) is None
            && Action::Last.meaning(state) is None,
        !state.marking ==> Action::OpenFile.meaning(state) == Some(Command::OpenFile)
            && Action::OpenFolder.meaning(state) == Some(Command::OpenFolder),
        state.marking ==> Action::OpenFile.meaning(state) is None && Action::OpenFolder.meaning(
            state,
        ) is None,
{
}

/// What is for videos acts on a video that is on screen, and on nothing else. What goes
/// back is the opposite of what goes on.
pub proof fn video_actions_need_a_video(state: WorkspaceState)
    ensures
        state.media == Media::Video && !state.marking ==> {
            &&& Action::SeekBack.meaning(state) == Some(Command::Seek((-1) as i8))
            &&& Action::SeekForward.meaning(state) == Some(Command::Seek(1))
            &&& Action::SpeedDown.meaning(state) == Some(Command::StepSpeed((-1) as i8))
            &&& Action::SpeedUp.meaning(state) == Some(Command::StepSpeed(1))
            &&& Action::SpeedReset.meaning(state) == Some(Command::ResetSpeed)
            &&& Action::Mute.meaning(state) == Some(Command::ToggleMute)
            &&& Action::SubtitleOpen.meaning(state) == Some(Command::OpenSubtitle)
            &&& Action::SubtitleToggle.meaning(state) == Some(Command::ToggleSubtitles)
            &&& Action::SubtitleCycle.meaning(state) == Some(Command::CycleSubtitles)
            &&& Action::VolumeUp.meaning(state) == Some(Command::ChangeVolume(1))
            &&& Action::VolumeDown.meaning(state) == Some(Command::ChangeVolume((-1) as i8))
            &&& Action::PlayPause.meaning(state) == Some(Command::TogglePlayback)
        },
        state.media != Media::Video || state.marking ==> {
            &&& Action::SeekBack.meaning(state) is None
            &&& Action::SeekForward.meaning(state) is None
            &&& Action::SpeedDown.meaning(state) is None
            &&& Action::SpeedUp.meaning(state) is None
            &&& Action::SpeedReset.meaning(state) is None
            &&& Action::Mute.meaning(state) is None
            &&& Action::SubtitleOpen.meaning(state) is None
            &&& Action::SubtitleToggle.meaning(state) is None
            &&& Action::SubtitleCycle.meaning(state) is None
            &&& Action::VolumeUp.meaning(state) is None
            &&& Action::VolumeDown.meaning(state) is None
        },
{
}

/// Zooming acts on whatever is seen, rotating on pictures; saving needs something to
/// save, and trashing anything that is open.
pub proof fn picture_actions_need_a_picture(state: WorkspaceState)
    ensures
        ({
            let picture = state.media is Image || state.media is Animation;
            let seen = picture || state.media == Media::Video;
            &&& seen ==> Action::ZoomIn.meaning(state) == Some(Command::ZoomIn)
                && Action::ZoomOut.meaning(state) == Some(Command::ZoomOut)
                && Action::ZoomFit.meaning(state) == Some(Command::ZoomFit)
                && Action::ZoomActual.meaning(state) == Some(Command::ZoomActual)
                && Action::ZoomToggle.meaning(state) == Some(Command::ZoomToggle)
            &&& !seen ==> Action::ZoomIn.meaning(state) is None && Action::ZoomOut.meaning(state)
                is None && Action::ZoomFit.meaning(state) is None && Action::ZoomActual.meaning(state)
                is None && Action::ZoomToggle.meaning(state) is None
            &&& picture ==> Action::RotateClockwise.meaning(state) == Some(Command::Rotate(1))
                && Action::RotateCounterclockwise.meaning(state) == Some(Command::Rotate((-1) as i8))
            &&& !picture ==> Action::RotateClockwise.meaning(state) is None
                && Action::RotateCounterclockwise.meaning(state) is None
            &&& picture && state.can_save && !state.marking ==> Action::Save.meaning(state) == Some(
                Command::Save,
            )
            &&& !picture || !state.can_save || state.marking ==> Action::Save.meaning(state) is None
            &&& state.media != Media::Empty && !state.marking ==> Action::Trash.meaning(state)
                == Some(Command::Trash)
            &&& state.media == Media::Empty || state.marking ==> Action::Trash.meaning(state) is None
        }),
{
}

/// Markup begins on a still picture and ends by the same action; its tools and its undo
/// act only while there is something for them. Undo takes markup back before trash.
pub proof fn markup_actions_need_a_markup(state: WorkspaceState)
    ensures
        state.media == (Media::Image { markup_available: true }) || state.marking
            ==> Action::Markup.meaning(state) == Some(Command::ToggleMarkup),
        state.media != (Media::Image { markup_available: true }) && !state.marking
            ==> Action::Markup.meaning(state) is None,
        state.marking ==> Action::MarkupBox.meaning(state) == Some(Command::MarkupBox)
            && Action::MarkupArrow.meaning(state) == Some(Command::MarkupArrow),
        !state.marking ==> Action::MarkupBox.meaning(state) is None && Action::MarkupArrow.meaning(
            state,
        ) is None && Action::MarkupClear.meaning(state) is None,
        state.markup_can_copy ==> Action::MarkupCopy.meaning(state) == Some(Command::CopyMarkup),
        !state.markup_can_copy ==> Action::MarkupCopy.meaning(state) is None,
        state.marking && state.markup_shapes ==> Action::MarkupClear.meaning(state) == Some(
            Command::ClearMarkup,
        ),
        !state.markup_shapes ==> Action::MarkupClear.meaning(state) is None,
        state.markup_can_undo ==> Action::Undo.meaning(state) == Some(Command::MarkupUndo),
        !state.markup_can_undo && state.can_undo_trash && !state.marking ==> Action::Undo.meaning(
            state,
        ) == Some(Command::TrashUndo),
        !state.markup_can_undo && (!state.can_undo_trash || state.marking) ==> Action::Undo.meaning(
            state,
        ) is None,
{
}

/// Escape leaves one thing at a time, the innermost first: a drawing, the markup, the
/// help, fullscreen, and then the window. The window's own actions mean what they say.
pub proof fn escape_leaves_the_innermost(state: WorkspaceState)
    ensures
        state.markup_draft ==> Action::Escape.meaning(state) == Some(Command::CancelMarkupDraft),
        !state.markup_draft && state.marking ==> Action::Escape.meaning(state) == Some(
            Command::CancelMarkup,
        ),
        !state.markup_draft && !state.marking && state.help_visible ==> Action::Escape.meaning(
            state,
        ) == Some(Command::HideHelp),
        !state.markup_draft && !state.marking && !state.help_visible && state.fullscreen
            ==> Action::Escape.meaning(state) == Some(Command::LeaveFullscreen),
        !state.markup_draft && !state.marking && !state.help_visible && !state.fullscreen
            ==> Action::Escape.meaning(state) == Some(Command::Close),
        Action::Fullscreen.meaning(state) == Some(Command::ToggleFullscreen),
        Action::Help.meaning(state) == Some(Command::ToggleHelp),
        Action::Close.meaning(state) == Some(Command::Close),
{
}

/// Pausing acts on what moves even while nothing can be browsed, and on nothing where
/// there is neither.
pub proof fn pausing_needs_what_moves(state: WorkspaceState)
    ensures
        state.media is Animation ==> Action::PlayPause.meaning(state) == Some(
            Command::TogglePlayback,
        ),
        !(state.media is Animation) && !(state.media is Video) && (state.marking
            || !state.has_navigation) ==> Action::PlayPause.meaning(state) is None,
        !(state.media is Animation) && !(state.media is Video) && !state.marking
            && state.has_navigation ==> Action::PlayPause.meaning(state) == Some(Command::Next),
{
}

/// An action is available exactly where it means something, and one that takes a choice
/// exactly while a video is on screen.
pub proof fn availability_follows_the_meaning(action: Action, state: WorkspaceState)
    ensures
        action != Action::SubtitleSelect && action != Action::AudioSelect && action
            != Action::SpeedSet ==> (action.is_enabled(state) <==> action.meaning(state) is Some),
        action == Action::SubtitleSelect || action == Action::AudioSelect || action
            == Action::SpeedSet ==> (action.is_enabled(state) <==> state.media == Media::Video
            && !state.marking) && action.meaning(state) is None,
{
}

/// What each action is called in the configuration and in menus.
pub proof fn actions_go_by_their_names()
    ensures
        action_name(Action::OpenFile) == "open-file"@,
        action_name(Action::OpenFolder) == "open-folder"@,
        action_name(Action::Right) == "right"@,
        action_name(Action::Left) == "left"@,
        action_name(Action::Up) == "up"@,
        action_name(Action::Down) == "down"@,
        action_name(Action::Next) == "next"@,
        action_name(Action::Previous) == "prev"@,
        action_name(Action::First) == "first"@,
        action_name(Action::Last) == "last"@,
        action_name(Action::PlayPause) == "play-pause"@,
        action_name(Action::SeekBack) == "seek-back"@,
        action_name(Action::SeekForward) == "seek-forward"@,
        action_name(Action::SpeedDown) == "speed-down"@,
        action_name(Action::SpeedUp) == "speed-up"@,
        action_name(Action::SpeedReset) == "speed-reset"@,
        action_name(Action::Mute) == "mute"@,
        action_name(Action::SubtitleOpen) == "subtitle-open"@,
        action_name(Action::SubtitleToggle) == "subtitle-toggle"@,
        action_name(Action::SubtitleCycle) == "subtitle-cycle"@,
        action_name(Action::VolumeUp) == "volume-up"@,
        action_name(Action::VolumeDown) == "volume-down"@,
        action_name(Action::ZoomIn) == "zoom-in"@,
        action_name(Action::ZoomOut) == "zoom-out"@,
        action_name(Action::ZoomFit) == "zoom-fit"@,
        action_name(Action::ZoomActual) == "zoom-actual"@,
        action_name(Action::ZoomToggle) == "zoom-toggle"@,
        action_name(Action::RotateClockwise) == "rotate-cw"@,
        action_name(Action::RotateCounterclockwise) == "rotate-ccw"@,
        action_name(Action::Markup) == "markup"@,
        action_name(Action::MarkupBox) == "markup-box"@,
        action_name(Action::MarkupArrow) == "markup-arrow"@,
        action_name(Action::MarkupCopy) == "markup-copy"@,
        action_name(Action::MarkupClear) == "markup-clear"@,
        action_name(Action::Save) == "save"@,
        action_name(Action::Trash) == "trash"@,
        action_name(Action::Undo) == "undo"@,
        action_name(Action::Fullscreen) == "fullscreen"@,
        action_name(Action::Help) == "help"@,
        action_name(Action::Close) == "close"@,
        action_name(Action::Escape) == "escape"@,
        action_name(Action::SubtitleSelect) == "subtitle"@,
        action_name(Action::AudioSelect) == "audio"@,
        action_name(Action::SpeedSet) == "speed"@,
{
}

/// A configuration reaches each action that keys can be bound to by its name, and no
/// action by any other name.
pub proof fn configured_names_reach_their_actions(action: Action, name: Seq<char>)
    ensures
        is_configurable(action) ==> action_named(action_name(action)) == Some(action),
        action_named(name) matches Some(found) ==> is_configurable(found) && action_name(found)
            == name,
        is_configurable(action) <==> action != Action::SubtitleSelect && action
            != Action::AudioSelect && action != Action::SpeedSet,
{
    if is_configurable(action) {
        let found = action_named(action_name(action))->0;
        names_are_unique(found, action);
    }
}

/// Which keys do what where the configuration says nothing.
pub proof fn keys_have_their_defaults()
    ensures
        default_bind_list().len() == 46,
        default_bind_list().contains(("<Control>o"@, Action::OpenFile)),
        default_bind_list().contains(("<Control><Shift>o"@, Action::OpenFolder)),
        default_bind_list().contains(("Right"@, Action::Right)),
        default_bind_list().contains(("Left"@, Action::Left)),
        default_bind_list().contains(("Up"@, Action::Up)),
        default_bind_list().contains(("Down"@, Action::Down)),
        default_bind_list().contains(("space"@, Action::PlayPause)),
        default_bind_list().contains(("Page_Down"@, Action::Next)),
        default_bind_list().contains(("BackSpace"@, Action::Previous)),
        default_bind_list().contains(("Page_Up"@, Action::Previous)),
        default_bind_list().contains(("Home"@, Action::First)),
        default_bind_list().contains(("End"@, Action::Last)),
        default_bind_list().contains(("plus"@, Action::ZoomIn)),
        default_bind_list().contains(("equal"@, Action::ZoomIn)),
        default_bind_list().contains(("KP_Add"@, Action::ZoomIn)),
        default_bind_list().contains(("minus"@, Action::ZoomOut)),
        default_bind_list().contains(("KP_Subtract"@, Action::ZoomOut)),
        default_bind_list().contains(("0"@, Action::ZoomFit)),
        default_bind_list().contains(("1"@, Action::ZoomActual)),
        default_bind_list().contains(("z"@, Action::ZoomToggle)),
        default_bind_list().contains(("r"@, Action::RotateClockwise)),
        default_bind_list().contains(("<Shift>r"@, Action::RotateCounterclockwise)),
        default_bind_list().contains(("a"@, Action::Markup)),
        default_bind_list().contains(("b"@, Action::MarkupBox)),
        default_bind_list().contains(("<Shift>a"@, Action::MarkupArrow)),
        default_bind_list().contains(("<Control>c"@, Action::MarkupCopy)),
        default_bind_list().contains(("c"@, Action::MarkupClear)),
        default_bind_list().contains(("s"@, Action::Save)),
        default_bind_list().contains(("j"@, Action::SeekBack)),
        default_bind_list().contains(("l"@, Action::SeekForward)),
        default_bind_list().contains(("<Shift>Left"@, Action::SeekBack)),
        default_bind_list().contains(("<Shift>Right"@, Action::SeekForward)),
        default_bind_list().contains(("bracketleft"@, Action::SpeedDown)),
        default_bind_list().contains(("bracketright"@, Action::SpeedUp)),
        default_bind_list().contains(("backslash"@, Action::SpeedReset)),
        default_bind_list().contains(("m"@, Action::Mute)),
        default_bind_list().contains(("v"@, Action::SubtitleToggle)),
        default_bind_list().contains(("<Shift>v"@, Action::SubtitleCycle)),
        default_bind_list().contains(("Delete"@, Action::Trash)),
        default_bind_list().contains(("KP_Delete"@, Action::Trash)),
        default_bind_list().contains(("<Control>z"@, Action::Undo)),
        default_bind_list().contains(("f"@, Action::Fullscreen)),
        default_bind_list().contains(("F11"@, Action::Fullscreen)),
        default_bind_list().contains(("q"@, Action::Close)),
        default_bind_list().contains(("question"@, Action::Help)),
        default_bind_list().contains(("Escape"@, Action::Escape)),
{
    let list = default_bind_list();
    assert(list[0] == ("<Control>o"@, Action::OpenFile));
    assert(list[1] == ("<Control><Shift>o"@, Action::OpenFolder));
    assert(list[2] == ("Right"@, Action::Right));
    assert(list[3] == ("Left"@, Action::Left));
    assert(list[4] == ("Up"@, Action::Up));
    assert(list[5] == ("Down"@, Action::Down));
    assert(list[6] == ("space"@, Action::PlayPause));
    assert(list[7] == ("Page_Down"@, Action::Next));
    assert(list[8] == ("BackSpace"@, Action::Previous));
    assert(list[9] == ("Page_Up"@, Action::Previous));
    assert(list[10] == ("Home"@, Action::First));
    assert(list[11] == ("End"@, Action::Last));
    assert(list[12] == ("plus"@, Action::ZoomIn));
    assert(list[13] == ("equal"@, Action::ZoomIn));
    assert(list[14] == ("KP_Add"@, Action::ZoomIn));
    assert(list[15] == ("minus"@, Action::ZoomOut));
    assert(list[16] == ("KP_Subtract"@, Action::ZoomOut));
    assert(list[17] == ("0"@, Action::ZoomFit));
    assert(list[18] == ("1"@, Action::ZoomActual));
    assert(list[19] == ("z"@, Action::ZoomToggle));
    assert(list[20] == ("r"@, Action::RotateClockwise));
    assert(list[21] == ("<Shift>r"@, Action::RotateCounterclockwise));
    assert(list[22] == ("a"@, Action::Markup));
    assert(list[23] == ("b"@, Action::MarkupBox));
    assert(list[24] == ("<Shift>a"@, Action::MarkupArrow));
    assert(list[25] == ("<Control>c"@, Action::MarkupCopy));
    assert(list[26] == ("c"@, Action::MarkupClear));
    assert(list[27] == ("s"@, Action::Save));
    assert(list[28] == ("j"@, Action::SeekBack));
    assert(list[29] == ("l"@, Action::SeekForward));
    assert(list[30] == ("<Shift>Left"@, Action::SeekBack));
    assert(list[31] == ("<Shift>Right"@, Action::SeekForward));
    assert(list[32] == ("bracketleft"@, Action::SpeedDown));
    assert(list[33] == ("bracketright"@, Action::SpeedUp));
    assert(list[34] == ("backslash"@, Action::SpeedReset));
    assert(list[35] == ("m"@, Action::Mute));
    assert(list[36] == ("v"@, Action::SubtitleToggle));
    assert(list[37] == ("<Shift>v"@, Action::SubtitleCycle));
    assert(list[38] == ("Delete"@, Action::Trash));
    assert(list[39] == ("KP_Delete"@, Action::Trash));
    assert(list[40] == ("<Control>z"@, Action::Undo));
    assert(list[41] == ("f"@, Action::Fullscreen));
    assert(list[42] == ("F11"@, Action::Fullscreen));
    assert(list[43] == ("q"@, Action::Close));
    assert(list[44] == ("question"@, Action::Help));
    assert(list[45] == ("Escape"@, Action::Escape));
}

/// What the help says of each action that keys can be bound to.
pub proof fn the_help_says_what_actions_do()
    ensures
        configurable_list().len() == 41,
        configurable_list().contains((Action::OpenFile, "Open a file"@)),
        configurable_list().contains((Action::OpenFolder, "Open a folder"@)),
        configurable_list().contains((Action::Right, "Next image, or pan when zoomed in"@)),
        configurable_list().contains((Action::Left, "Previous image, or pan when zoomed in"@)),
        configurable_list().contains((Action::Up, "Volume up, or pan when zoomed in"@)),
        configurable_list().contains((Action::Down, "Volume down, or pan when zoomed in"@)),
        configurable_list().contains((Action::Next, "Next image"@)),
        configurable_list().contains((Action::Previous, "Previous image"@)),
        configurable_list().contains((Action::First, "First image"@)),
        configurable_list().contains((Action::Last, "Last image"@)),
        configurable_list().contains((Action::PlayPause, "Pause video or animation, or next image"@)),
        configurable_list().contains((Action::SeekBack, "Seek back 10 seconds"@)),
        configurable_list().contains((Action::SeekForward, "Seek forward 10 seconds"@)),
        configurable_list().contains((Action::SpeedDown, "Slower video playback"@)),
        configurable_list().contains((Action::SpeedUp, "Faster video playback"@)),
        configurable_list().contains((Action::SpeedReset, "Reset video speed to 1x"@)),
        configurable_list().contains((Action::Mute, "Mute audio"@)),
        configurable_list().contains((Action::SubtitleOpen, "Add an external subtitle"@)),
        configurable_list().contains((Action::SubtitleToggle, "Show or hide subtitles"@)),
        configurable_list().contains((Action::SubtitleCycle, "Next subtitle track"@)),
        configurable_list().contains((Action::VolumeUp, "Volume up"@)),
        configurable_list().contains((Action::VolumeDown, "Volume down"@)),
        configurable_list().contains((Action::ZoomIn, "Zoom in"@)),
        configurable_list().contains((Action::ZoomOut, "Zoom out"@)),
        configurable_list().contains((Action::ZoomFit, "Fit to window"@)),
        configurable_list().contains((Action::ZoomActual, "Actual size, 100%"@)),
        configurable_list().contains((Action::ZoomToggle, "Toggle fit and 100%"@)),
        configurable_list().contains((Action::RotateClockwise, "Rotate right"@)),
        configurable_list().contains((Action::RotateCounterclockwise, "Rotate left"@)),
        configurable_list().contains((Action::Markup, "Start or cancel Quick Markup"@)),
        configurable_list().contains((Action::MarkupBox, "Quick Markup box tool"@)),
        configurable_list().contains((Action::MarkupArrow, "Quick Markup arrow tool"@)),
        configurable_list().contains((Action::MarkupCopy, "Copy the annotated image"@)),
        configurable_list().contains((Action::MarkupClear, "Clear all annotations"@)),
        configurable_list().contains((Action::Save, "Save rotation to the file"@)),
        configurable_list().contains((Action::Trash, "Move to trash"@)),
        configurable_list().contains((Action::Undo, "Undo delete or last annotation"@)),
        configurable_list().contains((Action::Fullscreen, "Fullscreen"@)),
        configurable_list().contains((Action::Help, "This list"@)),
        configurable_list().contains((Action::Close, "Quit"@)),
        configurable_list().contains((Action::Escape, ""@)),
{
    let list = configurable_list();
    assert(list[0] == (Action::OpenFile, "Open a file"@));
    assert(list[1] == (Action::OpenFolder, "Open a folder"@));
    assert(list[2] == (Action::Right, "Next image, or pan when zoomed in"@));
    assert(list[3] == (Action::Left, "Previous image, or pan when zoomed in"@));
    assert(list[4] == (Action::Up, "Volume up, or pan when zoomed in"@));
    assert(list[5] == (Action::Down, "Volume down, or pan when zoomed in"@));
    assert(list[6] == (Action::Next, "Next image"@));
    assert(list[7] == (Action::Previous, "Previous image"@));
    assert(list[8] == (Action::First, "First image"@));
    assert(list[9] == (Action::Last, "Last image"@));
    assert(list[10] == (Action::PlayPause, "Pause video or animation, or next image"@));
    assert(list[11] == (Action::SeekBack, "Seek back 10 seconds"@));
    assert(list[12] == (Action::SeekForward, "Seek forward 10 seconds"@));
    assert(list[13] == (Action::SpeedDown, "Slower video playback"@));
    assert(list[14] == (Action::SpeedUp, "Faster video playback"@));
    assert(list[15] == (Action::SpeedReset, "Reset video speed to 1x"@));
    assert(list[16] == (Action::Mute, "Mute audio"@));
    assert(list[17] == (Action::SubtitleOpen, "Add an external subtitle"@));
    assert(list[18] == (Action::SubtitleToggle, "Show or hide subtitles"@));
    assert(list[19] == (Action::SubtitleCycle, "Next subtitle track"@));
    assert(list[20] == (Action::VolumeUp, "Volume up"@));
    assert(list[21] == (Action::VolumeDown, "Volume down"@));
    assert(list[22] == (Action::ZoomIn, "Zoom in"@));
    assert(list[23] == (Action::ZoomOut, "Zoom out"@));
    assert(list[24] == (Action::ZoomFit, "Fit to window"@));
    assert(list[25] == (Action::ZoomActual, "Actual size, 100%"@));
    assert(list[26] == (Action::ZoomToggle, "Toggle fit and 100%"@));
    assert(list[27] == (Action::RotateClockwise, "Rotate right"@));
    assert(list[28] == (Action::RotateCounterclockwise, "Rotate left"@));
    assert(list[29] == (Action::Markup, "Start or cancel Quick Markup"@));
    assert(list[30] == (Action::MarkupBox, "Quick Markup box tool"@));
    assert(list[31] == (Action::MarkupArrow, "Quick Markup arrow tool"@));
    assert(list[32] == (Action::MarkupCopy, "Copy the annotated image"@));
    assert(list[33] == (Action::MarkupClear, "Clear all annotations"@));
    assert(list[34] == (Action::Save, "Save rotation to the file"@));
    assert(list[35] == (Action::Trash, "Move to trash"@));
    assert(list[36] == (Action::Undo, "Undo delete or last annotation"@));
    assert(list[37] == (Action::Fullscreen, "Fullscreen"@));
    assert(list[38] == (Action::Help, "This list"@));
    assert(list[39] == (Action::Close, "Quit"@));
    assert(list[40] == (Action::Escape, ""@));
}

}
