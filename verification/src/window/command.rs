//! What carrying out a command takes.
use vstd::prelude::*;

use crate::annotation::Tool;
use crate::folder::Course;
use crate::player::rates;
use crate::player::tracks::{
    audio_views, subtitle_views, AudioChoice, AudioSnapshot, SubtitleChoice, SubtitleSnapshot,
};
use crate::window::action::{Action, Command, WorkspaceState};
use crate::window::readout::{
    adjacent_playback_rate, audio_choice_text, audio_text, is_nearest, optional, stepped,
    subtitle_choice_text, subtitle_text,
};
use crate::window::workspace::Direction;

verus! {

/// How far one seek goes, in nanoseconds.
pub const SEEK_STEP: i64 = 10_000_000_000;

/// How far one arrow-key press moves a zoomed image, in logical pixels.
pub const PAN_STEP: i64 = 64;

/// How far one step changes the volume, in percent.
pub const VOLUME_STEP: i32 = 10;

/// How far one step zooms in or out, in percent.
pub const ZOOM_IN: u32 = 125;

pub const ZOOM_OUT: u32 = 80;

/// The rate that a reset returns to, in hundredths.
pub const RESET_RATE: u32 = 100;

/// What a command depends on.
#[derive(Debug, Clone, Copy, PartialEq, Eq, Structural)]
pub struct Situation {
    /// How many files the folder holds.
    pub count: usize,
    /// The rate of the video that is on screen, where there is one and a player for it.
    pub rate: Option<u32>,
    /// An animation is on screen.
    pub animated: bool,
    pub fullscreen: bool,
    pub help_visible: bool,
}

/// What is to be done.
#[derive(Debug, Clone, PartialEq, Eq)]
pub enum Task {
    /// There is nothing on screen for it to act on.
    Nothing,
    ChooseMediaFile,
    ChooseFolder,
    /// Move the image by so many pixels.
    Pan(i64, i64),
    Navigate(Direction),
    ShowIndex(usize),
    /// Pause the video or the animation, or let it go on.
    TogglePlayback,
    /// Seek by so many nanoseconds and show where that leads.
    SeekBy(i64),
    /// Play at a rate in hundredths.
    SetRate(u32),
    ToggleMute,
    ChooseSubtitle,
    ToggleSubtitles,
    CycleSubtitles,
    SelectSubtitle(SubtitleChoice),
    SelectAudio(AudioChoice),
    /// Change the volume by so many percent.
    ChangeVolume(i32),
    /// Zoom to so many percent of what it is now.
    ZoomBy(u32),
    ZoomFit,
    ZoomActual,
    ZoomToggle,
    Rotate(i8),
    ToggleMarkup,
    SetTool(Tool),
    CopyMarkup,
    ClearMarkup,
    Save,
    Trash,
    UndoMarkup,
    UndoTrash,
    SetFullscreen(bool),
    ShowHelp(bool),
    CancelMarkupDraft,
    CancelMarkup,
    Close,
}

/// A task that needs a video.
pub open spec fn on_video(situation: Situation, task: Task) -> Task {
    if situation.rate is Some {
        task
    } else {
        Task::Nothing
    }
}

/// What a command takes, for all commands but those that change the rate by a step.
pub open spec fn task_of(command: Command, situation: Situation) -> Task {
    match command {
        Command::OpenFile => Task::ChooseMediaFile,
        Command::OpenFolder => Task::ChooseFolder,
        Command::Pan(dx, dy) => Task::Pan((-dx * PAN_STEP) as i64, (-dy * PAN_STEP) as i64),
        Command::Next => Task::Navigate(Direction::Next),
        Command::Previous => Task::Navigate(Direction::Previous),
        Command::First => Task::ShowIndex(0),
        Command::Last => Task::ShowIndex((situation.count - 1) as usize),
        Command::TogglePlayback => if situation.rate is Some || situation.animated {
            Task::TogglePlayback
        } else {
            Task::Nothing
        },
        Command::Seek(direction) => on_video(
            situation,
            Task::SeekBy((direction * SEEK_STEP) as i64),
        ),
        Command::StepSpeed(_) => Task::Nothing,
        Command::ResetSpeed => on_video(situation, Task::SetRate(RESET_RATE)),
        Command::ToggleMute => on_video(situation, Task::ToggleMute),
        Command::OpenSubtitle => Task::ChooseSubtitle,
        Command::ToggleSubtitles => on_video(situation, Task::ToggleSubtitles),
        Command::CycleSubtitles => on_video(situation, Task::CycleSubtitles),
        Command::SelectSubtitle(choice) => on_video(situation, Task::SelectSubtitle(choice)),
        Command::SelectAudio(choice) => on_video(situation, Task::SelectAudio(choice)),
        Command::SetSpeed(rate) => on_video(situation, Task::SetRate(rate)),
        Command::ChangeVolume(direction) => on_video(
            situation,
            Task::ChangeVolume((direction * VOLUME_STEP) as i32),
        ),
        Command::ZoomIn => Task::ZoomBy(ZOOM_IN),
        Command::ZoomOut => Task::ZoomBy(ZOOM_OUT),
        Command::ZoomFit => Task::ZoomFit,
        Command::ZoomActual => Task::ZoomActual,
        Command::ZoomToggle => Task::ZoomToggle,
        Command::Rotate(turns) => Task::Rotate(turns),
        Command::ToggleMarkup => Task::ToggleMarkup,
        Command::MarkupBox => Task::SetTool(Tool::Box),
        Command::MarkupArrow => Task::SetTool(Tool::Arrow),
        Command::CopyMarkup => Task::CopyMarkup,
        Command::ClearMarkup => Task::ClearMarkup,
        Command::Save => Task::Save,
        Command::Trash => Task::Trash,
        Command::MarkupUndo => Task::UndoMarkup,
        Command::TrashUndo => Task::UndoTrash,
        Command::ToggleFullscreen => Task::SetFullscreen(!situation.fullscreen),
        Command::ToggleHelp => Task::ShowHelp(!situation.help_visible),
        Command::CancelMarkupDraft => Task::CancelMarkupDraft,
        Command::CancelMarkup => Task::CancelMarkup,
        Command::HideHelp => Task::ShowHelp(false),
        Command::LeaveFullscreen => Task::SetFullscreen(false),
        Command::Close => Task::Close,
    }
}

/// Says what carrying out a command takes. The last file of an empty folder cannot be
/// asked for.
pub fn execute_command(command: Command, situation: Situation) -> (result: Task)
    requires
        command == Command::Last ==> situation.count > 0,
    ensures
        match (command, situation.rate) {
            (Command::StepSpeed(direction), Some(rate)) => exists|at: int|
                #[trigger] is_nearest(at, rate as int) && result == Task::SetRate(
                    rates()[stepped(at, direction as int)],
                ),
            (Command::StepSpeed(_), None) => result == Task::Nothing,
            _ => result == task_of(command, situation),
        },
{
    let video = situation.rate.is_some();
    match command {
        Command::OpenFile => Task::ChooseMediaFile,
        Command::OpenFolder => Task::ChooseFolder,
        Command::Pan(dx, dy) => Task::Pan(-(dx as i64) * PAN_STEP, -(dy as i64) * PAN_STEP),
        Command::Next => Task::Navigate(Direction::Next),
        Command::Previous => Task::Navigate(Direction::Previous),
        Command::First => Task::ShowIndex(0),
        Command::Last => Task::ShowIndex(situation.count - 1),
        Command::OpenSubtitle => Task::ChooseSubtitle,
        Command::ZoomIn => Task::ZoomBy(ZOOM_IN),
        Command::ZoomOut => Task::ZoomBy(ZOOM_OUT),
        Command::ZoomFit => Task::ZoomFit,
        Command::ZoomActual => Task::ZoomActual,
        Command::ZoomToggle => Task::ZoomToggle,
        Command::Rotate(turns) => Task::Rotate(turns),
        Command::ToggleMarkup => Task::ToggleMarkup,
        Command::MarkupBox => Task::SetTool(Tool::Box),
        Command::MarkupArrow => Task::SetTool(Tool::Arrow),
        Command::CopyMarkup => Task::CopyMarkup,
        Command::ClearMarkup => Task::ClearMarkup,
        Command::Save => Task::Save,
        Command::Trash => Task::Trash,
        Command::MarkupUndo => Task::UndoMarkup,
        Command::TrashUndo => Task::UndoTrash,
        Command::ToggleFullscreen => Task::SetFullscreen(!situation.fullscreen),
        Command::ToggleHelp => Task::ShowHelp(!situation.help_visible),
        Command::CancelMarkupDraft => Task::CancelMarkupDraft,
        Command::CancelMarkup => Task::CancelMarkup,
        Command::HideHelp => Task::ShowHelp(false),
        Command::LeaveFullscreen => Task::SetFullscreen(false),
        Command::Close => Task::Close,
        Command::StepSpeed(direction) => match situation.rate {
            Some(rate) => Task::SetRate(adjacent_playback_rate(rate, direction)),
            None => Task::Nothing,
        },
        Command::TogglePlayback if video || situation.animated => Task::TogglePlayback,
        Command::Seek(direction) if video => Task::SeekBy(direction as i64 * SEEK_STEP),
        Command::ResetSpeed if video => Task::SetRate(RESET_RATE),
        Command::ToggleMute if video => Task::ToggleMute,
        Command::ToggleSubtitles if video => Task::ToggleSubtitles,
        Command::CycleSubtitles if video => Task::CycleSubtitles,
        Command::SelectSubtitle(choice) if video => Task::SelectSubtitle(choice),
        Command::SelectAudio(choice) if video => Task::SelectAudio(choice),
        Command::SetSpeed(rate) if video => Task::SetRate(rate),
        Command::ChangeVolume(direction) if video => Task::ChangeVolume(
            direction as i32 * VOLUME_STEP,
        ),
        _ => Task::Nothing,
    }
}

/// The play and pause action, carried out, pauses or resumes what moves on screen: a
/// video that is played, or an animation.
pub proof fn play_pause_acts_on_what_moves(state: WorkspaceState, situation: Situation)
    requires
        !state.marking,
        state.media is Video && situation.rate is Some || state.media is Animation
            && situation.animated,
    ensures
        Action::PlayPause.meaning(state) matches Some(command) && task_of(command, situation)
            == Task::TogglePlayback,
{
}

/// Whether a situation is one in which a state of the workspace can be: a video on screen
/// has a rate, and an animation is known for one.
pub open spec fn describes(situation: Situation, state: WorkspaceState) -> bool {
    &&& state.media is Video ==> situation.rate is Some
    &&& state.media is Animation ==> situation.animated
}

/// No action that is available comes to nothing: its command always asks for something
/// to be done.
pub proof fn available_actions_act(action: Action, state: WorkspaceState, situation: Situation)
    requires
        describes(situation, state),
    ensures
        action.meaning(state) matches Some(command) ==> command is StepSpeed && situation.rate is Some
            || task_of(command, situation) != Task::Nothing,
{
}

/// Toggling fullscreen or the help twice leaves things as they were.
pub proof fn toggles_undo_themselves(situation: Situation)
    ensures
        task_of(Command::ToggleFullscreen, situation) == Task::SetFullscreen(!situation.fullscreen),
        task_of(
            Command::ToggleFullscreen,
            Situation { fullscreen: !situation.fullscreen, ..situation },
        ) == Task::SetFullscreen(situation.fullscreen),
        task_of(Command::ToggleHelp, situation) == Task::ShowHelp(!situation.help_visible),
        task_of(
            Command::ToggleHelp,
            Situation { help_visible: !situation.help_visible, ..situation },
        ) == Task::ShowHelp(situation.help_visible),
{
}

/// What to say once playback was paused or went on. The screen is kept from blanking
/// exactly while a video plays.
pub fn playback_notice(playing: bool) -> (result: &'static str)
    ensures
        result@ == if playing {
            "Play"@
        } else {
            "Paused"@
        },
{
    if playing {
        "Play"
    } else {
        "Paused"
    }
}

pub fn mute_notice(muted: bool) -> (result: &'static str)
    ensures
        result@ == if muted {
            "Muted"@
        } else {
            "Sound on"@
        },
{
    if muted {
        "Muted"
    } else {
        "Sound on"
    }
}

/// What to say after subtitles were toggled or cycled: nothing where there are none.
pub fn subtitle_notice(snapshot: &SubtitleSnapshot) -> (result: Option<String>)
    ensures
        match result {
            Some(text) => snapshot.tracks@.len() > 0 && text@ == subtitle_text(
                subtitle_views(snapshot.tracks@),
                snapshot.choice@,
                optional(snapshot.active_label),
            ),
            None => snapshot.tracks@.len() == 0,
        },
{
    if snapshot.tracks.len() == 0 {
        None
    } else {
        Some(subtitle_choice_text(snapshot))
    }
}

/// What to say after an audio track was asked for: nothing where nothing changed.
pub fn audio_notice(changed: bool, snapshot: &AudioSnapshot) -> (result: Option<String>)
    ensures
        match result {
            Some(text) => changed && text@ == audio_text(
                audio_views(snapshot.tracks@),
                snapshot.choice@,
                optional(snapshot.active_label),
            ),
            None => !changed,
        },
{
    if changed {
        Some(audio_choice_text(snapshot))
    } else {
        None
    }
}

/// Stepping on and then back leads to the file that was shown, wherever stepping on led
/// to another one; the arrows do just that while the image cannot be moved.
pub proof fn left_undoes_right(
    state: WorkspaceState,
    situation: Situation,
    course: Course,
    from: int,
    to: int,
)
    requires
        !state.marking,
        state.has_navigation,
        !state.pannable,
        course.wf(),
        course.current == Some(from),
        course.next(false) == Some(to),
    ensures
        Action::Right.meaning(state) matches Some(command) && task_of(command, situation)
            == Task::Navigate(Direction::Next),
        Action::Left.meaning(state) matches Some(command) && task_of(command, situation)
            == Task::Navigate(Direction::Previous),
        to == from + 1,
        course.selected(to).prev(false) == Some(from),
{
}

/// What goes back goes as far as what goes on: a seek ten seconds, the volume ten
/// percent, and an image its step against the arrow.
pub proof fn opposites_go_equally_far(situation: Situation, rate: u32)
    requires
        situation.rate == Some(rate),
    ensures
        task_of(Command::Seek(1), situation) == Task::SeekBy(10_000_000_000),
        task_of(Command::Seek((-1) as i8), situation) == Task::SeekBy((-10_000_000_000) as i64),
        task_of(Command::ChangeVolume(1), situation) == Task::ChangeVolume(10),
        task_of(Command::ChangeVolume((-1) as i8), situation) == Task::ChangeVolume((-10) as i32),
        task_of(Command::Pan(1, 0), situation) == Task::Pan((-64) as i64, 0),
        task_of(Command::Pan((-1) as i32, 0), situation) == Task::Pan(64, 0),
        task_of(Command::Pan(0, 1), situation) == Task::Pan(0, (-64) as i64),
        task_of(Command::Pan(0, (-1) as i32), situation) == Task::Pan(0, 64),
        task_of(Command::ResetSpeed, situation) == Task::SetRate(100),
{
}

/// Zooming out takes back a zoom in.
pub proof fn zoom_steps_undo_each_other(situation: Situation)
    ensures
        task_of(Command::ZoomIn, situation) matches Task::ZoomBy(closer) && task_of(
            Command::ZoomOut,
            situation,
        ) matches Task::ZoomBy(further) && closer > 100 && closer * further == 10_000,
        task_of(Command::ZoomFit, situation) == Task::ZoomFit,
        task_of(Command::ZoomActual, situation) == Task::ZoomActual,
        task_of(Command::ZoomToggle, situation) == Task::ZoomToggle,
{
}

/// The first file is at the start of the folder and the last at its end; stepping goes
/// the way it is asked.
pub proof fn browsing_goes_where_asked(situation: Situation)
    requires
        situation.count > 0,
    ensures
        task_of(Command::First, situation) == Task::ShowIndex(0),
        task_of(Command::Last, situation) matches Task::ShowIndex(at) && at + 1 == situation.count,
        task_of(Command::Next, situation) == Task::Navigate(Direction::Next),
        task_of(Command::Previous, situation) == Task::Navigate(Direction::Previous),
        task_of(Command::OpenFile, situation) == Task::ChooseMediaFile,
        task_of(Command::OpenFolder, situation) == Task::ChooseFolder,
{
}

/// What needs a video does nothing without one, and hands on what was chosen with one.
pub proof fn choices_reach_the_video(
    situation: Situation,
    rate: u32,
    subtitle: SubtitleChoice,
    audio: AudioChoice,
    speed: u32,
)
    ensures
        ({
            let with = Situation { rate: Some(rate), ..situation };
            &&& task_of(Command::SelectSubtitle(subtitle), with) == Task::SelectSubtitle(subtitle)
            &&& task_of(Command::SelectAudio(audio), with) == Task::SelectAudio(audio)
            &&& task_of(Command::SetSpeed(speed), with) == Task::SetRate(speed)
            &&& task_of(Command::ToggleMute, with) == Task::ToggleMute
            &&& task_of(Command::ToggleSubtitles, with) == Task::ToggleSubtitles
            &&& task_of(Command::CycleSubtitles, with) == Task::CycleSubtitles
            &&& task_of(Command::TogglePlayback, with) == Task::TogglePlayback
            &&& task_of(Command::OpenSubtitle, situation) == Task::ChooseSubtitle
            &&& situation.rate is None ==> {
                &&& task_of(Command::SelectSubtitle(subtitle), situation) == Task::Nothing
                &&& task_of(Command::SelectAudio(audio), situation) == Task::Nothing
                &&& task_of(Command::SetSpeed(speed), situation) == Task::Nothing
                &&& task_of(Command::ToggleMute, situation) == Task::Nothing
                &&& task_of(Command::ToggleSubtitles, situation) == Task::Nothing
                &&& task_of(Command::CycleSubtitles, situation) == Task::Nothing
                &&& task_of(Command::ResetSpeed, situation) == Task::Nothing
                &&& task_of(Command::Seek(1), situation) == Task::Nothing
                &&& task_of(Command::ChangeVolume(1), situation) == Task::Nothing
                &&& !situation.animated ==> task_of(Command::TogglePlayback, situation)
                    == Task::Nothing
            }
        }),
{
}

/// Every other command asks for the task of its name.
pub proof fn commands_keep_their_meaning(situation: Situation, turns: i8)
    ensures
        task_of(Command::Rotate(turns), situation) == Task::Rotate(turns),
        task_of(Command::ToggleMarkup, situation) == Task::ToggleMarkup,
        task_of(Command::MarkupBox, situation) == Task::SetTool(Tool::Box),
        task_of(Command::MarkupArrow, situation) == Task::SetTool(Tool::Arrow),
        task_of(Command::CopyMarkup, situation) == Task::CopyMarkup,
        task_of(Command::ClearMarkup, situation) == Task::ClearMarkup,
        task_of(Command::Save, situation) == Task::Save,
        task_of(Command::Trash, situation) == Task::Trash,
        task_of(Command::MarkupUndo, situation) == Task::UndoMarkup,
        task_of(Command::TrashUndo, situation) == Task::UndoTrash,
        task_of(Command::CancelMarkupDraft, situation) == Task::CancelMarkupDraft,
        task_of(Command::CancelMarkup, situation) == Task::CancelMarkup,
        task_of(Command::HideHelp, situation) == Task::ShowHelp(false),
        task_of(Command::LeaveFullscreen, situation) == Task::SetFullscreen(false),
        task_of(Command::Close, situation) == Task::Close,
{
}

}
