//! The menus as data: what stands in them, in which order, and what each entry does.
use vstd::prelude::*;

use crate::player::tracks::{
    audio_views, subtitle_views, target_of, AudioChoice, AudioSnapshot, Choice, SubtitleChoice,
    SubtitleSnapshot, Track,
};
use crate::player::{playback_rates, rates};
use crate::window::action::{action_name, Action};
use crate::window::readout::{format_playback_rate, rate_text};

verus! {

/// An entry of a menu.
#[derive(Debug, Clone, PartialEq, Eq)]
pub struct MenuItem {
    pub label: String,
    /// The registered name of the action that it activates.
    pub action: String,
    /// The parameter of the action.
    pub target: Option<String>,
}

/// An entry as a value.
#[verifier::ext_equal]
pub struct Entry {
    pub label: Seq<char>,
    pub action: Seq<char>,
    pub target: Option<Seq<char>>,
}

impl View for MenuItem {
    type V = Entry;

    open spec fn view(&self) -> Entry {
        Entry {
            label: self.label@,
            action: self.action@,
            target: match self.target {
                Some(target) => Some(target@),
                None => None,
            },
        }
    }
}

pub open spec fn entries(list: Seq<MenuItem>) -> Seq<Entry> {
    Seq::new(list.len(), |i: int| list[i]@)
}

/// An entry that activates an action without a parameter.
pub open spec fn plain(label: Seq<char>, action: Action) -> Entry {
    Entry { label, action: "win."@ + action_name(action), target: None }
}

/// An entry that activates an action with a parameter.
pub open spec fn aimed(label: Seq<char>, action: Action, target: Seq<char>) -> Entry {
    Entry { label, action: "win."@ + action_name(action), target: Some(target) }
}

fn plain_item(label: &str, action: Action) -> (result: MenuItem)
    ensures
        result@ == plain(label@, action),
{
    MenuItem { label: label.to_owned(), action: action.detailed_name(), target: None }
}

fn aimed_item(label: &str, action: Action, target: String) -> (result: MenuItem)
    ensures
        result@ == aimed(label@, action, target@),
{
    MenuItem { label: label.to_owned(), action: action.detailed_name(), target: Some(target) }
}

/// Both ways to open something, shared by the button's menu and the context menu.
pub open spec fn open_entries() -> Seq<Entry> {
    seq![plain("Open File…"@, Action::OpenFile), plain("Open Folder…"@, Action::OpenFolder)]
}

pub fn open_menu_model() -> (result: Vec<MenuItem>)
    ensures
        entries(result@) == open_entries(),
{
    let result = vec![
        plain_item("Open File…", Action::OpenFile),
        plain_item("Open Folder…", Action::OpenFolder),
    ];
    assert(entries(result@) =~= open_entries());
    result
}

/// The less frequent commands.
pub open spec fn more_entries() -> Seq<Entry> {
    seq![
        plain("Fit to Window"@, Action::ZoomFit),
        plain("Actual Size"@, Action::ZoomActual),
        plain("Rotate Left"@, Action::RotateCounterclockwise),
        plain("Rotate Right"@, Action::RotateClockwise),
        plain("First File"@, Action::First),
        plain("Last File"@, Action::Last),
    ]
}

pub fn more_menu_model() -> (result: Vec<MenuItem>)
    ensures
        entries(result@) == more_entries(),
{
    let result = vec![
        plain_item("Fit to Window", Action::ZoomFit),
        plain_item("Actual Size", Action::ZoomActual),
        plain_item("Rotate Left", Action::RotateCounterclockwise),
        plain_item("Rotate Right", Action::RotateClockwise),
        plain_item("First File", Action::First),
        plain_item("Last File", Action::Last),
    ];
    assert(entries(result@) =~= more_entries());
    result
}

/// An entry for a rate, in hundredths.
#[derive(Debug, Clone, PartialEq, Eq)]
pub struct SpeedItem {
    pub label: String,
    pub rate: u32,
}

/// One entry for each preset, in their order.
pub fn playback_speed_menu() -> (result: Vec<SpeedItem>)
    ensures
        result@.len() == rates().len(),
        forall|i: int|
            0 <= i < result@.len() ==> (#[trigger] result@[i]).rate == rates()[i]
                && result@[i].label@ == rate_text(rates()[i] as nat),
{
    let list = playback_rates();
    let mut result: Vec<SpeedItem> = Vec::new();
    for i in 0..list.len()
        invariant
            list@ == rates(),
            result@.len() == i,
            forall|k: int|
                0 <= k < i ==> (#[trigger] result@[k]).rate == rates()[k] && result@[k].label@
                    == rate_text(rates()[k] as nat),
    {
        result.push(SpeedItem { label: format_playback_rate(list[i]), rate: list[i] });
    }
    result
}

/// One entry for each track, in their order.
pub open spec fn track_entries(tracks: Seq<Track>, action: Action) -> Seq<Entry> {
    Seq::new(
        tracks.len(),
        |i: int| aimed(tracks[i].label, action, target_of(Choice::Track(tracks[i].id))),
    )
}

/// The audio menu: the automatic choice, then the tracks.
pub open spec fn audio_entries(tracks: Seq<Track>) -> Seq<Entry> {
    seq![aimed("Automatic"@, Action::AudioSelect, target_of(Choice::Automatic))] + track_entries(
        tracks,
        Action::AudioSelect,
    )
}

pub fn audio_menu(snapshot: &AudioSnapshot) -> (result: Vec<MenuItem>)
    ensures
        entries(result@) == audio_entries(audio_views(snapshot.tracks@)),
{
    let ghost tracks = audio_views(snapshot.tracks@);
    let mut result: Vec<MenuItem> = Vec::new();
    result.push(
        aimed_item("Automatic", Action::AudioSelect, AudioChoice::Automatic.action_target()),
    );
    for i in 0..snapshot.tracks.len()
        invariant
            tracks == audio_views(snapshot.tracks@),
            entries(result@) == audio_entries(tracks.take(i as int)),
    {
        let ghost before = entries(result@);
        let track = &snapshot.tracks[i];
        let target = AudioChoice::Track(track.id.clone()).action_target();
        result.push(aimed_item(track.label.as_str(), Action::AudioSelect, target));
        assert(entries(result@) =~= before.push(result@.last()@));
        assert(entries(result@) =~= audio_entries(tracks.take(i + 1)));
    }
    assert(tracks.take(tracks.len() as int) =~= tracks);
    result
}

/// The subtitle menu always offers to add a file; choices follow where there are tracks.
#[derive(Debug, Clone, PartialEq, Eq)]
pub struct SubtitleMenu {
    pub add: MenuItem,
    pub choices: Vec<MenuItem>,
}

pub open spec fn subtitle_entries(tracks: Seq<Track>) -> Seq<Entry> {
    if tracks.len() == 0 {
        Seq::empty()
    } else {
        seq![
            aimed("Automatic"@, Action::SubtitleSelect, target_of(Choice::Automatic)),
            aimed("Off"@, Action::SubtitleSelect, target_of(Choice::Off)),
        ] + track_entries(tracks, Action::SubtitleSelect)
    }
}

pub fn subtitle_menu(snapshot: &SubtitleSnapshot) -> (result: SubtitleMenu)
    ensures
        result.add@ == plain("Add External Subtitle…"@, Action::SubtitleOpen),
        entries(result.choices@) == subtitle_entries(subtitle_views(snapshot.tracks@)),
{
    let ghost tracks = subtitle_views(snapshot.tracks@);
    let add = plain_item("Add External Subtitle…", Action::SubtitleOpen);
    let mut choices: Vec<MenuItem> = Vec::new();
    if snapshot.tracks.len() == 0 {
        assert(entries(choices@) =~= subtitle_entries(tracks));
        return SubtitleMenu { add, choices };
    }
    choices.push(
        aimed_item("Automatic", Action::SubtitleSelect, SubtitleChoice::Automatic.action_target()),
    );
    choices.push(aimed_item("Off", Action::SubtitleSelect, SubtitleChoice::Off.action_target()));
    let ghost head = entries(choices@);
    assert(head + track_entries(tracks.take(0), Action::SubtitleSelect) =~= head);
    for i in 0..snapshot.tracks.len()
        invariant
            tracks == subtitle_views(snapshot.tracks@),
            entries(choices@) == head + track_entries(
                tracks.take(i as int),
                Action::SubtitleSelect,
            ),
    {
        let ghost before = entries(choices@);
        let track = &snapshot.tracks[i];
        let target = SubtitleChoice::Track(track.id.clone()).action_target();
        choices.push(aimed_item(track.label.as_str(), Action::SubtitleSelect, target));
        assert(entries(choices@) =~= before.push(choices@.last()@));
        assert(entries(choices@) =~= head + track_entries(
            tracks.take(i + 1),
            Action::SubtitleSelect,
        ));
    }
    assert(tracks.take(tracks.len() as int) =~= tracks);
    assert(entries(choices@) =~= subtitle_entries(tracks));
    SubtitleMenu { add, choices }
}

/// What the context menu adds for the medium on screen. What does not apply is absent
/// instead of disabled.
#[derive(Debug, Clone, PartialEq, Eq)]
pub struct ContextMenu {
    pub markup: Vec<MenuItem>,
    /// Whether the audio menu is offered.
    pub audio: bool,
    /// Whether the subtitle menu is offered.
    pub subtitles: bool,
}

pub fn context_menu(markup_available: bool, video: bool, audio_tracks: usize) -> (result:
    ContextMenu)
    ensures
        entries(result.markup@) == (if markup_available {
            seq![plain("Quick Markup"@, Action::Markup)]
        } else {
            Seq::empty()
        }),
        result.audio == (video && audio_tracks > 1),
        result.subtitles == video,
{
    let mut markup: Vec<MenuItem> = Vec::new();
    if markup_available {
        markup.push(plain_item("Quick Markup", Action::Markup));
        assert(entries(markup@) =~= seq![plain("Quick Markup"@, Action::Markup)]);
    } else {
        assert(entries(markup@) =~= Seq::empty());
    }
    ContextMenu { markup, audio: video && audio_tracks > 1, subtitles: video }
}

/// Every entry activates the action that it names: it is registered under `win.`, and
/// carries what it aims at.
pub proof fn entries_activate_their_actions(label: Seq<char>, action: Action, target: Seq<char>)
    ensures
        plain(label, action).label == label,
        plain(label, action).action == "win."@ + action_name(action),
        plain(label, action).target is None,
        aimed(label, action, target).label == label,
        aimed(label, action, target).action == "win."@ + action_name(action),
        aimed(label, action, target).target == Some(target),
{
}

/// The entries to open something, and the less frequent commands, in their order.
pub proof fn commands_stand_in_their_menus()
    ensures
        open_entries().len() == 2,
        open_entries()[0] == (Entry {
            label: "Open File…"@,
            action: "win."@ + "open-file"@,
            target: None,
        }),
        open_entries()[1] == (Entry {
            label: "Open Folder…"@,
            action: "win."@ + "open-folder"@,
            target: None,
        }),
        more_entries().len() == 6,
        more_entries()[0] == (Entry {
            label: "Fit to Window"@,
            action: "win."@ + "zoom-fit"@,
            target: None,
        }),
        more_entries()[1] == (Entry {
            label: "Actual Size"@,
            action: "win."@ + "zoom-actual"@,
            target: None,
        }),
        more_entries()[2] == (Entry {
            label: "Rotate Left"@,
            action: "win."@ + "rotate-ccw"@,
            target: None,
        }),
        more_entries()[3] == (Entry {
            label: "Rotate Right"@,
            action: "win."@ + "rotate-cw"@,
            target: None,
        }),
        more_entries()[4] == (Entry {
            label: "First File"@,
            action: "win."@ + "first"@,
            target: None,
        }),
        more_entries()[5] == (Entry {
            label: "Last File"@,
            action: "win."@ + "last"@,
            target: None,
        }),
{
}

/// Each track has an entry of its own, under its label, that chooses it; the entry
/// that leaves the choice open comes first, and subtitles can be turned off.
pub proof fn tracks_stand_in_their_menus(tracks: Seq<Track>, at: int)
    requires
        0 <= at < tracks.len(),
    ensures
        audio_entries(tracks).len() == tracks.len() + 1,
        audio_entries(tracks)[0] == (Entry {
            label: "Automatic"@,
            action: "win."@ + "audio"@,
            target: Some("auto"@),
        }),
        audio_entries(tracks)[at + 1] == (Entry {
            label: tracks[at].label,
            action: "win."@ + "audio"@,
            target: Some("track:"@ + tracks[at].id),
        }),
        subtitle_entries(tracks).len() == tracks.len() + 2,
        subtitle_entries(tracks)[0] == (Entry {
            label: "Automatic"@,
            action: "win."@ + "subtitle"@,
            target: Some("auto"@),
        }),
        subtitle_entries(tracks)[1] == (Entry {
            label: "Off"@,
            action: "win."@ + "subtitle"@,
            target: Some("off"@),
        }),
        subtitle_entries(tracks)[at + 2] == (Entry {
            label: tracks[at].label,
            action: "win."@ + "subtitle"@,
            target: Some("track:"@ + tracks[at].id),
        }),
        subtitle_entries(Seq::empty()).len() == 0,
{
}

}
