//! What is on screen, and what follows when something is opened, shown, decoded or lost.
use vstd::prelude::*;

use crate::annotation::{Sketch, Status, MAX_SHAPES};
use crate::config::{
    has_extension, image_extension_list, image_extensions, is_subtitle, is_supported, is_video,
    lowercase_ext, one_of, subtitle_path, supported_path, video_extension_list, video_extensions,
    video_path, words,
};
use crate::folder::{as_int, lossy, lossy_text, position, Course, Navigation};
use crate::loader::scheduler::Interest;
use crate::loader::{Cache, DecodedKind, Store};
use crate::paths::{
    copy_bytes, file_name, file_name_of, parent, parent_of, place, same_path, views,
};
use crate::viewer::{Display, Medium, State};
use crate::window::action::{Media, WorkspaceState};
use crate::window::controls::Savable;
use crate::window::readout::{place_text, position_text};

verus! {

/// Consecutive undecodable files navigation will step over before it gives up and shows
/// the error. A folder of unreadable files must not spin, and with wrap on it would
/// otherwise loop forever.
pub const SKIP_BUDGET: u32 = 32;

#[derive(Debug, Clone, Copy, PartialEq, Eq, Structural)]
pub enum Direction {
    Previous,
    Next,
}

/// Why an image is being shown, which decides what a decode failure means: a file the
/// user opened explicitly shows its error, while one merely stepped over on the way
/// through a folder is skipped.
#[derive(Debug, Clone, Copy, PartialEq, Eq, Structural)]
pub enum Arrival {
    Direct,
    Step { direction: Direction, budget: u32 },
}

/// The mutually exclusive states of the media area.
#[derive(Debug, Clone, PartialEq, Eq)]
pub enum MediaState {
    Empty,
    Loading(Vec<u8>),
    Image { path: Vec<u8>, kind: DecodedKind, mime: String },
    Video(Vec<u8>),
    Error(Vec<u8>),
}

impl MediaState {
    /// The file that is on screen.
    pub open spec fn at(self) -> Option<Seq<u8>> {
        match self {
            MediaState::Loading(path) => Some(path@),
            MediaState::Image { path, .. } => Some(path@),
            MediaState::Video(path) => Some(path@),
            MediaState::Error(path) => Some(path@),
            MediaState::Empty => None,
        }
    }

    pub fn path(&self) -> (result: Option<&[u8]>)
        ensures
            match result {
                Some(path) => self.at() == Some(path@),
                None => self.at() is None,
            },
    {
        match self {
            MediaState::Loading(path) => Some(path.as_slice()),
            MediaState::Image { path, .. } => Some(path.as_slice()),
            MediaState::Video(path) => Some(path.as_slice()),
            MediaState::Error(path) => Some(path.as_slice()),
            MediaState::Empty => None,
        }
    }

    /// What actions see of it: only still pictures can be marked up.
    pub open spec fn shows(self) -> Media {
        match self {
            MediaState::Empty => Media::Empty,
            MediaState::Loading(_) => Media::Loading,
            MediaState::Image { kind, .. } => match kind {
                DecodedKind::Static => Media::Image { markup_available: true },
                DecodedKind::Svg => Media::Image { markup_available: false },
                DecodedKind::Animated => Media::Animation,
            },
            MediaState::Video(_) => Media::Video,
            MediaState::Error(_) => Media::Error,
        }
    }

    pub fn media(&self) -> (result: Media)
        ensures
            result == self.shows(),
    {
        match self {
            MediaState::Empty => Media::Empty,
            MediaState::Loading(_) => Media::Loading,
            MediaState::Image { kind, .. } => match kind {
                DecodedKind::Static => Media::Image { markup_available: true },
                DecodedKind::Svg => Media::Image { markup_available: false },
                DecodedKind::Animated => Media::Animation,
            },
            MediaState::Video(_) => Media::Video,
            MediaState::Error(_) => Media::Error,
        }
    }

    pub fn is_video(&self) -> (result: bool)
        ensures
            result == (self.shows() == Media::Video),
    {
        match self {
            MediaState::Video(_) => true,
            _ => false,
        }
    }

    pub fn markup_available(&self) -> (result: bool)
        ensures
            result == (self.shows() == (Media::Image { markup_available: true })),
    {
        match self {
            MediaState::Image { kind, .. } => *kind == DecodedKind::Static,
            _ => false,
        }
    }

    /// What saving a rotation sees of it.
    pub fn savable(&self) -> (result: Savable)
        ensures
            match (result, *self) {
                (Savable::Image { kind, mime }, MediaState::Image { kind: of, mime: named, .. }) => kind
                    == of && mime@ == named@,
                (Savable::Image { .. }, _) => false,
                (Savable::Video, shown) => shown is Video,
                (Savable::Nothing, shown) => !(shown is Image) && !(shown is Video),
            },
    {
        match self {
            MediaState::Image { kind, mime, .. } => Savable::Image {
                kind: *kind,
                mime: mime.clone(),
            },
            MediaState::Video(_) => Savable::Video,
            _ => Savable::Nothing,
        }
    }
}

/// Gathers what actions depend on.
pub fn workspace_state(
    media: &MediaState,
    navigation: &Navigation,
    view: &State,
    pannable: bool,
    can_save: bool,
    can_undo_trash: bool,
    help_visible: bool,
    fullscreen: bool,
) -> (result: WorkspaceState)
    ensures
        ({
            let sketch = view@.annotation;
            let draft = sketch matches Some(found) && found.draft is Some;
            let shapes = sketch matches Some(found) && found.shapes.len() > 0;
            result == WorkspaceState {
                media: media.shows(),
                has_navigation: navigation@.items().len() > 0,
                pannable,
                marking: sketch is Some,
                markup_draft: draft,
                markup_shapes: shapes,
                markup_can_copy: shapes && !draft,
                markup_can_undo: sketch matches Some(found) && found.can_undo(),
                can_save,
                can_undo_trash,
                help_visible,
                fullscreen,
            }
        }),
{
    let draft = view.markup_has_draft();
    let (shapes, can_undo) = match view.markup_status() {
        Some(status) => (status.shape_count > 0, status.can_undo),
        None => (false, false),
    };
    WorkspaceState {
        media: media.media(),
        has_navigation: !navigation.is_empty(),
        pannable,
        marking: view.is_marking_up(),
        markup_draft: draft,
        markup_shapes: shapes,
        markup_can_copy: shapes && !draft,
        markup_can_undo: can_undo,
        can_save,
        can_undo_trash,
        help_visible,
        fullscreen,
    }
}

/// The file that commands act on: the current destination, or else what is on screen.
pub open spec fn current(course: Course, media: MediaState) -> Option<Seq<u8>> {
    match course.current_path() {
        Some(path) => Some(path),
        None => media.at(),
    }
}

pub fn current_path(navigation: &Navigation, media: &MediaState) -> (result: Option<Vec<u8>>)
    ensures
        match result {
            Some(path) => current(navigation@, *media) == Some(path@),
            None => current(navigation@, *media) is None,
        },
{
    match navigation.current_path() {
        Some(path) => Some(copy_bytes(path)),
        None => match media.path() {
            Some(path) => Some(copy_bytes(path)),
            None => None,
        },
    }
}

/// What is known of whether a path leads anywhere.
#[derive(Debug, Clone, PartialEq, Eq)]
pub enum Existence {
    Present,
    Missing,
    /// It could not be looked at; holds why.
    Unknown(String),
}

/// Why a directly requested path was excluded from its folder. A vanished download is
/// not mislabeled as an unsupported format.
pub open spec fn exclusion(existence: Existence, supported: bool) -> Seq<char> {
    match existence {
        Existence::Missing => "file does not exist"@,
        Existence::Unknown(why) => "cannot access path: "@ + why@,
        Existence::Present => if supported {
            "not a regular file"@
        } else {
            "unsupported file type"@
        },
    }
}

pub fn excluded_path_message(path: &[u8], existence: &Existence) -> (result: String)
    ensures
        result@ == exclusion(*existence, supported_path(path@)),
{
    match existence {
        Existence::Missing => "file does not exist".to_owned(),
        Existence::Unknown(why) => "cannot access path: ".to_owned().concat(why.as_str()),
        Existence::Present => if is_supported(path) {
            "not a regular file".to_owned()
        } else {
            "unsupported file type".to_owned()
        },
    }
}

/// What follows once a folder has been read to open something in it.
#[derive(Debug, Clone, PartialEq, Eq)]
pub enum OpenPlan {
    Show(usize),
    Fail(String),
}

/// A requested file is shown where its folder holds it; otherwise the reason is told.
pub fn plan_open_file(navigation: &Navigation, path: &[u8], existence: &Existence) -> (result:
    OpenPlan)
    ensures
        match result {
            OpenPlan::Show(index) => navigation@.contains(path@) && index == position(
                navigation@.items(),
                path@,
            ),
            OpenPlan::Fail(message) => !navigation@.contains(path@) && message@ == exclusion(
                *existence,
                supported_path(path@),
            ),
        },
{
    match navigation.index_of(path) {
        Some(index) => OpenPlan::Show(index),
        None => OpenPlan::Fail(excluded_path_message(path, existence)),
    }
}

/// A requested folder is entered at its first file.
pub fn plan_open_folder(navigation: &Navigation) -> (result: OpenPlan)
    ensures
        match result {
            OpenPlan::Show(index) => navigation@.items().len() > 0 && index == 0,
            OpenPlan::Fail(message) => navigation@.items().len() == 0 && message@
                == "no supported media in this folder"@,
        },
{
    if navigation.is_empty() {
        OpenPlan::Fail("no supported media in this folder".to_owned())
    } else {
        OpenPlan::Show(0)
    }
}

/// What follows when something was chosen in a dialog.
#[derive(Debug, Clone, Copy, PartialEq, Eq)]
pub enum ChoicePlan {
    Accept,
    Refuse(&'static str),
}

pub open spec fn refusal(plan: ChoicePlan) -> Option<Seq<char>> {
    match plan {
        ChoicePlan::Accept => None,
        ChoicePlan::Refuse(text) => Some(text@),
    }
}

/// Only local files of a supported type are opened.
pub fn plan_media_choice(chosen: Option<&[u8]>) -> (result: ChoicePlan)
    ensures
        refusal(result) == match chosen {
            Some(path) => if supported_path(path@) {
                None
            } else {
                Some("Only supported media files can be opened"@)
            },
            None => Some("Only local media files can be opened"@),
        },
{
    match chosen {
        Some(path) => if is_supported(path) {
            ChoicePlan::Accept
        } else {
            ChoicePlan::Refuse("Only supported media files can be opened")
        },
        None => ChoicePlan::Refuse("Only local media files can be opened"),
    }
}

/// Whether a video is on screen and it is the one at a path.
pub open spec fn still_showing(course: Course, media: MediaState, video: Seq<u8>) -> bool {
    &&& media.shows() == Media::Video
    &&& current(course, media) matches Some(path) && place(path) == place(video)
}

/// A subtitle file is attached to the video that it was chosen for, and to no other.
pub fn plan_subtitle_choice(
    chosen: Option<&[u8]>,
    video: &[u8],
    navigation: &Navigation,
    media: &MediaState,
) -> (result: ChoicePlan)
    ensures
        refusal(result) == match chosen {
            Some(path) => if !subtitle_path(path@) {
                Some("Only SRT and WebVTT subtitles are supported"@)
            } else if !still_showing(navigation@, *media, video@) {
                Some("The video changed; choose its subtitle again"@)
            } else {
                None
            },
            None => Some("Only local subtitle files are supported"@),
        },
{
    match chosen {
        Some(path) => {
            if !is_subtitle(path) {
                return ChoicePlan::Refuse("Only SRT and WebVTT subtitles are supported");
            }
            let same = match current_path(navigation, media) {
                Some(shown) => same_path(shown.as_slice(), video),
                None => false,
            };
            if media.is_video() && same {
                ChoicePlan::Accept
            } else {
                ChoicePlan::Refuse("The video changed; choose its subtitle again")
            }
        },
        None => ChoicePlan::Refuse("Only local subtitle files are supported"),
    }
}

/// Subtitles need a video and a player to show them.
pub fn plan_attach(media: &MediaState, has_player: bool) -> (result: ChoicePlan)
    ensures
        refusal(result) == (if media.shows() != Media::Video {
            Some("Open a video before adding subtitles"@)
        } else if !has_player {
            Some("Video player is unavailable"@)
        } else {
            None
        }),
{
    if !media.is_video() {
        ChoicePlan::Refuse("Open a video before adding subtitles")
    } else if !has_player {
        ChoicePlan::Refuse("Video player is unavailable")
    } else {
        ChoicePlan::Accept
    }
}

/// Where an open dialog starts: in the folder of what is on screen, and in a folder
/// itself where that is what could not be opened.
pub fn dialog_initial_folder_path(current: Option<&[u8]>, is_directory: bool) -> (result: Option<
    Vec<u8>,
>)
    ensures
        match (result, current) {
            (Some(folder), Some(path)) => if is_directory {
                folder@ == path@
            } else {
                parent(path@) == Some(folder@)
            },
            (None, Some(path)) => !is_directory && parent(path@) is None,
            (found, None) => found is None,
        },
{
    match current {
        Some(path) => if is_directory {
            Some(copy_bytes(path))
        } else {
            parent_of(path)
        },
        None => None,
    }
}

/// Subtitle formats that are deliberately outside what is supported.
pub open spec fn foreign_subtitle_extensions() -> Seq<Seq<char>> {
    seq!["ass"@, "ssa"@, "sub"@, "smi"@, "sami"@, "ttml"@]
}

/// Recognises them, so that dropping one reports the fact rather than replacing the
/// current video with an unsupported-file error.
pub fn looks_like_subtitle(path: &[u8]) -> (result: bool)
    ensures
        result == has_extension(path@, foreign_subtitle_extensions()),
{
    let list: Vec<&'static str> = vec!["ass", "ssa", "sub", "smi", "sami", "ttml"];
    assert(words(list@) =~= foreign_subtitle_extensions());
    match lowercase_ext(path) {
        Some(text) => one_of(text.as_slice(), &list),
        None => false,
    }
}

/// Every extension that the folder model accepts, images first.
pub fn supported_media_extensions() -> (result: Vec<&'static str>)
    ensures
        words(result@) == image_extensions() + video_extensions(),
{
    let mut result = image_extension_list();
    let videos = video_extension_list();
    let ghost images = image_extensions();
    let ghost rest = video_extensions();
    assert(words(result@) =~= images + rest.take(0));
    for i in 0..videos.len()
        invariant
            words(videos@) == rest,
            videos@.len() == rest.len(),
            words(result@) == images + rest.take(i as int),
    {
        let ghost before = words(result@);
        assert(rest[i as int] == videos@[i as int]@);
        result.push(videos[i]);
        assert(words(result@) =~= before.push(videos@[i as int]@));
        assert(words(result@) =~= images + rest.take(i + 1));
    }
    assert(rest.take(rest.len() as int) =~= rest);
    result
}

/// What follows when files are dropped on the window.
#[derive(Debug, Clone, PartialEq, Eq)]
pub enum DropPlan {
    Refuse(&'static str),
    Attach(Vec<u8>),
    Open(Vec<u8>),
}

/// One file at a time: subtitles go to the video, anything else is opened. Files that
/// are not local have no path.
pub fn plan_drop(files: &Vec<Option<Vec<u8>>>) -> (result: DropPlan)
    ensures
        if files@.len() != 1 {
            result matches DropPlan::Refuse(text) && text@ == "Drop one file at a time"@
        } else {
            match files@[0] {
                None => result matches DropPlan::Refuse(text) && text@
                    == "Only local files can be dropped"@,
                Some(path) => if subtitle_path(path@) {
                    result matches DropPlan::Attach(found) && found@ == path@
                } else if has_extension(path@, foreign_subtitle_extensions()) {
                    result matches DropPlan::Refuse(text) && text@
                        == "Only SRT and WebVTT subtitles are supported"@
                } else {
                    result matches DropPlan::Open(found) && found@ == path@
                },
            }
        },
{
    if files.len() != 1 {
        return DropPlan::Refuse("Drop one file at a time");
    }
    match &files[0] {
        None => DropPlan::Refuse("Only local files can be dropped"),
        Some(path) => if is_subtitle(path.as_slice()) {
            DropPlan::Attach(copy_bytes(path.as_slice()))
        } else if looks_like_subtitle(path.as_slice()) {
            DropPlan::Refuse("Only SRT and WebVTT subtitles are supported")
        } else {
            DropPlan::Open(copy_bytes(path.as_slice()))
        },
    }
}

/// How a destination comes on screen.
#[derive(Debug, Clone, Copy, PartialEq, Eq, Structural)]
pub enum ShowPlan {
    Play,
    /// The picture is in the cache.
    Present,
    Decode,
}

/// Videos are streamed, never decoded ahead; pictures come from the cache where they
/// are in it.
pub fn plan_show(path: &[u8], cached: bool) -> (result: ShowPlan)
    ensures
        result == (if video_path(path@) {
            ShowPlan::Play
        } else if cached {
            ShowPlan::Present
        } else {
            ShowPlan::Decode
        }),
{
    if is_video(path) {
        ShowPlan::Play
    } else if cached {
        ShowPlan::Present
    } else {
        ShowPlan::Decode
    }
}

/// The pictures before and after an index. Videos are not among them.
pub open spec fn neighbors(course: Course, index: int) -> Seq<Seq<u8>> {
    let items = course.items();
    let before = if 0 < index <= items.len() && !video_path(items[index - 1].path) {
        seq![items[index - 1].path]
    } else {
        Seq::empty()
    };
    let after = if index + 1 < items.len() && !video_path(items[index + 1].path) {
        seq![items[index + 1].path]
    } else {
        Seq::empty()
    };
    before + after
}

/// What to decode ahead while the file at an index is on screen.
pub fn preload_neighbors(navigation: &Navigation, index: usize) -> (result: Vec<Vec<u8>>)
    requires
        index < usize::MAX,
    ensures
        views(result@) == neighbors(navigation@, index as int),
{
    let mut result: Vec<Vec<u8>> = Vec::new();
    if index > 0 {
        if let Some(path) = navigation.get(index - 1) {
            if !is_video(path) {
                result.push(copy_bytes(path));
            }
        }
    }
    let ghost before = views(result@);
    if let Some(path) = navigation.get(index + 1) {
        if !is_video(path) {
            let copy = copy_bytes(path);
            result.push(copy);
            assert(views(result@) =~= before.push(copy@));
        }
    }
    assert(views(result@) =~= neighbors(navigation@, index as int));
    result
}

/// The paths that a cache does not hold.
pub open spec fn uncached<D>(paths: Seq<Seq<u8>>, store: Store<D>) -> Seq<Seq<u8>>
    decreases paths.len(),
{
    if paths.len() == 0 {
        Seq::empty()
    } else if store.contains(paths.last()) {
        uncached(paths.drop_last(), store)
    } else {
        uncached(paths.drop_last(), store).push(paths.last())
    }
}

/// What is still to be decoded ahead: the neighbors that the cache does not hold.
pub fn neighbors_to_decode<D>(navigation: &Navigation, index: usize, cache: &Cache<D>) -> (result:
    Vec<Vec<u8>>)
    requires
        index < usize::MAX,
    ensures
        views(result@) == uncached(neighbors(navigation@, index as int), cache@),
{
    let near = preload_neighbors(navigation, index);
    let mut result: Vec<Vec<u8>> = Vec::new();
    assert(views(near@).take(0) =~= Seq::<Seq<u8>>::empty());
    assert(views(result@) =~= uncached(views(near@).take(0), cache@));
    for i in 0..near.len()
        invariant
            views(near@).len() == near@.len(),
            views(result@) == uncached(views(near@).take(i as int), cache@),
    {
        let ghost before = views(result@);
        let ghost sofar = views(near@).take(i + 1);
        assert(sofar.drop_last() =~= views(near@).take(i as int));
        assert(sofar.last() == near@[i as int]@);
        if !cache.contains(near[i].as_slice()) {
            let copy = copy_bytes(near[i].as_slice());
            result.push(copy);
            assert(views(result@) =~= before.push(copy@));
        }
    }
    assert(views(near@).take(near@.len() as int) =~= views(near@));
    result
}

/// What becomes of a decode that is over.
#[derive(Debug, Clone, Copy, PartialEq, Eq, Structural)]
pub enum DecodedPlan {
    /// Nobody wants the result any more.
    Discard,
    /// Keep the picture in the cache.
    Keep,
    /// Keep it and put it on screen.
    Present,
    /// The file that was to be shown did not decode.
    Fail(Arrival),
}

/// A result reaches the screen only while its destination is the current one; what was
/// wanted when it was decoded is kept either way.
pub fn plan_decoded(
    interest: Option<Interest<(u64, Arrival)>>,
    success: bool,
    navigation: &Navigation,
) -> (result: DecodedPlan)
    ensures
        result == match interest {
            None => DecodedPlan::Discard,
            Some(Interest::Neighbor) => if success {
                DecodedPlan::Keep
            } else {
                DecodedPlan::Discard
            },
            Some(Interest::Foreground(wanted)) => if wanted.0 == navigation@.generation {
                if success {
                    DecodedPlan::Present
                } else {
                    DecodedPlan::Fail(wanted.1)
                }
            } else if success {
                DecodedPlan::Keep
            } else {
                DecodedPlan::Discard
            },
        },
{
    match interest {
        None => DecodedPlan::Discard,
        Some(Interest::Neighbor) => if success {
            DecodedPlan::Keep
        } else {
            DecodedPlan::Discard
        },
        Some(Interest::Foreground((generation, arrival))) => if navigation.is_current_generation(
            generation,
        ) {
            if success {
                DecodedPlan::Present
            } else {
                DecodedPlan::Fail(arrival)
            }
        } else if success {
            DecodedPlan::Keep
        } else {
            DecodedPlan::Discard
        },
    }
}

/// Where a decode failure at an index leads: onward in the direction of travel, or
/// nowhere, to stop and show the error.
pub open spec fn skip(course: Course, index: int, arrival: Arrival, wrap: bool) -> Option<int> {
    match (arrival, course.shelf) {
        (Arrival::Step { direction, budget }, Some(shelf)) => if budget == 0 {
            None
        } else {
            match direction {
                Direction::Next => shelf.after(index, wrap),
                Direction::Previous => shelf.before(index, wrap),
            }
        },
        _ => None,
    }
}

pub fn skip_target(navigation: &Navigation, index: usize, arrival: Arrival, wrap: bool) -> (result:
    Option<usize>)
    ensures
        as_int(result) == skip(navigation@, index as int, arrival, wrap),
{
    match arrival {
        Arrival::Direct => None,
        Arrival::Step { direction, budget } => if budget == 0 {
            None
        } else {
            match direction {
                Direction::Next => navigation.next_from(index, wrap),
                Direction::Previous => navigation.prev_from(index, wrap),
            }
        },
    }
}

/// Which file is shown next, and how it is come to.
#[derive(Debug, Clone, Copy, PartialEq, Eq, Structural)]
pub struct Step {
    pub index: usize,
    pub arrival: Arrival,
}

/// A file did not decode. Stepping through a folder carries on in the direction of
/// travel so that one unreadable file is a hesitation rather than a wall; a file opened
/// directly shows its error, so that the user learns why nothing appeared.
pub fn plan_decode_failure(navigation: &Navigation, arrival: Arrival, wrap: bool) -> (result:
    Option<Step>)
    ensures
        ({
            let target = match navigation@.current {
                Some(index) => skip(navigation@, index, arrival, wrap),
                None => None,
            };
            match (result, arrival) {
                (Some(step), Arrival::Step { direction, budget }) => target == Some(
                    step.index as int,
                ) && step.arrival == (Arrival::Step { direction, budget: (budget - 1) as u32 }),
                (Some(_), Arrival::Direct) => false,
                (None, _) => target is None,
            }
        }),
{
    match arrival {
        Arrival::Direct => None,
        Arrival::Step { direction, budget } => {
            let index = match navigation.current_index() {
                Some(index) => index,
                None => {
                    return None;
                },
            };
            match skip_target(navigation, index, arrival, wrap) {
                Some(index) => Some(
                    Step { index, arrival: Arrival::Step { direction, budget: budget - 1 } },
                ),
                None => None,
            }
        },
    }
}

/// Every step over an undecodable file spends the budget, so that stepping comes to an
/// end even in a folder that wraps around.
pub proof fn skipping_comes_to_an_end(course: Course, index: int, arrival: Arrival, wrap: bool)
    requires
        skip(course, index, arrival, wrap) is Some,
    ensures
        arrival matches Arrival::Step { budget, .. } && budget > 0,
        arrival matches Arrival::Step { direction, .. } ==> skip(
            course,
            index,
            Arrival::Step { direction, budget: 0 },
            wrap,
        ) is None,
        skip(course, index, Arrival::Direct, wrap) is None,
{
}

/// What a step through the folder does.
#[derive(Debug, Clone, Copy, PartialEq, Eq)]
pub enum NavigatePlan {
    Show(Step),
    /// There is nothing further; holds what to say.
    End(&'static str),
}

pub fn navigate(navigation: &Navigation, direction: Direction, wrap: bool) -> (result: NavigatePlan)
    ensures
        ({
            let target = match direction {
                Direction::Next => navigation@.next(wrap),
                Direction::Previous => navigation@.prev(wrap),
            };
            match result {
                NavigatePlan::Show(step) => target == Some(step.index as int) && step.arrival == (
                Arrival::Step { direction, budget: SKIP_BUDGET }),
                NavigatePlan::End(text) => target is None && text@ == match direction {
                    Direction::Next => "Last image"@,
                    Direction::Previous => "First image"@,
                },
            }
        }),
{
    let target = match direction {
        Direction::Next => navigation.next(wrap),
        Direction::Previous => navigation.prev(wrap),
    };
    match target {
        Some(index) => NavigatePlan::Show(
            Step { index, arrival: Arrival::Step { direction, budget: SKIP_BUDGET } },
        ),
        None => NavigatePlan::End(
            match direction {
                Direction::Next => "Last image",
                Direction::Previous => "First image",
            },
        ),
    }
}

/// Takes down what is on screen so that work already in flight finds itself superseded.
pub fn clear_media(navigation: &mut Navigation, media: &mut MediaState)
    requires
        old(navigation)@.wf(),
    ensures
        final(navigation)@ == old(navigation)@.bumped(),
        final(navigation)@.wf(),
        *final(media) == MediaState::Empty,
{
    navigation.supersede();
    *media = MediaState::Empty;
}

/// Puts an error on screen. The position in the folder is kept only where the error is
/// of the current destination.
pub fn show_error(navigation: &mut Navigation, media: &mut MediaState, path: &[u8])
    requires
        old(navigation)@.wf(),
    ensures
        final(navigation)@.wf(),
        final(navigation)@ == (if old(navigation)@.is_current(path@) {
            old(navigation)@.bumped()
        } else {
            (Course { current: None, ..old(navigation)@.bumped() }).bumped()
        }),
        *final(media) matches MediaState::Error(shown) && shown@ == path@,
{
    let belongs_to_destination = navigation.is_current(path);
    clear_media(navigation, media);
    if !belongs_to_destination {
        navigation.clear_current();
    }
    *media = MediaState::Error(copy_bytes(path));
}

/// Nothing is on screen and no position is held.
pub fn empty_state(navigation: &mut Navigation, media: &mut MediaState)
    requires
        old(navigation)@.wf(),
    ensures
        final(navigation)@.wf(),
        final(navigation)@ == (Course { current: None, ..old(navigation)@.bumped() }).bumped(),
        *final(media) == MediaState::Empty,
{
    clear_media(navigation, media);
    navigation.clear_current();
}

/// After an error the file that it is of is the one that commands act on.
pub proof fn errors_keep_their_file(before: Course, path: Seq<u8>, media: MediaState)
    requires
        media matches MediaState::Error(shown) && shown@ == path,
    ensures
        before.is_current(path) ==> (current(before.bumped(), media) matches Some(found) && place(
            found,
        ) == place(path)),
        !before.is_current(path) ==> current(
            (Course { current: None, ..before.bumped() }).bumped(),
            media,
        ) == Some(path),
{
}

/// The name that the title and the overlay show of a file.
pub open spec fn name_of(path: Seq<u8>) -> Option<Seq<char>> {
    match file_name(path) {
        Some(name) => Some(lossy_text(name)),
        None => None,
    }
}

pub fn shown_name(path: Option<&[u8]>) -> (result: Option<String>)
    ensures
        match (result, path) {
            (Some(name), Some(found)) => name_of(found@) == Some(name@),
            (None, Some(found)) => name_of(found@) is None,
            (name, None) => name is None,
        },
{
    match path {
        Some(found) => match file_name_of(found) {
            Some(name) => Some(lossy(name.as_slice())),
            None => None,
        },
        None => None,
    }
}

/// What an error puts where the image would be: the file's name, or the whole path as
/// it is displayed where it has none, and the message below.
pub fn error_text(path: &[u8], displayed: &str, message: &str) -> (result: String)
    ensures
        result@ == match name_of(path@) {
            Some(name) => name,
            None => displayed@,
        } + "\n\n"@ + message@,
{
    let name = match shown_name(Some(path)) {
        Some(name) => name,
        None => displayed.to_owned(),
    };
    name.concat("\n\n").concat(message)
}

/// Where the current file stands in its folder; nothing where there is none.
pub fn position_label(navigation: &Navigation) -> (result: String)
    requires
        navigation@.wf(),
    ensures
        result@ == match navigation@.current {
            Some(index) => place_text(index as nat, navigation@.items().len()),
            None => Seq::empty(),
        },
{
    match navigation.current_index() {
        Some(index) => position_text(index, navigation.len()),
        None => {
            let text = String::new();
            assert(text@ =~= Seq::empty());
            text
        },
    }
}

/// What the player reports. Descriptions are those of the pipeline.
#[derive(Debug, Clone, PartialEq, Eq)]
pub enum PlayerEvent {
    EndOfStream,
    Error(String),
    MissingVideoDecoder(String),
    SubtitleError(String),
    AudioChanged,
    SubtitlesChanged,
    PlaybackRateError(String),
}

/// What follows a report of the player.
#[derive(Debug, Clone, PartialEq, Eq)]
pub enum PlayerPlan {
    Nothing,
    Rewind,
    /// Stop the video and say why, where a file is known.
    Stop { file: Option<Vec<u8>>, message: String },
    Toast(String),
    UpdateAudio,
    UpdateSubtitles,
    /// Show the rate that playback really has, and say what went wrong.
    RestoreRate(String),
}

/// A failure of the video is told whatever is on screen; everything else concerns only a
/// video that is showing. At its end a video starts over unless it is told not to.
pub fn plan_player_event(
    event: &PlayerEvent,
    media: &MediaState,
    navigation: &Navigation,
    loop_video: bool,
) -> (result: PlayerPlan)
    ensures
        ({
            let showing = media.shows() == Media::Video;
            let stopped = |plan: PlayerPlan, text: Seq<char>|
                plan matches PlayerPlan::Stop { file, message } && message@ == text && match file {
                    Some(path) => current(navigation@, *media) == Some(path@),
                    None => current(navigation@, *media) is None,
                };
            match *event {
                PlayerEvent::EndOfStream => result == (if showing && loop_video {
                    PlayerPlan::Rewind
                } else {
                    PlayerPlan::Nothing
                }),
                PlayerEvent::Error(text) => stopped(result, text@),
                PlayerEvent::MissingVideoDecoder(text) => stopped(
                    result,
                    "video decoder unavailable: "@ + text@,
                ),
                PlayerEvent::SubtitleError(text) => if showing {
                    result matches PlayerPlan::Toast(said) && said@ == text@
                } else {
                    result is Nothing
                },
                PlayerEvent::AudioChanged => result == (if showing {
                    PlayerPlan::UpdateAudio
                } else {
                    PlayerPlan::Nothing
                }),
                PlayerEvent::SubtitlesChanged => result == (if showing {
                    PlayerPlan::UpdateSubtitles
                } else {
                    PlayerPlan::Nothing
                }),
                PlayerEvent::PlaybackRateError(text) => if showing {
                    result matches PlayerPlan::RestoreRate(said) && said@ == text@
                } else {
                    result is Nothing
                },
            }
        }),
{
    let showing = media.is_video();
    match event {
        PlayerEvent::EndOfStream => if showing && loop_video {
            PlayerPlan::Rewind
        } else {
            PlayerPlan::Nothing
        },
        PlayerEvent::Error(text) => PlayerPlan::Stop {
            file: current_path(navigation, media),
            message: text.clone(),
        },
        PlayerEvent::MissingVideoDecoder(text) => PlayerPlan::Stop {
            file: current_path(navigation, media),
            message: "video decoder unavailable: ".to_owned().concat(text.as_str()),
        },
        PlayerEvent::SubtitleError(text) => if showing {
            PlayerPlan::Toast(text.clone())
        } else {
            PlayerPlan::Nothing
        },
        PlayerEvent::AudioChanged => if showing {
            PlayerPlan::UpdateAudio
        } else {
            PlayerPlan::Nothing
        },
        PlayerEvent::SubtitlesChanged => if showing {
            PlayerPlan::UpdateSubtitles
        } else {
            PlayerPlan::Nothing
        },
        PlayerEvent::PlaybackRateError(text) => if showing {
            PlayerPlan::RestoreRate(text.clone())
        } else {
            PlayerPlan::Nothing
        },
    }
}

/// What asking for Quick Markup did.
#[derive(Debug, Clone, Copy, PartialEq, Eq, Structural)]
pub enum MarkupToggle {
    Started,
    Cancelled,
    /// There is no still picture to mark up.
    Refused,
}

/// Ends a markup that is going on; otherwise begins one on a still picture.
pub fn toggle_markup(view: &mut State, media: &MediaState) -> (result: MarkupToggle)
    requires
        old(view)@.wf(),
    ensures
        final(view)@.wf(),
        ({
            let still = media.shows() == (Media::Image { markup_available: true }) && old(view)@.medium
                == Some(Medium::Texture);
            if old(view)@.annotation is Some {
                &&& result == MarkupToggle::Cancelled
                &&& final(view)@ == (Display { annotation: None, ..old(view)@ })
            } else if still {
                &&& result == MarkupToggle::Started
                &&& final(view)@ == old(view)@.with_sketch(Sketch::fresh())
            } else {
                &&& result == MarkupToggle::Refused
                &&& final(view)@ == old(view)@
            }
        }),
{
    if view.cancel_markup() {
        return MarkupToggle::Cancelled;
    }
    assert(view@ =~= old(view)@);
    if media.markup_available() && view.start_markup() {
        MarkupToggle::Started
    } else {
        MarkupToggle::Refused
    }
}

/// What to say when a markup holds as many shapes as it can.
pub fn markup_notice(status: Status) -> (result: Option<&'static str>)
    ensures
        match result {
            Some(text) => status.shape_count == MAX_SHAPES && text@
                == "Quick Markup limit reached; undo or clear a shape"@,
            None => status.shape_count != MAX_SHAPES,
        },
{
    if status.shape_count == MAX_SHAPES {
        Some("Quick Markup limit reached; undo or clear a shape")
    } else {
        None
    }
}

/// The file on screen is the one that the media area was given, whatever it makes
/// of it; an empty area shows none.
pub proof fn the_file_on_screen_is_told(path: Vec<u8>, kind: DecodedKind, mime: String)
    ensures
        MediaState::Loading(path).at() == Some(path@),
        (MediaState::Image { path, kind, mime }).at() == Some(path@),
        MediaState::Video(path).at() == Some(path@),
        MediaState::Error(path).at() == Some(path@),
        MediaState::Empty.at() is None,
{
}

/// Only one still picture can be marked up: no animation, no drawing, no video.
pub proof fn only_stills_are_marked_up(media: MediaState)
    ensures
        media.shows() == (Media::Image { markup_available: true }) <==> (media is Image
            && media->kind == DecodedKind::Static),
        media.shows() == (Media::Image { markup_available: false }) <==> (media is Image
            && media->kind == DecodedKind::Svg),
        media.shows() == Media::Animation <==> (media is Image && media->kind
            == DecodedKind::Animated),
        media.shows() == Media::Video <==> media is Video,
        media.shows() == Media::Loading <==> media is Loading,
        media.shows() == Media::Error <==> media is Error,
        media.shows() == Media::Empty <==> media is Empty,
{
}

/// Commands act on the current destination where the folder has one, even while
/// another file is still on screen; without one, on what is on screen.
pub proof fn commands_act_on_the_destination(course: Course, media: MediaState, index: int)
    ensures
        course.current == Some(index) && 0 <= index < course.items().len() ==> current(
            course,
            media,
        ) == Some(course.items()[index].path),
        course.current is None && media is Empty ==> current(course, media) is None,
        course.current is None ==> (media matches MediaState::Video(path) ==> current(course, media)
            == Some(path@)),
        course.current is None ==> (media matches MediaState::Image { path, .. } ==> current(
            course,
            media,
        ) == Some(path@)),
        course.current is None ==> (media matches MediaState::Error(path) ==> current(course, media)
            == Some(path@)),
        course.current is None ==> (media matches MediaState::Loading(path) ==> current(
            course,
            media,
        ) == Some(path@)),
{
}

/// A file that is gone is said to be gone, whatever its type; one that is there is
/// refused for its type, or else for what it is.
pub proof fn exclusions_tell_why(existence: Existence, supported: bool)
    ensures
        existence is Missing ==> exclusion(existence, supported) == "file does not exist"@,
        existence is Present && !supported ==> exclusion(existence, supported)
            == "unsupported file type"@,
        existence is Present && supported ==> exclusion(existence, supported)
            == "not a regular file"@,
        existence matches Existence::Unknown(why) ==> exclusion(existence, supported)
            == "cannot access path: "@ + why@,
{
}

/// A subtitle meets the video it was chosen for: another file, another medium or
/// none at all is not that video.
pub proof fn subtitles_meet_their_video(course: Course, media: MediaState, video: Seq<u8>, index: int)
    ensures
        !(media is Video) ==> !still_showing(course, media, video),
        course.current == Some(index) && 0 <= index < course.items().len() && place(
            course.items()[index].path,
        ) != place(video) ==> !still_showing(course, media, video),
        course.current == Some(index) && 0 <= index < course.items().len() && place(
            course.items()[index].path,
        ) == place(video) && media is Video ==> still_showing(course, media, video),
        course.current is None ==> (media matches MediaState::Video(path) ==> still_showing(
            course,
            media,
            video,
        ) == (place(path@) == place(video))),
{
}

/// Decoded ahead are the pictures next to the one on screen and nothing else: never
/// a video, never the file itself, at most one on each side, the one before first.
pub proof fn pictures_next_to_it_are_decoded_ahead(course: Course, index: int, path: Seq<u8>)
    requires
        0 <= index < course.items().len(),
    ensures
        neighbors(course, index).contains(path) <==> !video_path(path) && ((index > 0
            && course.items()[index - 1].path == path) || (index + 1 < course.items().len()
            && course.items()[index + 1].path == path)),
        neighbors(course, index).len() <= 2,
        neighbors(course, index).len() == 2 ==> neighbors(course, index)[0]
            == course.items()[index - 1].path && neighbors(course, index)[1]
            == course.items()[index + 1].path,
{
    let items = course.items();
    let list = neighbors(course, index);
    if index > 0 && items[index - 1].path == path && !video_path(path) {
        assert(list[0] == path);
    }
    if index + 1 < items.len() && items[index + 1].path == path && !video_path(path) {
        assert(list[list.len() - 1] == path);
    }
}

/// What is still to be decoded is what the cache does not hold.
pub proof fn held_pictures_are_not_decoded<D>(paths: Seq<Seq<u8>>, store: Store<D>, path: Seq<u8>)
    ensures
        uncached(paths, store).contains(path) <==> paths.contains(path) && !store.contains(path),
    decreases paths.len(),
{
    if paths.len() > 0 {
        let before = paths.drop_last();
        held_pictures_are_not_decoded(before, store, path);
        let less = uncached(before, store);
        let all = uncached(paths, store);
        if paths.contains(path) {
            let m = choose|m: int| 0 <= m < paths.len() && paths[m] == path;
            if m < before.len() {
                assert(before[m] == path);
            } else if !store.contains(path) {
                assert(all[less.len() as int] == path);
            }
        }
        if before.contains(path) {
            let m = choose|m: int| 0 <= m < before.len() && before[m] == path;
            assert(paths[m] == path);
        }
        if less.contains(path) {
            let m = choose|m: int| 0 <= m < less.len() && less[m] == path;
            assert(all[m] == path);
        }
        if all.contains(path) && !less.contains(path) {
            let m = choose|m: int| 0 <= m < all.len() && all[m] == path;
            if m < less.len() {
                assert(less[m] == path);
            }
            assert(paths[paths.len() - 1] == path);
        }
    }
}

/// Stepping over a file that does not decode goes on the way it came: to the file
/// after it going forward, to the one before it going back.
pub proof fn skipping_goes_on_the_same_way(course: Course, index: int, budget: u32, wrap: bool)
    requires
        budget > 0,
        0 <= index < course.items().len(),
    ensures
        index + 1 < course.items().len() ==> skip(
            course,
            index,
            Arrival::Step { direction: Direction::Next, budget },
            wrap,
        ) == Some(index + 1),
        index > 0 ==> skip(
            course,
            index,
            Arrival::Step { direction: Direction::Previous, budget },
            wrap,
        ) == Some(index - 1),
        index + 1 == course.items().len() ==> skip(
            course,
            index,
            Arrival::Step { direction: Direction::Next, budget },
            wrap,
        ) == (if wrap {
            Some(0int)
        } else {
            None
        }),
        index == 0 ==> skip(
            course,
            index,
            Arrival::Step { direction: Direction::Previous, budget },
            wrap,
        ) == (if wrap {
            Some(course.items().len() - 1)
        } else {
            None
        }),
        skip(course, index, Arrival::Direct, wrap) is None,
{
}

/// A file is called by the last part of its path.
pub proof fn files_are_called_by_their_names(path: Seq<u8>)
    ensures
        file_name(path) is Some ==> name_of(path) == Some(lossy_text(file_name(path)->0)),
        file_name(path) is None ==> name_of(path) is None,
{
}

/// The subtitle formats that are told apart from media, though none is read.
pub proof fn foreign_subtitles_are_known(extension: Seq<char>)
    ensures
        foreign_subtitle_extensions().contains(extension) <==> (extension == "ass"@ || extension
            == "ssa"@ || extension == "sub"@ || extension == "smi"@ || extension == "sami"@
            || extension == "ttml"@),
{
    let list = foreign_subtitle_extensions();
    assert(list[0] == "ass"@ && list[1] == "ssa"@ && list[2] == "sub"@ && list[3] == "smi"@
        && list[4] == "sami"@ && list[5] == "ttml"@);
}

}
