//! Turns folder-monitor events into ordered navigation mutations and
//! presentation outcomes.
use vstd::prelude::*;

use crate::config::{is_supported, is_video, supported_path, video_path};
use crate::folder::{
    as_int, facts_of, following, Course, Destination, Facts, FileSnapshot, Navigation, NavigationSetId, Removal,
    RemovalOutcome, RenameOutcome, Renaming, SnapshotKind, Spot,
};
use crate::paths::{copy_bytes, place, same_path, views, Place};
use crate::window::operation::set_of;

verus! {

/// What a folder change asks of the window.
#[derive(Debug, Clone, PartialEq, Eq)]
pub enum FsPresentation {
    Unchanged,
    Show(Destination),
    Empty,
}

/// A presentation as a value.
pub enum Showing {
    Unchanged,
    Show(Spot),
    Empty,
}

impl View for FsPresentation {
    type V = Showing;

    open spec fn view(&self) -> Showing {
        match self {
            FsPresentation::Unchanged => Showing::Unchanged,
            FsPresentation::Show(destination) => Showing::Show(destination@),
            FsPresentation::Empty => Showing::Empty,
        }
    }
}

/// A change of the folder that the navigation set follows.
#[derive(Debug)]
pub enum FsChange {
    PendingRename { old_path: Vec<u8>, new_path: Vec<u8> },
    Remove(Vec<u8>),
    Rename { old_path: Vec<u8>, new_path: Vec<u8>, snapshot: Option<FileSnapshot> },
}

/// A change as a value.
pub enum Change {
    PendingRename(Seq<u8>, Seq<u8>),
    Remove(Seq<u8>),
    Rename(Seq<u8>, Seq<u8>, Option<Facts>),
}

impl View for FsChange {
    type V = Change;

    open spec fn view(&self) -> Change {
        match self {
            FsChange::PendingRename { old_path, new_path } => Change::PendingRename(
                old_path@,
                new_path@,
            ),
            FsChange::Remove(path) => Change::Remove(path@),
            FsChange::Rename { old_path, new_path, snapshot } => Change::Rename(
                old_path@,
                new_path@,
                facts_of(*snapshot),
            ),
        }
    }
}

/// What a rename asks of the window.
pub open spec fn rename_showing(outcome: Renaming) -> Showing {
    match outcome {
        Renaming::Renamed(spot) => Showing::Show(spot),
        Renaming::Removed(Some(spot)) => Showing::Show(spot),
        Renaming::Removed(None) => Showing::Empty,
        Renaming::Preserved => Showing::Unchanged,
    }
}

/// What a removal asks of the window.
pub open spec fn removal_showing(outcome: Removal) -> Showing {
    match outcome {
        Removal::CurrentRemoved(Some(spot)) => Showing::Show(spot),
        Removal::CurrentRemoved(None) => Showing::Empty,
        _ => Showing::Unchanged,
    }
}

/// Navigation after a change.
pub open spec fn changed(course: Course, change: Change) -> Course {
    match change {
        Change::PendingRename(old_path, new_path) => course.renamed(
            old_path,
            new_path,
            course.provisional(old_path, new_path),
        ),
        Change::Remove(path) => course.removed(path),
        Change::Rename(old_path, new_path, facts) => course.renamed(old_path, new_path, facts),
    }
}

/// What a change asks of the window.
pub open spec fn change_showing(course: Course, change: Change) -> Showing {
    match change {
        Change::PendingRename(old_path, new_path) => rename_showing(
            course.renaming(old_path, new_path, course.provisional(old_path, new_path)),
        ),
        Change::Remove(path) => removal_showing(course.removal(path)),
        Change::Rename(old_path, new_path, facts) => rename_showing(
            course.renaming(old_path, new_path, facts),
        ),
    }
}

/// A change that asks nothing of the window leaves the current item current; any
/// other gives it a generation of its own.
pub proof fn unchanged_presentation_keeps_the_current_item(course: Course, change: Change)
    requires
        course.wf(),
    ensures
        changed(course, change).wf(),
        change_showing(course, change) is Unchanged ==> changed(course, change).current_path()
            == course.current_path() && changed(course, change).generation == course.generation,
        !(change_showing(course, change) is Unchanged) ==> changed(course, change).generation
            != course.generation,
        change_showing(course, change) matches Showing::Show(spot) ==> changed(
            course,
            change,
        ).destination() == Some(spot),
{
    match change {
        Change::PendingRename(old_path, new_path) => {
            crate::folder::rename_keeps_the_set_sound(
                course,
                old_path,
                new_path,
                course.provisional(old_path, new_path),
            );
        },
        Change::Remove(path) => {
            if course.is_current(path) {
                crate::folder::position_bounds(course.items(), path);
                if course.contains(path) {
                    crate::folder::removal_keeps_order(course.shelf->0, path);
                } else {
                    let at = course.current->0;
                    assert(crate::folder::is_at(course.items()[at], path));
                }
            } else {
                crate::folder::removal_preserves_another_current(course, path);
            }
        },
        Change::Rename(old_path, new_path, facts) => {
            crate::folder::rename_keeps_the_set_sound(course, old_path, new_path, facts);
        },
    }
}

fn rename_presentation(outcome: RenameOutcome) -> (result: FsPresentation)
    ensures
        result@ == rename_showing(outcome@),
{
    match outcome {
        RenameOutcome::Renamed(destination) => FsPresentation::Show(destination),
        RenameOutcome::Removed(Some(destination)) => FsPresentation::Show(destination),
        RenameOutcome::Removed(None) => FsPresentation::Empty,
        RenameOutcome::Preserved => FsPresentation::Unchanged,
    }
}

/// Applies one already-prepared filesystem mutation to navigation and returns
/// only the presentation work that the window must perform.
pub fn apply_fs_change(navigation: &mut Navigation, change: FsChange) -> (result: FsPresentation)
    requires
        old(navigation)@.wf(),
    ensures
        final(navigation)@ == changed(old(navigation)@, change@),
        final(navigation)@.wf(),
        result@ == change_showing(old(navigation)@, change@),
{
    match change {
        FsChange::PendingRename { old_path, new_path } => rename_presentation(
            navigation.rename_pending(old_path.as_slice(), new_path.as_slice()),
        ),
        FsChange::Remove(path) => match navigation.remove(path.as_slice()) {
            RemovalOutcome::CurrentRemoved(Some(destination)) => FsPresentation::Show(destination),
            RemovalOutcome::CurrentRemoved(None) => FsPresentation::Empty,
            RemovalOutcome::NotFound => FsPresentation::Unchanged,
            RemovalOutcome::CurrentPreserved => FsPresentation::Unchanged,
        },
        FsChange::Rename { old_path, new_path, snapshot } => rename_presentation(
            navigation.rename(old_path.as_slice(), new_path.as_slice(), snapshot),
        ),
    }
}

fn is_set(navigation: &Navigation, set: NavigationSetId) -> (result: bool)
    ensures
        result == (set_of(navigation@) == Some(set)),
{
    match navigation.set_id() {
        Some(current) => current == set,
        None => false,
    }
}

/// Applies a change, unless it belongs to a folder that is no longer open.
pub fn apply_fs_change_for_set(
    navigation: &mut Navigation,
    set: NavigationSetId,
    change: FsChange,
) -> (result: Option<FsPresentation>)
    requires
        old(navigation)@.wf(),
    ensures
        final(navigation)@.wf(),
        match result {
            Some(presentation) => set_of(old(navigation)@) == Some(set) && final(navigation)@
                == changed(old(navigation)@, change@) && presentation@ == change_showing(
                old(navigation)@,
                change@,
            ),
            None => set_of(old(navigation)@) != Some(set) && final(navigation)@
                == old(navigation)@,
        },
{
    if is_set(navigation, set) {
        Some(apply_fs_change(navigation, change))
    } else {
        None
    }
}

/// What the window does about an applied change.
#[derive(Debug, Clone, PartialEq, Eq)]
pub enum FsAction {
    Unchanged,
    /// Present the destination now.
    Show(Destination),
    /// Keep the destination loading until its metadata arrives.
    AwaitMetadata(Destination),
    Empty,
}

/// An action as a value.
pub enum Doing {
    Unchanged,
    Show(Spot),
    AwaitMetadata(Spot),
    Empty,
}

impl View for FsAction {
    type V = Doing;

    open spec fn view(&self) -> Doing {
        match self {
            FsAction::Unchanged => Doing::Unchanged,
            FsAction::Show(destination) => Doing::Show(destination@),
            FsAction::AwaitMetadata(destination) => Doing::AwaitMetadata(destination@),
            FsAction::Empty => Doing::Empty,
        }
    }
}

/// The effects of an applied change beside the navigation set.
#[derive(Debug)]
pub struct FsEffects {
    /// Paths whose cached and running decodes are of replaced contents.
    pub invalidated: Vec<Vec<u8>>,
    pub action: FsAction,
    /// The removed path, where the change was a removal.
    pub removed: Option<Vec<u8>>,
    pub before_generation: u64,
}

/// The paths that a change touches.
pub open spec fn touched(change: Change) -> Seq<Seq<u8>> {
    match change {
        Change::PendingRename(old_path, new_path) => seq![old_path, new_path],
        Change::Remove(path) => seq![path],
        Change::Rename(old_path, new_path, _) => seq![old_path, new_path],
    }
}

/// The action for a change: a file on the move is presented once its metadata is
/// known, everything else at once.
pub open spec fn action_for(course: Course, change: Change) -> Doing {
    match change_showing(course, change) {
        Showing::Unchanged => Doing::Unchanged,
        Showing::Empty => Doing::Empty,
        Showing::Show(spot) => match change {
            Change::PendingRename(_, new_path) => if place(new_path) == place(spot.path) {
                Doing::AwaitMetadata(spot)
            } else {
                Doing::Show(spot)
            },
            _ => Doing::Show(spot),
        },
    }
}

/// Applies a change and says everything that follows from it. Both sides of a
/// rename are invalidated, so that a new destination cannot use a cached result
/// or join a running decode of replaced contents.
pub fn change_folder(
    navigation: &mut Navigation,
    set: NavigationSetId,
    change: FsChange,
) -> (result: Option<FsEffects>)
    requires
        old(navigation)@.wf(),
    ensures
        final(navigation)@.wf(),
        match result {
            Some(effects) => {
                &&& set_of(old(navigation)@) == Some(set)
                &&& final(navigation)@ == changed(old(navigation)@, change@)
                &&& views(effects.invalidated@) == touched(change@)
                &&& effects.action@ == action_for(old(navigation)@, change@)
                &&& effects.before_generation == old(navigation)@.generation
                &&& match effects.removed {
                    Some(path) => change@ == Change::Remove(path@),
                    None => !(change@ is Remove),
                }
            },
            None => set_of(old(navigation)@) != Some(set) && final(navigation)@
                == old(navigation)@,
        },
{
    let mut invalidated: Vec<Vec<u8>> = Vec::new();
    let mut removed: Option<Vec<u8>> = None;
    let mut target: Option<Vec<u8>> = None;
    match &change {
        FsChange::PendingRename { old_path, new_path } => {
            invalidated.push(copy_bytes(old_path.as_slice()));
            invalidated.push(copy_bytes(new_path.as_slice()));
            target = Some(copy_bytes(new_path.as_slice()));
        },
        FsChange::Remove(path) => {
            invalidated.push(copy_bytes(path.as_slice()));
            removed = Some(copy_bytes(path.as_slice()));
        },
        FsChange::Rename { old_path, new_path, snapshot: _ } => {
            invalidated.push(copy_bytes(old_path.as_slice()));
            invalidated.push(copy_bytes(new_path.as_slice()));
        },
    }
    assert(views(invalidated@) =~= touched(change@));
    let before_generation: u64 = navigation.generation();
    match apply_fs_change_for_set(navigation, set, change) {
        Some(presentation) => {
            let action = match presentation {
                FsPresentation::Unchanged => FsAction::Unchanged,
                FsPresentation::Empty => FsAction::Empty,
                FsPresentation::Show(destination) => {
                    let awaited = match &target {
                        Some(path) => same_path(path.as_slice(), destination.path.as_slice()),
                        None => false,
                    };
                    if awaited {
                        FsAction::AwaitMetadata(destination)
                    } else {
                        FsAction::Show(destination)
                    }
                },
            };
            Some(FsEffects { invalidated, action, removed, before_generation })
        },
        None => None,
    }
}

/// The kinds of folder-monitor events that matter.
#[derive(Debug, Clone, Copy, PartialEq, Eq, Structural)]
pub enum FsEvent {
    Changed,
    ChangesDone,
    Created,
    MovedIn,
    Deleted,
    MovedOut,
    Renamed,
    Other,
}

/// What an event leads to.
#[derive(Debug)]
pub enum FsPlan {
    Ignore,
    /// Contents changed.
    Refresh(Vec<u8>),
    /// A file appeared: its contents changed, and its metadata is to be read.
    RefreshAndQuery(Vec<u8>),
    /// A file went; running metadata queries of it are stale.
    Remove(Vec<u8>),
    /// A file moved; running queries of both paths are stale. The metadata of the
    /// new path is to be read where it can be shown.
    Rename { old_path: Vec<u8>, new_path: Vec<u8>, query: bool },
}

/// A plan as a value.
pub enum Plan {
    Ignore,
    Refresh(Seq<u8>),
    RefreshAndQuery(Seq<u8>),
    Remove(Seq<u8>),
    Rename(Seq<u8>, Seq<u8>, bool),
}

impl View for FsPlan {
    type V = Plan;

    open spec fn view(&self) -> Plan {
        match self {
            FsPlan::Ignore => Plan::Ignore,
            FsPlan::Refresh(path) => Plan::Refresh(path@),
            FsPlan::RefreshAndQuery(path) => Plan::RefreshAndQuery(path@),
            FsPlan::Remove(path) => Plan::Remove(path@),
            FsPlan::Rename { old_path, new_path, query } => Plan::Rename(
                old_path@,
                new_path@,
                *query,
            ),
        }
    }
}

pub open spec fn path_view(path: Option<Vec<u8>>) -> Option<Seq<u8>> {
    match path {
        Some(bytes) => Some(bytes@),
        None => None,
    }
}

/// What an event of the open folder leads to.
pub open spec fn plan_of(event: FsEvent, path: Option<Seq<u8>>, other: Option<Seq<u8>>) -> Plan {
    match (event, path) {
        (FsEvent::Changed, Some(p)) => Plan::Refresh(p),
        (FsEvent::ChangesDone, Some(p)) => Plan::Refresh(p),
        (FsEvent::Created, Some(p)) => if supported_path(p) {
            Plan::RefreshAndQuery(p)
        } else {
            Plan::Ignore
        },
        (FsEvent::MovedIn, Some(p)) => if supported_path(p) {
            Plan::RefreshAndQuery(p)
        } else {
            Plan::Ignore
        },
        (FsEvent::Deleted, Some(p)) => Plan::Remove(p),
        (FsEvent::MovedOut, Some(p)) => Plan::Remove(p),
        (FsEvent::Renamed, Some(p)) => match other {
            Some(q) => Plan::Rename(p, q, supported_path(q)),
            None => Plan::Ignore,
        },
        _ => Plan::Ignore,
    }
}

/// Decides what a monitor event leads to. Events of a folder that is no longer
/// open, and events during shutdown, lead to nothing.
pub fn plan_fs_event(
    navigation: &Navigation,
    set: NavigationSetId,
    shutting_down: bool,
    event: FsEvent,
    path: Option<Vec<u8>>,
    other: Option<Vec<u8>>,
) -> (result: FsPlan)
    ensures
        result@ == (if set_of(navigation@) != Some(set) || shutting_down {
            Plan::Ignore
        } else {
            plan_of(event, path_view(path), path_view(other))
        }),
{
    if !is_set(navigation, set) || shutting_down {
        return FsPlan::Ignore;
    }
    let path = match path {
        Some(path) => path,
        None => return FsPlan::Ignore,
    };
    match event {
        FsEvent::Changed => FsPlan::Refresh(path),
        FsEvent::ChangesDone => FsPlan::Refresh(path),
        FsEvent::Created | FsEvent::MovedIn => if is_supported(path.as_slice()) {
            FsPlan::RefreshAndQuery(path)
        } else {
            FsPlan::Ignore
        },
        FsEvent::Deleted | FsEvent::MovedOut => FsPlan::Remove(path),
        FsEvent::Renamed => match other {
            Some(new_path) => {
                let query = is_supported(new_path.as_slice());
                FsPlan::Rename { old_path: path, new_path, query }
            },
            None => FsPlan::Ignore,
        },
        FsEvent::Other => FsPlan::Ignore,
    }
}

/// What changed contents of a path mean for the window.
#[derive(Debug, Clone, Copy, PartialEq, Eq, Structural)]
pub enum Invalidation {
    /// Not an image: nothing is cached of it.
    NotAnImage,
    /// Cached and running decodes are stale.
    Stale,
    /// They are stale, and the image at this index is on screen.
    Current(usize),
}

pub open spec fn image_only(path: Seq<u8>) -> bool {
    supported_path(path) && !video_path(path)
}

/// Stops work for old contents without choosing what to load next. Work for the
/// current destination is superseded where its contents changed.
pub fn invalidate_image(navigation: &mut Navigation, path: &[u8]) -> (result: Invalidation)
    requires
        old(navigation)@.wf(),
    ensures
        final(navigation)@.wf(),
        match result {
            Invalidation::NotAnImage => !image_only(path@) && final(navigation)@
                == old(navigation)@,
            Invalidation::Stale => image_only(path@) && !old(navigation)@.is_current(path@)
                && final(navigation)@ == old(navigation)@,
            Invalidation::Current(index) => image_only(path@) && old(navigation)@.is_current(path@)
                && old(navigation)@.current == Some(index as int) && final(navigation)@ == old(navigation)@.bumped(),
        },
{
    if !is_supported(path) || is_video(path) {
        return Invalidation::NotAnImage;
    }
    if !navigation.is_current(path) {
        return Invalidation::Stale;
    }
    match navigation.current_index() {
        Some(index) => {
            navigation.supersede();
            Invalidation::Current(index)
        },
        None => Invalidation::Stale,
    }
}

/// The index to load again once a burst of content changes is over.
pub fn refresh_index(
    navigation: &Navigation,
    set: NavigationSetId,
    path: &[u8],
    shutting_down: bool,
) -> (result: Option<usize>)
    ensures
        as_int(result) == (if shutting_down || set_of(navigation@) != Some(set)
            || !navigation@.is_current(path@) {
            None
        } else {
            navigation@.current
        }),
{
    if shutting_down || !is_set(navigation, set) || !navigation.is_current(path) {
        None
    } else {
        navigation.current_index()
    }
}

/// What a metadata query found.
#[derive(Debug, Clone, Copy, PartialEq, Eq, Structural)]
pub struct FileInfo {
    pub regular: bool,
    pub seconds: u64,
    pub nanoseconds: u32,
}

/// The largest number of seconds since the epoch that a time can have.
pub const LAST_SECOND: i128 = 0x7fff_ffff_ffff_ffff;

const SECOND: i128 = 1_000_000_000;

/// The time of last change in nanoseconds since the epoch; a time too far ahead
/// counts as the epoch.
pub open spec fn modified_time(info: FileInfo) -> int {
    let time = info.seconds * 1_000_000_000 + info.nanoseconds;
    if time / 1_000_000_000 > LAST_SECOND {
        0
    } else {
        time
    }
}

/// The facts of a queried file.
pub fn file_snapshot_from_info(path: Vec<u8>, info: &FileInfo) -> (result: FileSnapshot)
    ensures
        result@ == (Facts {
            path: path@,
            modified: modified_time(*info),
            kind: if info.regular {
                SnapshotKind::Regular
            } else {
                SnapshotKind::Other
            },
        }),
{
    let kind = if info.regular {
        SnapshotKind::Regular
    } else {
        SnapshotKind::Other
    };
    let time: i128 = info.seconds as i128 * SECOND + info.nanoseconds as i128;
    let modified: i128 = if time / SECOND > LAST_SECOND {
        0
    } else {
        time
    };
    FileSnapshot::with_kind(path, modified, kind)
}

/// Why a metadata query failed.
#[derive(Debug, Clone, Copy, PartialEq, Eq, Structural)]
pub enum QueryFailure {
    NotFound,
    Cancelled,
    PermissionDenied,
    Failed,
}

/// A failed metadata query.
#[derive(Debug)]
pub struct QueryError {
    pub kind: QueryFailure,
    pub message: String,
}

/// The snapshot that a query gives. Disappearance is an ordinary race; other
/// failures must not be taken as proof that the file is gone.
pub fn snapshot_from_query(path: Vec<u8>, result: Result<FileInfo, QueryError>) -> (outcome: Result<
    Option<FileSnapshot>,
    QueryError,
>)
    ensures
        match (result, outcome) {
            (Ok(info), Ok(snapshot)) => facts_of(snapshot) == Some(
                Facts {
                    path: path@,
                    modified: modified_time(info),
                    kind: if info.regular {
                        SnapshotKind::Regular
                    } else {
                        SnapshotKind::Other
                    },
                },
            ),
            (Err(error), Ok(snapshot)) => error.kind == QueryFailure::NotFound
                && snapshot is None,
            (Err(error), Err(kept)) => error.kind != QueryFailure::NotFound && kept == error,
            (Ok(_), Err(_)) => false,
        },
{
    match result {
        Ok(info) => Ok(Some(file_snapshot_from_info(path, &info))),
        Err(error) => if error.kind == QueryFailure::NotFound {
            Ok(None)
        } else {
            Err(error)
        },
    }
}

/// What a finished metadata query leads to.
#[derive(Debug)]
pub enum QueryPlan {
    Nothing,
    Apply(FsChange),
    /// Show that the file could not be read.
    ShowError { path: Vec<u8>, message: String },
}

/// Decides what a finished query leads to. `current` says that no newer query of
/// the path was started, `applicable` that its folder is still open, and
/// `loading` is the path that is being loaded, if any.
pub fn plan_query(
    path: Vec<u8>,
    result: Result<FileInfo, QueryError>,
    current: bool,
    applicable: bool,
    loading: Option<&[u8]>,
) -> (plan: QueryPlan)
    ensures
        match plan {
            QueryPlan::Apply(change) => {
                &&& current && applicable
                &&& match result {
                    Ok(info) => change@ == Change::Rename(
                        path@,
                        path@,
                        Some(
                            Facts {
                                path: path@,
                                modified: modified_time(info),
                                kind: if info.regular {
                                    SnapshotKind::Regular
                                } else {
                                    SnapshotKind::Other
                                },
                            },
                        ),
                    ),
                    Err(error) => error.kind == QueryFailure::NotFound && change@
                        == Change::Rename(path@, path@, None),
                }
            },
            QueryPlan::ShowError { path: shown, message } => {
                &&& current && applicable
                &&& result matches Err(error) && error.kind != QueryFailure::NotFound && message@
                    == "Could not read the changed file: "@ + error.message@
                &&& loading matches Some(l) && place(l@) == place(path@) && shown@ == l@
            },
            QueryPlan::Nothing => {
                ||| !(current && applicable)
                ||| (result matches Err(error) && error.kind != QueryFailure::NotFound && !(
                loading matches Some(l) && place(l@) == place(path@)))
            },
        },
{
    match snapshot_from_query(copy_bytes(path.as_slice()), result) {
        Ok(snapshot) => if current && applicable {
            QueryPlan::Apply(
                FsChange::Rename {
                    old_path: copy_bytes(path.as_slice()),
                    new_path: path,
                    snapshot,
                },
            )
        } else {
            QueryPlan::Nothing
        },
        Err(error) => {
            if current && applicable {
                match loading {
                    Some(shown) => if same_path(shown, path.as_slice()) {
                        let mut message = "Could not read the changed file: ".to_owned();
                        message.append(error.message.as_str());
                        return QueryPlan::ShowError { path: copy_bytes(shown), message };
                    },
                    None => {},
                }
            }
            QueryPlan::Nothing
        },
    }
}

/// A metadata query that is running.
struct PendingFsQuery {
    path: Vec<u8>,
    version: u64,
}

/// Per-path versions keep asynchronous metadata queries ordered without
/// retaining history after the last query completes. A query is known by its
/// version; superseding one hands its version back so that it can be cancelled.
pub struct FsQueryVersions {
    next: u64,
    pending: Vec<PendingFsQuery>,
}

/// The version that runs for a place.
spec fn version_at(pending: Seq<PendingFsQuery>, at: Place) -> Option<u64>
    decreases pending.len(),
{
    if pending.len() == 0 {
        None
    } else if place(pending.last().path@) == at {
        Some(pending.last().version)
    } else {
        version_at(pending.drop_last(), at)
    }
}

spec fn places_distinct(pending: Seq<PendingFsQuery>) -> bool {
    forall|i: int, j: int|
        0 <= i < j < pending.len() ==> place(#[trigger] pending[i].path@) != place(
            #[trigger] pending[j].path@,
        )
}

/// Whether a path is one of a list.
pub open spec fn among_paths(at: Place, paths: Seq<Vec<u8>>) -> bool {
    exists|i: int| 0 <= i < paths.len() && place(#[trigger] paths[i]@) == at
}

proof fn version_found(pending: Seq<PendingFsQuery>, index: int)
    requires
        places_distinct(pending),
        0 <= index < pending.len(),
    ensures
        version_at(pending, place(pending[index].path@)) == Some(pending[index].version),
    decreases pending.len(),
{
    if index < pending.len() - 1 {
        let shorter = pending.drop_last();
        assert(place(pending[index].path@) != place(pending[pending.len() - 1].path@));
        assert forall|i: int, j: int| 0 <= i < j < shorter.len() implies place(
            #[trigger] shorter[i].path@,
        ) != place(#[trigger] shorter[j].path@) by {
            assert(place(pending[i].path@) != place(pending[j].path@));
        }
        version_found(shorter, index);
    }
}

proof fn version_absent(pending: Seq<PendingFsQuery>, at: Place)
    requires
        forall|i: int| 0 <= i < pending.len() ==> place(#[trigger] pending[i].path@) != at,
    ensures
        version_at(pending, at) is None,
    decreases pending.len(),
{
    if pending.len() > 0 {
        let shorter = pending.drop_last();
        assert(place(pending[pending.len() - 1].path@) != at);
        assert forall|i: int| 0 <= i < shorter.len() implies place(#[trigger] shorter[i].path@)
            != at by {
            assert(place(pending[i].path@) != at);
        }
        version_absent(shorter, at);
    }
}

proof fn version_somewhere(pending: Seq<PendingFsQuery>, at: Place) -> (index: int)
    requires
        version_at(pending, at) is Some,
    ensures
        0 <= index < pending.len(),
        place(pending[index].path@) == at,
        pending[index].version == version_at(pending, at)->0,
    decreases pending.len(),
{
    if place(pending.last().path@) == at {
        pending.len() - 1
    } else {
        version_somewhere(pending.drop_last(), at)
    }
}

/// Removing one query leaves the versions of every other place.
proof fn version_after_removal(pending: Seq<PendingFsQuery>, index: int, at: Place)
    requires
        places_distinct(pending),
        0 <= index < pending.len(),
    ensures
        places_distinct(pending.remove(index)),
        version_at(pending.remove(index), at) == (if at == place(pending[index].path@) {
            None
        } else {
            version_at(pending, at)
        }),
{
    let rest = pending.remove(index);
    assert forall|i: int, j: int| 0 <= i < j < rest.len() implies place(#[trigger] rest[i].path@)
        != place(#[trigger] rest[j].path@) by {
        let a = if i < index { i } else { i + 1 };
        let b = if j < index { j } else { j + 1 };
        assert(rest[i] == pending[a] && rest[j] == pending[b]);
        assert(place(pending[a].path@) != place(pending[b].path@));
    }
    if at == place(pending[index].path@) {
        assert forall|i: int| 0 <= i < rest.len() implies place(#[trigger] rest[i].path@) != at by {
            let a = if i < index { i } else { i + 1 };
            assert(rest[i] == pending[a]);
            if a < index {
                assert(place(pending[a].path@) != place(pending[index].path@));
            } else {
                assert(place(pending[index].path@) != place(pending[a].path@));
            }
        }
        version_absent(rest, at);
    } else if version_at(pending, at) is Some {
        let k = version_somewhere(pending, at);
        let a = if k < index { k } else { k - 1 };
        assert(rest[a] == pending[k]);
        version_found(rest, a);
    } else {
        if version_at(rest, at) is Some {
            let k = version_somewhere(rest, at);
            let a = if k < index { k } else { k + 1 };
            assert(rest[k] == pending[a]);
            version_found(pending, a);
        }
    }
}

proof fn version_after_push(pending: Seq<PendingFsQuery>, query: PendingFsQuery, at: Place)
    requires
        places_distinct(pending),
        version_at(pending, place(query.path@)) is None,
    ensures
        places_distinct(pending.push(query)),
        version_at(pending.push(query), at) == (if at == place(query.path@) {
            Some(query.version)
        } else {
            version_at(pending, at)
        }),
{
    let more = pending.push(query);
    assert(more.drop_last() =~= pending);
    assert forall|i: int, j: int| 0 <= i < j < more.len() implies place(#[trigger] more[i].path@)
        != place(#[trigger] more[j].path@) by {
        if j < pending.len() {
            assert(place(pending[i].path@) != place(pending[j].path@));
        } else {
            version_found(pending, i);
        }
    }
}

impl FsQueryVersions {
    /// The version of the query that runs for a place.
    pub closed spec fn version_of(self, at: Place) -> Option<u64> {
        version_at(self.pending@, at)
    }

    /// The version of the latest query.
    pub closed spec fn latest(self) -> u64 {
        self.next
    }

    /// No place has two queries.
    pub closed spec fn wf(self) -> bool {
        places_distinct(self.pending@)
    }

    pub fn new() -> (result: Self)
        ensures
            result.wf(),
            forall|at: Place| (#[trigger] result.version_of(at)) is None,
    {
        FsQueryVersions { next: 0, pending: Vec::new() }
    }

    pub fn is_empty(&self) -> (result: bool)
        requires
            self.wf(),
        ensures
            result == (forall|at: Place| (#[trigger] self.version_of(at)) is None),
    {
        let result = self.pending.len() == 0;
        proof {
            if !result {
                version_found(self.pending@, 0);
                assert(self.version_of(place(self.pending@[0].path@)) is Some);
            }
        }
        result
    }

    fn find(&self, path: &[u8]) -> (result: Option<usize>)
        requires
            self.wf(),
        ensures
            match result {
                Some(index) => index < self.pending@.len() && place(
                    self.pending@[index as int].path@,
                ) == place(path@) && self.version_of(place(path@)) == Some(
                    self.pending@[index as int].version,
                ),
                None => self.version_of(place(path@)) is None,
            },
    {
        for i in 0..self.pending.len()
            invariant
                self.wf(),
                forall|j: int| 0 <= j < i ==> place(#[trigger] self.pending@[j].path@) != place(path@),
        {
            if same_path(self.pending[i].path.as_slice(), path) {
                proof {
                    version_found(self.pending@, i as int);
                }
                return Some(i);
            }
        }
        proof {
            version_absent(self.pending@, place(path@));
        }
        None
    }

    /// Forgets the query of a path and returns its version.
    fn release(&mut self, path: &[u8]) -> (result: Option<u64>)
        requires
            old(self).wf(),
        ensures
            final(self).wf(),
            final(self).latest() == old(self).latest(),
            result == old(self).version_of(place(path@)),
            forall|at: Place| #[trigger]
                final(self).version_of(at) == (if at == place(path@) {
                    None
                } else {
                    old(self).version_of(at)
                }),
    {
        let ghost before = self.pending@;
        match self.find(path) {
            Some(index) => {
                let version: u64 = self.pending[index].version;
                self.pending.remove(index);
                proof {
                    version_after_removal(before, index as int, place(path@));
                    assert forall|at: Place| #[trigger]
                        self.version_of(at) == (if at == place(path@) {
                            None
                        } else {
                            version_at(before, at)
                        }) by {
                        version_after_removal(before, index as int, at);
                    }
                }
                Some(version)
            },
            None => None,
        }
    }

    /// Starts a query of the paths. Returns its version, and the versions of the
    /// queries that it supersedes.
    pub fn start(&mut self, paths: &Vec<Vec<u8>>) -> (result: (u64, Vec<u64>))
        requires
            old(self).wf(),
        ensures
            final(self).wf(),
            result.0 == following(old(self).latest()),
            final(self).latest() == result.0,
            forall|at: Place| #[trigger]
                final(self).version_of(at) == (if among_paths(at, paths@) {
                    Some(result.0)
                } else {
                    old(self).version_of(at)
                }),
            forall|version: u64|
                result.1@.contains(version) <==> exists|at: Place|
                    among_paths(at, paths@) && #[trigger] old(self).version_of(at) == Some(version),
    {
        let ghost first = *self;
        let cancelled = self.supersede(paths);
        let ghost cleared = *self;
        let version: u64 = if self.next == u64::MAX {
            0
        } else {
            self.next + 1
        };
        self.next = version;
        for i in 0..paths.len()
            invariant
                self.wf(),
                self.next == version,
                forall|at: Place|
                    among_paths(at, paths@) ==> (#[trigger] cleared.version_of(at)) is None,
                forall|at: Place| #[trigger]
                    self.version_of(at) == (if among_paths(at, paths@.take(i as int)) {
                        Some(version)
                    } else {
                        cleared.version_of(at)
                    }),
        {
            let ghost before = self.pending@;
            let ghost sofar = *self;
            let ghost here = place(paths@[i as int]@);
            assert(among_paths(here, paths@));
            assert(paths@.take(i + 1).drop_last() =~= paths@.take(i as int));
            if self.find(paths[i].as_slice()).is_none() {
                let query = PendingFsQuery { path: copy_bytes(paths[i].as_slice()), version };
                self.pending.push(query);
                proof {
                    version_after_push(before, query, here);
                    assert forall|at: Place| #[trigger]
                        self.version_of(at) == (if at == here {
                            Some(version)
                        } else {
                            sofar.version_of(at)
                        }) by {
                        version_after_push(before, query, at);
                    }
                }
            }
            assert forall|at: Place|
                among_paths(at, paths@.take(i + 1)) == (at == here || among_paths(
                    at,
                    paths@.take(i as int),
                )) by {
                among_one_more(at, paths@, i as int);
            }
        }
        assert(paths@.take(paths@.len() as int) =~= paths@);
        (version, cancelled)
    }

    /// Forgets the queries of the paths. Returns their versions.
    pub fn supersede(&mut self, paths: &Vec<Vec<u8>>) -> (result: Vec<u64>)
        requires
            old(self).wf(),
        ensures
            final(self).wf(),
            final(self).latest() == old(self).latest(),
            forall|at: Place| #[trigger]
                final(self).version_of(at) == (if among_paths(at, paths@) {
                    None
                } else {
                    old(self).version_of(at)
                }),
            forall|version: u64|
                result@.contains(version) <==> exists|at: Place|
                    among_paths(at, paths@) && #[trigger] old(self).version_of(at) == Some(version),
    {
        let ghost first = *self;
        let mut cancelled: Vec<u64> = Vec::new();
        for i in 0..paths.len()
            invariant
                self.wf(),
                self.latest() == first.latest(),
                forall|at: Place| #[trigger]
                    self.version_of(at) == (if among_paths(at, paths@.take(i as int)) {
                        None
                    } else {
                        first.version_of(at)
                    }),
                forall|version: u64|
                    cancelled@.contains(version) <==> exists|at: Place|
                        among_paths(at, paths@.take(i as int)) && #[trigger] first.version_of(at)
                            == Some(version),
        {
            let ghost before = cancelled@;
            let ghost sofar = *self;
            let ghost here = place(paths@[i as int]@);
            let released = self.release(paths[i].as_slice());
            match released {
                Some(version) => {
                    cancelled.push(version);
                },
                None => {},
            }
            proof {
                assert forall|at: Place|
                    among_paths(at, paths@.take(i + 1)) == (at == here || among_paths(
                        at,
                        paths@.take(i as int),
                    )) by {
                    among_one_more(at, paths@, i as int);
                }
                assert forall|version: u64|
                    cancelled@.contains(version) <==> exists|at: Place|
                        among_paths(at, paths@.take(i + 1)) && #[trigger] first.version_of(at)
                            == Some(version) by {
                    if cancelled@.contains(version) {
                        let k = choose|k: int| 0 <= k < cancelled@.len() && cancelled@[k] == version;
                        if k < before.len() {
                            assert(before[k] == version);
                            assert(before.contains(version));
                            let at = choose|at: Place|
                                among_paths(at, paths@.take(i as int))
                                    && #[trigger] first.version_of(at) == Some(version);
                            assert(among_paths(at, paths@.take(i + 1)));
                        } else {
                            assert(sofar.version_of(here) == Some(version));
                            assert(first.version_of(here) == Some(version));
                            assert(among_paths(here, paths@.take(i + 1)));
                        }
                    }
                    if exists|at: Place|
                        among_paths(at, paths@.take(i + 1)) && #[trigger] first.version_of(at)
                            == Some(version) {
                        let at = choose|at: Place|
                            among_paths(at, paths@.take(i + 1)) && #[trigger] first.version_of(at)
                                == Some(version);
                        if among_paths(at, paths@.take(i as int)) {
                            assert(before.contains(version));
                            let k = choose|k: int| 0 <= k < before.len() && before[k] == version;
                            assert(cancelled@[k] == version);
                        } else {
                            assert(sofar.version_of(at) == first.version_of(at));
                            assert(released == Some(version));
                            assert(cancelled@[cancelled@.len() - 1] == version);
                        }
                    }
                }
            }
        }
        assert(paths@.take(paths@.len() as int) =~= paths@);
        cancelled
    }

    /// Ends a query. Returns whether no newer one was started or superseded it.
    pub fn finish(&mut self, paths: &Vec<Vec<u8>>, version: u64) -> (result: bool)
        requires
            old(self).wf(),
        ensures
            final(self).wf(),
            final(self).latest() == old(self).latest(),
            result == (forall|i: int|
                0 <= i < paths@.len() ==> old(self).version_of(place(#[trigger] paths@[i]@))
                    == Some(version)),
            forall|at: Place| #[trigger]
                final(self).version_of(at) == (if among_paths(at, paths@) && old(self).version_of(
                    at,
                ) == Some(version) {
                    None
                } else {
                    old(self).version_of(at)
                }),
    {
        let ghost first = *self;
        let mut current = true;
        for i in 0..paths.len()
            invariant
                self.wf(),
                first == *self,
                current == (forall|k: int|
                    0 <= k < i ==> first.version_of(place(#[trigger] paths@[k]@)) == Some(version)),
        {
            let matching = match self.find(paths[i].as_slice()) {
                Some(index) => self.pending[index].version == version,
                None => false,
            };
            if !matching {
                assert(first.version_of(place(paths@[i as int]@)) != Some(version));
                current = false;
            }
        }
        for i in 0..paths.len()
            invariant
                self.wf(),
                self.latest() == first.latest(),
                forall|at: Place| #[trigger]
                    self.version_of(at) == (if among_paths(at, paths@.take(i as int))
                        && first.version_of(at) == Some(version) {
                        None
                    } else {
                        first.version_of(at)
                    }),
        {
            let ghost here = place(paths@[i as int]@);
            let ghost sofar = *self;
            let matching = match self.find(paths[i].as_slice()) {
                Some(index) => self.pending[index].version == version,
                None => false,
            };
            if matching {
                let _ = self.release(paths[i].as_slice());
            }
            assert forall|at: Place|
                among_paths(at, paths@.take(i + 1)) == (at == here || among_paths(
                    at,
                    paths@.take(i as int),
                )) by {
                among_one_more(at, paths@, i as int);
            }
        }
        assert(paths@.take(paths@.len() as int) =~= paths@);
        current
    }

    /// Forgets every query. Returns their versions.
    pub fn cancel_all(&mut self) -> (result: Vec<u64>)
        requires
            old(self).wf(),
        ensures
            final(self).wf(),
            final(self).latest() == old(self).latest(),
            forall|at: Place| (#[trigger] final(self).version_of(at)) is None,
            forall|version: u64|
                result@.contains(version) <==> exists|at: Place| #[trigger]
                    old(self).version_of(at) == Some(version),
    {
        let ghost first = *self;
        let mut cancelled: Vec<u64> = Vec::new();
        for i in 0..self.pending.len()
            invariant
                first == *self,
                cancelled@.len() == i,
                forall|k: int| 0 <= k < i ==> cancelled@[k] == #[trigger] self.pending@[k].version,
        {
            cancelled.push(self.pending[i].version);
        }
        proof {
            assert forall|version: u64|
                cancelled@.contains(version) <==> exists|at: Place| #[trigger]
                    first.version_of(at) == Some(version) by {
                if cancelled@.contains(version) {
                    let k = choose|k: int| 0 <= k < cancelled@.len() && cancelled@[k] == version;
                    assert(first.pending@[k].version == version);
                    version_found(first.pending@, k);
                    assert(first.version_of(place(first.pending@[k].path@)) == Some(version));
                }
                if exists|at: Place| #[trigger] first.version_of(at) == Some(version) {
                    let at = choose|at: Place| #[trigger] first.version_of(at) == Some(version);
                    let k = version_somewhere(first.pending@, at);
                    assert(cancelled@[k] == first.pending@[k].version);
                }
            }
        }
        self.pending.clear();
        cancelled
    }
}

proof fn among_one_more(at: Place, paths: Seq<Vec<u8>>, index: int)
    requires
        0 <= index < paths.len(),
    ensures
        among_paths(at, paths.take(index + 1)) == (at == place(paths[index]@) || among_paths(
            at,
            paths.take(index),
        )),
{
    let more = paths.take(index + 1);
    let fewer = paths.take(index);
    if among_paths(at, more) {
        let k = choose|k: int| 0 <= k < more.len() && place(#[trigger] more[k]@) == at;
        if k < index {
            assert(fewer[k] == more[k]);
        }
    }
    if among_paths(at, fewer) {
        let k = choose|k: int| 0 <= k < fewer.len() && place(#[trigger] fewer[k]@) == at;
        assert(more[k] == fewer[k]);
    }
    if at == place(paths[index]@) {
        assert(more[index] == paths[index]);
    }
}

impl Default for FsQueryVersions {
    fn default() -> (result: Self)
        ensures
            result.wf(),
            forall|at: Place| (#[trigger] result.version_of(at)) is None,
    {
        FsQueryVersions::new()
    }
}

/// What an event of the open folder leads to: a file that went is taken out, one that came
/// is looked at where it can be shown, one that moved is moved, changed contents are
/// loaded again, and anything else leads to nothing.
pub proof fn events_are_followed(path: Seq<u8>, other: Seq<u8>, event: FsEvent)
    ensures
        plan_of(FsEvent::Deleted, Some(path), None) == Plan::Remove(path),
        plan_of(FsEvent::Deleted, Some(path), Some(other)) == Plan::Remove(path),
        plan_of(FsEvent::MovedOut, Some(path), None) == Plan::Remove(path),
        plan_of(FsEvent::MovedOut, Some(path), Some(other)) == Plan::Remove(path),
        supported_path(path) ==> plan_of(FsEvent::Created, Some(path), None)
            == Plan::RefreshAndQuery(path) && plan_of(FsEvent::MovedIn, Some(path), None)
            == Plan::RefreshAndQuery(path) && plan_of(FsEvent::MovedIn, Some(path), Some(other))
            == Plan::RefreshAndQuery(path),
        !supported_path(path) ==> plan_of(FsEvent::Created, Some(path), None) == Plan::Ignore
            && plan_of(FsEvent::MovedIn, Some(path), None) == Plan::Ignore,
        plan_of(FsEvent::Changed, Some(path), None) == Plan::Refresh(path),
        plan_of(FsEvent::ChangesDone, Some(path), None) == Plan::Refresh(path),
        supported_path(other) ==> plan_of(FsEvent::Renamed, Some(path), Some(other))
            == Plan::Rename(path, other, true),
        !supported_path(other) ==> plan_of(FsEvent::Renamed, Some(path), Some(other))
            == Plan::Rename(path, other, false),
        plan_of(event, None, Some(other)) == Plan::Ignore,
        plan_of(FsEvent::Other, Some(path), Some(other)) == Plan::Ignore,
{
}

/// A file that was deleted or moved away is no longer in the navigation set once its event
/// was followed, while every other file stays in it.
pub proof fn deleted_files_leave_the_set(course: Course, event: FsEvent, path: Seq<u8>, other: Seq<u8>)
    requires
        course.wf(),
        course.distinct(),
        event == FsEvent::Deleted || event == FsEvent::MovedOut,
    ensures
        plan_of(event, Some(path), None) matches Plan::Remove(gone) && {
            &&& gone == path
            &&& !changed(course, Change::Remove(gone)).contains(path)
            &&& place(other) != place(path) ==> (changed(course, Change::Remove(gone)).contains(other)
                <==> course.contains(other))
        },
        course.is_current(path) ==> !(change_showing(course, Change::Remove(path)) is Unchanged),
        course.is_current(path) && course.items().len() > 1 ==> change_showing(
            course,
            Change::Remove(path),
        ) is Show,
        course.is_current(path) && course.items().len() == 1 ==> change_showing(
            course,
            Change::Remove(path),
        ) is Empty,
        !course.is_current(path) ==> change_showing(course, Change::Remove(path)) is Unchanged
            && changed(course, Change::Remove(path)).current_path() == course.current_path(),
{
    crate::folder::removal_leaves_the_others(course, path, other);
    if course.is_current(path) {
        crate::folder::current_removal_keeps_the_nearest_position(course, path);
        crate::folder::current_files_are_contained(course, path);
    } else {
        crate::folder::removal_preserves_another_current(course, path);
    }
}

/// A file that moved is in the set under its new path and no longer under the old one, and
/// where it was shown it still is.
pub proof fn moved_files_follow(course: Course, old_path: Seq<u8>, new_path: Seq<u8>, facts: Facts)
    requires
        course.wf(),
        course.distinct(),
        place(old_path) != place(new_path),
        facts.path == new_path,
        facts.kind == SnapshotKind::Regular,
        course.shelf matches Some(shelf) && shelf.admits(new_path),
    ensures
        ({
            let after = changed(course, Change::Rename(old_path, new_path, Some(facts)));
            &&& after.contains(new_path)
            &&& !after.contains(old_path)
            &&& course.is_current(old_path) || course.is_current(new_path) ==> after.is_current(
                new_path,
            ) && (change_showing(course, Change::Rename(old_path, new_path, Some(facts))) matches Showing::Show(
                spot,
            ) && place(spot.path) == place(new_path))
            &&& !course.is_current(old_path) && !course.is_current(new_path) ==> change_showing(
                course,
                Change::Rename(old_path, new_path, Some(facts)),
            ) is Unchanged
        }),
{
    crate::folder::renamed_files_move(course, old_path, new_path, facts);
}

/// Both sides of a move are touched by it, and a removal touches the file alone.
pub proof fn changes_touch_their_paths(old_path: Seq<u8>, new_path: Seq<u8>, facts: Option<Facts>)
    ensures
        touched(Change::Remove(old_path)) == seq![old_path],
        touched(Change::Rename(old_path, new_path, facts)).contains(old_path) && touched(
            Change::Rename(old_path, new_path, facts),
        ).contains(new_path),
        touched(Change::PendingRename(old_path, new_path)).contains(old_path) && touched(
            Change::PendingRename(old_path, new_path),
        ).contains(new_path),
{
    let both = seq![old_path, new_path];
    assert(both[0] == old_path && both[1] == new_path);
}

/// What is shown after a change is presented at once, except a file on the move, which
/// waits for its metadata.
pub proof fn moving_files_wait(course: Course, old_path: Seq<u8>, new_path: Seq<u8>, spot: Spot, change: Change)
    ensures
        change_showing(course, change) is Unchanged ==> action_for(course, change)
            == Doing::Unchanged,
        change_showing(course, change) is Empty ==> action_for(course, change) == Doing::Empty,
        change_showing(course, change) == Showing::Show(spot) && !(change is PendingRename)
            ==> action_for(course, change) == Doing::Show(spot),
        change_showing(course, Change::PendingRename(old_path, new_path)) == Showing::Show(spot)
            ==> action_for(course, Change::PendingRename(old_path, new_path)) == (if place(
            spot.path,
        ) == place(new_path) {
            Doing::AwaitMetadata(spot)
        } else {
            Doing::Show(spot)
        }),
{
}

/// A time is read in seconds and the nanoseconds past them; one too far ahead to be told
/// counts as the epoch.
pub proof fn times_are_told_in_nanoseconds(info: FileInfo)
    ensures
        info.seconds < 0x7fff_ffff_ffff_ffff && info.nanoseconds < 1_000_000_000 ==> modified_time(
            info,
        ) == info.seconds * 1_000_000_000 + info.nanoseconds,
        info.seconds > 0x7fff_ffff_ffff_ffff ==> modified_time(info) == 0,
{
}

/// Only images have decoded contents to drop: a video has none, nor a file that cannot be
/// shown.
pub proof fn only_images_are_decoded(path: Seq<u8>)
    ensures
        image_only(path) ==> supported_path(path) && !video_path(path),
        supported_path(path) && !video_path(path) ==> image_only(path),
{
}

/// The window follows the folder: where the current file is renamed or another takes
/// its place, that one is shown; where none is left the window is empty; otherwise
/// what is shown stays.
pub proof fn the_window_follows_the_folder(spot: Spot)
    ensures
        rename_showing(Renaming::Renamed(spot)) == Showing::Show(spot),
        rename_showing(Renaming::Removed(Some(spot))) == Showing::Show(spot),
        rename_showing(Renaming::Removed(None)) == Showing::Empty,
        rename_showing(Renaming::Preserved) == Showing::Unchanged,
        removal_showing(Removal::CurrentRemoved(Some(spot))) == Showing::Show(spot),
        removal_showing(Removal::CurrentRemoved(None)) == Showing::Empty,
        removal_showing(Removal::CurrentPreserved) == Showing::Unchanged,
        removal_showing(Removal::NotFound) == Showing::Unchanged,
{
}

}
