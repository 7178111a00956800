use open_mpv::config::{Sort, SortOrder};
use open_mpv::folder::{DirectoryEntry, FileSnapshot, Folder, Navigation, SnapshotKind};
use open_mpv::paths::join;
use open_mpv::window::monitor::{
    apply_fs_change, apply_fs_change_for_set, change_folder, file_snapshot_from_info,
    invalidate_image, plan_fs_event, plan_query, refresh_index, snapshot_from_query, FileInfo,
    FsAction, FsChange, FsEvent, FsPlan, FsPresentation, FsQueryVersions, Invalidation,
    QueryError, QueryFailure, QueryPlan,
};

const DIR: &[u8] = b"/pictures";

fn in_dir(name: &str) -> Vec<u8> {
    join(DIR, name.as_bytes())
}

fn folder_of(files: &[&str]) -> Folder {
    let listing = files
        .iter()
        .map(|name| DirectoryEntry {
            name: name.as_bytes().to_vec(),
            regular: true,
            modified: 0,
        })
        .collect();
    Folder::scan(
        DIR,
        &listing,
        Sort {
            order: SortOrder::Name,
            reverse: false,
        },
    )
}

fn navigation_of(files: &[&str]) -> Navigation {
    let mut navigation = Navigation::default();
    navigation.install(folder_of(files));
    navigation
}

fn check_removal_events() {
    for (selected, removed, expected_index, expected_name) in
        [(1, "b.jpg", 1, "c.jpg"), (2, "c.jpg", 1, "b.jpg")]
    {
        let mut navigation = navigation_of(&["a.jpg", "b.jpg", "c.jpg"]);
        navigation.select(selected).unwrap();
        let presentation = apply_fs_change(&mut navigation, FsChange::Remove(in_dir(removed)));
        let FsPresentation::Show(destination) = presentation else {
            panic!("expected a replacement destination, got {presentation:?}");
        };
        assert_eq!(destination.index, expected_index);
        assert_eq!(destination.path, in_dir(expected_name));
    }
}

#[test]
fn window_external_removal_events_present_the_model_outcome() {
    check_removal_events();
}

#[test]
fn monitor_external_removal_events_present_the_model_outcome() {
    check_removal_events();
}

fn check_rename_to_unsupported() {
    let mut navigation = navigation_of(&["a.jpg", "b.jpg", "c.jpg"]);
    navigation.select(1).unwrap();
    let presentation = apply_fs_change(
        &mut navigation,
        FsChange::Rename {
            old_path: in_dir("b.jpg"),
            new_path: in_dir("b.txt"),
            snapshot: None,
        },
    );
    let FsPresentation::Show(destination) = presentation else {
        panic!("expected a replacement destination, got {presentation:?}");
    };
    assert_eq!(destination.index, 1);
    assert_eq!(destination.path, in_dir("c.jpg"));
}

#[test]
fn window_external_rename_to_unsupported_presents_the_nearest_item() {
    check_rename_to_unsupported();
}

#[test]
fn monitor_external_rename_to_unsupported_presents_the_nearest_item() {
    check_rename_to_unsupported();
}

fn check_removal_of_the_only_item() {
    let mut navigation = navigation_of(&["only.jpg"]);
    navigation.select(0).unwrap();
    assert_eq!(
        apply_fs_change(&mut navigation, FsChange::Remove(in_dir("only.jpg"))),
        FsPresentation::Empty
    );
}

#[test]
fn window_external_removal_of_the_only_item_presents_empty_state() {
    check_removal_of_the_only_item();
}

#[test]
fn monitor_external_removal_of_the_only_item_presents_empty_state() {
    check_removal_of_the_only_item();
}

#[test]
fn stale_monitor_event_cannot_mutate_a_reopened_folder() {
    let mut navigation = navigation_of(&["a.jpg", "b.jpg"]);
    navigation.select(0).unwrap();
    let old_set = navigation.set_id().unwrap();

    navigation.install(folder_of(&["a.jpg", "b.jpg"]));
    navigation.select(0).unwrap();
    assert_eq!(
        apply_fs_change_for_set(&mut navigation, old_set, FsChange::Remove(in_dir("a.jpg"))),
        None
    );
    assert_eq!(navigation.len(), 2);
    assert_eq!(
        navigation.current_path(),
        Some(in_dir("a.jpg").as_slice())
    );
}

fn check_stale_queries() {
    let path = vec![b"a.jpg".to_vec()];
    let other = vec![b"b.jpg".to_vec()];
    let mut versions = FsQueryVersions::new();

    let (stale, cancelled) = versions.start(&path);
    assert!(cancelled.is_empty());
    let (current, cancelled) = versions.start(&path);
    assert_eq!(cancelled, [stale]);
    let (unrelated, cancelled) = versions.start(&other);
    assert!(cancelled.is_empty());
    assert!(!versions.finish(&path, stale));
    assert!(versions.finish(&path, current));
    assert!(versions.finish(&other, unrelated));
    assert!(versions.is_empty());

    let (stale, _) = versions.start(&path);
    assert_eq!(versions.supersede(&path), [stale]);
    assert!(!versions.finish(&path, stale));
    assert!(versions.is_empty());

    let (stale, _) = versions.start(&path);
    assert_eq!(versions.cancel_all(), [stale]);
    assert!(!versions.finish(&path, stale));
    assert!(versions.is_empty());
}

#[test]
fn window_stale_filesystem_queries_are_rejected_and_released() {
    check_stale_queries();
}

#[test]
fn monitor_stale_filesystem_queries_are_rejected_and_released() {
    check_stale_queries();
}

const MODIFIED: i128 = 42 * 1_000_000_000 + 123;

fn info(regular: bool) -> FileInfo {
    FileInfo {
        regular,
        seconds: 42,
        nanoseconds: 123,
    }
}

#[test]
fn window_gio_metadata_becomes_a_regular_file_snapshot() {
    assert_eq!(
        file_snapshot_from_info(b"a.jpg".to_vec(), &info(true)),
        FileSnapshot::new(b"a.jpg".to_vec(), MODIFIED)
    );
    // A directory is no file of the folder.
    let directory = file_snapshot_from_info(in_dir("dir.jpg"), &info(false));
    assert_eq!(navigation_of(&[]).insert(directory), None);
}

#[test]
fn monitor_gio_metadata_becomes_a_regular_file_snapshot() {
    assert_eq!(
        file_snapshot_from_info(b"a.jpg".to_vec(), &info(true)),
        FileSnapshot::with_kind(b"a.jpg".to_vec(), MODIFIED, SnapshotKind::Regular)
    );
    assert_eq!(
        file_snapshot_from_info(b"dir.jpg".to_vec(), &info(false)),
        FileSnapshot::with_kind(b"dir.jpg".to_vec(), MODIFIED, SnapshotKind::Other)
    );
}

#[test]
fn times_beyond_the_clock_count_as_the_epoch() {
    let far = FileInfo {
        regular: true,
        seconds: u64::MAX,
        nanoseconds: 0,
    };
    assert_eq!(
        file_snapshot_from_info(b"a.jpg".to_vec(), &far),
        FileSnapshot::new(b"a.jpg".to_vec(), 0)
    );
}

fn failed(kind: QueryFailure) -> QueryError {
    QueryError {
        kind,
        message: "original cause".to_string(),
    }
}

#[test]
fn failed_metadata_queries_are_not_applied_as_absent_files() {
    let path = b"/tmp/media.png".to_vec();
    assert!(
        snapshot_from_query(path.clone(), Err(failed(QueryFailure::NotFound)))
            .unwrap()
            .is_none()
    );
    for kind in [
        QueryFailure::Cancelled,
        QueryFailure::PermissionDenied,
        QueryFailure::Failed,
    ] {
        let error = snapshot_from_query(path.clone(), Err(failed(kind))).unwrap_err();
        assert_eq!(error.kind, kind);
        assert_eq!(error.message, "original cause");
    }
}

#[test]
fn events_of_another_folder_are_ignored() {
    let mut navigation = navigation_of(&["a.jpg"]);
    let old_set = navigation.set_id().unwrap();
    navigation.install(folder_of(&["a.jpg"]));
    let set = navigation.set_id().unwrap();
    let a = Some(in_dir("a.jpg"));
    let plan = |set, shutting_down, event, path, other| {
        plan_fs_event(&navigation, set, shutting_down, event, path, other)
    };
    assert!(matches!(
        plan(old_set, false, FsEvent::Changed, a.clone(), None),
        FsPlan::Ignore
    ));
    assert!(matches!(
        plan(set, true, FsEvent::Changed, a.clone(), None),
        FsPlan::Ignore
    ));
    assert!(matches!(
        plan(set, false, FsEvent::Changed, a.clone(), None),
        FsPlan::Refresh(path) if path == in_dir("a.jpg")
    ));
    assert!(matches!(
        plan(set, false, FsEvent::Created, a.clone(), None),
        FsPlan::RefreshAndQuery(_)
    ));
    assert!(matches!(
        plan(set, false, FsEvent::Created, Some(in_dir("a.txt")), None),
        FsPlan::Ignore
    ));
    assert!(matches!(
        plan(set, false, FsEvent::MovedOut, a.clone(), None),
        FsPlan::Remove(_)
    ));
    assert!(matches!(
        plan(set, false, FsEvent::Renamed, a.clone(), None),
        FsPlan::Ignore
    ));
    assert!(matches!(
        plan(set, false, FsEvent::Other, a, None),
        FsPlan::Ignore
    ));
}

#[test]
fn edits_of_the_shown_image_supersede_its_work() {
    let mut navigation = navigation_of(&["a.jpg", "b.jpg", "c.mp4"]);
    let shown = navigation.select(0).unwrap();
    let set = navigation.set_id().unwrap();
    assert_eq!(
        invalidate_image(&mut navigation, &in_dir("c.mp4")),
        Invalidation::NotAnImage
    );
    assert_eq!(
        invalidate_image(&mut navigation, &in_dir("b.jpg")),
        Invalidation::Stale
    );
    assert!(navigation.is_current_generation(shown.generation));
    assert_eq!(
        invalidate_image(&mut navigation, &in_dir("a.jpg")),
        Invalidation::Current(0)
    );
    assert!(!navigation.is_current_generation(shown.generation));
    assert_eq!(
        refresh_index(&navigation, set, &in_dir("a.jpg"), false),
        Some(0)
    );
    assert_eq!(refresh_index(&navigation, set, &in_dir("a.jpg"), true), None);
    assert_eq!(
        refresh_index(&navigation, set, &in_dir("b.jpg"), false),
        None
    );
}

#[test]
fn a_rename_waits_for_metadata_and_then_applies_it() {
    let mut navigation = navigation_of(&["a.jpg", "c.jpg"]);
    navigation.select(0).unwrap();
    let set = navigation.set_id().unwrap();
    let effects = change_folder(
        &mut navigation,
        set,
        FsChange::PendingRename {
            old_path: in_dir("a.jpg"),
            new_path: in_dir("b.jpg"),
        },
    )
    .unwrap();
    assert_eq!(effects.invalidated, [in_dir("a.jpg"), in_dir("b.jpg")]);
    assert!(matches!(effects.action, FsAction::AwaitMetadata(found) if found.path == in_dir("b.jpg")));
    assert_eq!(effects.removed, None);

    let plan = plan_query(in_dir("b.jpg"), Ok(info(true)), true, true, None);
    let QueryPlan::Apply(change) = plan else {
        panic!("expected a change, got {plan:?}");
    };
    let effects = change_folder(&mut navigation, set, change).unwrap();
    assert!(matches!(effects.action, FsAction::Show(found) if found.path == in_dir("b.jpg")));
    assert_eq!(navigation.len(), 2);
}

#[test]
fn failed_queries_are_told_only_for_what_is_loading() {
    let path = in_dir("a.jpg");
    let plan = plan_query(
        path.clone(),
        Err(failed(QueryFailure::Failed)),
        true,
        true,
        Some(&path),
    );
    let QueryPlan::ShowError {
        path: shown,
        message,
    } = plan
    else {
        panic!("expected an error");
    };
    assert_eq!(shown, path);
    assert_eq!(message, "Could not read the changed file: original cause");
    assert!(matches!(
        plan_query(path.clone(), Err(failed(QueryFailure::Failed)), true, true, None),
        QueryPlan::Nothing
    ));
    assert!(matches!(
        plan_query(path, Ok(info(true)), false, true, None),
        QueryPlan::Nothing
    ));
}
