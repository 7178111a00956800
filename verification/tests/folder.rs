use open_mpv::config::{Sort, SortOrder};
use open_mpv::folder::{
    natural_cmp, DirectoryEntry, FileSnapshot, Folder, Navigation, RemovalOutcome, RenameOutcome,
};
use open_mpv::paths::join;
use std::cmp::Ordering;

fn by_name() -> Sort {
    Sort {
        order: SortOrder::Name,
        reverse: false,
    }
}

fn entry(name: &str, regular: bool, modified: i128) -> DirectoryEntry {
    DirectoryEntry {
        name: name.as_bytes().to_vec(),
        regular,
        modified,
    }
}

fn listing(names: &[&str]) -> Vec<DirectoryEntry> {
    names.iter().map(|name| entry(name, true, 0)).collect()
}

fn in_dir(dir: &str, name: &str) -> Vec<u8> {
    join(dir.as_bytes(), name.as_bytes())
}

fn scan(dir: &str, names: &[&str], sort: Sort) -> Folder {
    Folder::scan(dir.as_bytes(), &listing(names), sort)
}

fn file_name(path: &[u8]) -> String {
    String::from_utf8_lossy(path.rsplit(|byte| *byte == b'/').next().unwrap()).into_owned()
}

fn names(f: &Folder) -> Vec<String> {
    (0..f.len()).map(|i| file_name(f.get(i).unwrap())).collect()
}

fn snapshot(path: &[u8]) -> FileSnapshot {
    FileSnapshot::new(path.to_vec(), 0)
}

fn navigation_of(dir: &str, files: &[&str]) -> Navigation {
    let mut navigation = Navigation::default();
    navigation.install(scan(dir, files, by_name()));
    navigation
}

#[test]
fn natural_ordering() {
    assert_eq!(natural_cmp("img2.jpg", "img10.jpg"), Ordering::Less);
    assert_eq!(natural_cmp("img10.jpg", "img2.jpg"), Ordering::Greater);
    assert_eq!(natural_cmp("a.png", "B.png"), Ordering::Less); // case-insensitive
    assert_eq!(
        natural_cmp("img007.jpg", "img7.jpg"),
        natural_cmp("img007.jpg", "img7.jpg")
    ); // stable
    assert_eq!(natural_cmp("x.jpg", "x.jpg"), Ordering::Equal);
    assert_eq!(natural_cmp("9.jpg", "10.jpg"), Ordering::Less);
}

#[test]
fn natural_ordering_ignores_case_beyond_ascii() {
    assert_eq!(natural_cmp("Äpfel.jpg", "äpfel.jpg"), natural_cmp("Äpfel.jpg", "äpfel.jpg"));
    assert_eq!(natural_cmp("ÄB", "äc"), Ordering::Less);
    assert_eq!(natural_cmp("äb", "ÄC"), Ordering::Less);
}

#[test]
fn scan_sorts_and_filters() {
    let folder = scan(
        "/pictures",
        &["b10.jpg", "b2.jpg", "a.png", "notes.txt", "z.gif"],
        by_name(),
    );
    assert_eq!(names(&folder), ["a.png", "b2.jpg", "b10.jpg", "z.gif"]);
}

/// A listing says of a symlink what its target is.
#[test]
fn symlinked_images_are_found_and_broken_links_are_not() {
    let listing = vec![
        entry("real.jpg", true, 0),
        entry("link.jpg", true, 0),
        entry("broken.jpg", false, 0),
    ];
    let folder = Folder::scan(b"/pictures", &listing, by_name());
    assert_eq!(
        names(&folder),
        ["link.jpg", "real.jpg"],
        "a symlink to an image counts; a dangling one does not"
    );
}

#[test]
fn date_sort_orders_by_modification_time() {
    let listing = vec![
        entry("oldest.jpg", true, 20),
        entry("middle.jpg", true, 40),
        entry("newest.jpg", true, 60),
    ];
    let by_date = |reverse| Sort {
        order: SortOrder::Date,
        reverse,
    };
    // Newest first is the default direction for dates.
    let folder = Folder::scan(b"/pictures", &listing, by_date(false));
    assert_eq!(names(&folder), ["newest.jpg", "middle.jpg", "oldest.jpg"]);
    let folder = Folder::scan(b"/pictures", &listing, by_date(true));
    assert_eq!(names(&folder), ["oldest.jpg", "middle.jpg", "newest.jpg"]);
}

#[test]
fn reverse_flips_the_order_and_insertion_follows_it() {
    let sort = Sort {
        order: SortOrder::Name,
        reverse: true,
    };
    let mut folder = scan("/pictures", &["a.jpg", "b2.jpg", "b10.jpg"], sort);
    // Natural order reversed: b10 before b2, not lexical.
    assert_eq!(names(&folder), ["b10.jpg", "b2.jpg", "a.jpg"]);
    // A file appearing later lands in the reversed position too.
    let c = in_dir("/pictures", "c.jpg");
    assert_eq!(folder.insert(snapshot(&c)), Some(0));
    assert_eq!(names(&folder), ["c.jpg", "b10.jpg", "b2.jpg", "a.jpg"]);
}

#[test]
fn navigation_and_wrap() {
    let folder = scan("/pictures", &["1.jpg", "2.jpg", "3.jpg"], by_name());
    assert_eq!(folder.next(0, false), Some(1));
    assert_eq!(folder.next(2, false), None); // no wrap at end
    assert_eq!(folder.next(2, true), Some(0));
    assert_eq!(folder.prev(0, false), None);
    assert_eq!(folder.prev(0, true), Some(2));
}

#[test]
fn insert_remove_and_dedup() {
    let mut folder = scan("/pictures", &["a.jpg", "c.jpg"], by_name());
    let b = in_dir("/pictures", "b.jpg");
    assert_eq!(folder.insert(snapshot(&b)), Some(1)); // sorted position
    assert_eq!(folder.insert(snapshot(&b)), None); // double-insertion guarded
    assert_eq!(folder.insert(snapshot(&in_dir("/pictures", "x.txt"))), None); // unsupported
    assert_eq!(folder.remove(&b), Some(1));
    assert_eq!(folder.remove(&b), None);
}

#[test]
fn insertion_stays_within_the_selected_folder() {
    let mut folder = scan("/pictures", &["a.jpg"], by_name());
    assert_eq!(folder.insert(snapshot(&in_dir("/other", "b.jpg"))), None);
    assert_eq!(names(&folder), ["a.jpg"]);
}

#[test]
fn insertion_uses_prevalidated_metadata_without_filesystem_io() {
    // No such directory exists: insertion consumes only the captured value.
    let mut navigation = navigation_of("/does/not/exist", &["a.jpg"]);
    let appeared = in_dir("/does/not/exist", "b.jpg");
    assert_eq!(navigation.insert(snapshot(&appeared)), Some(1));
    assert_eq!(navigation.get(1), Some(appeared.as_slice()));
}

#[test]
fn current_removal_keeps_the_nearest_position() {
    for (selected, removed, expected) in [
        (0, "a.jpg", Some((0, "b.jpg"))),
        (1, "b.jpg", Some((1, "c.jpg"))),
        (2, "c.jpg", Some((1, "b.jpg"))),
    ] {
        let mut navigation = navigation_of("/pictures", &["a.jpg", "b.jpg", "c.jpg"]);
        navigation.select(selected).unwrap();

        let outcome = navigation.remove(&in_dir("/pictures", removed));
        let destination = match outcome {
            RemovalOutcome::CurrentRemoved(destination) => destination,
            other => panic!("expected current removal, got {other:?}"),
        };
        let (index, filename) = expected.unwrap();
        let destination = destination.unwrap();
        assert_eq!(destination.index, index);
        assert_eq!(file_name(&destination.path), filename);
        assert_eq!(navigation.current_index(), Some(index));
    }
}

#[test]
fn removing_the_only_item_clears_the_destination() {
    let mut navigation = navigation_of("/pictures", &["only.jpg"]);
    navigation.select(0).unwrap();
    assert_eq!(
        navigation.remove(&in_dir("/pictures", "only.jpg")),
        RemovalOutcome::CurrentRemoved(None)
    );
    assert!(navigation.is_empty());
    assert_eq!(navigation.current_path(), None);
}

#[test]
fn removal_before_current_preserves_the_logical_item() {
    let mut navigation = navigation_of("/pictures", &["a.jpg", "b.jpg", "c.jpg"]);
    navigation.select(2).unwrap();
    assert_eq!(
        navigation.remove(&in_dir("/pictures", "a.jpg")),
        RemovalOutcome::CurrentPreserved
    );
    assert_eq!(navigation.current_index(), Some(1));
    assert_eq!(
        navigation.current_path(),
        Some(in_dir("/pictures", "c.jpg").as_slice())
    );
}

#[test]
fn removing_an_unknown_file_changes_nothing() {
    let mut navigation = navigation_of("/pictures", &["a.jpg"]);
    navigation.select(0).unwrap();
    assert_eq!(
        navigation.remove(&in_dir("/pictures", "z.jpg")),
        RemovalOutcome::NotFound
    );
    assert_eq!(navigation.len(), 1);
}

#[test]
fn rename_returns_an_explicit_current_transition() {
    let mut navigation = navigation_of("/pictures", &["a.jpg", "b.jpg", "c.jpg"]);
    navigation.select(1).unwrap();
    let renamed = in_dir("/pictures", "z.jpg");

    let outcome = navigation.rename(
        &in_dir("/pictures", "b.jpg"),
        &renamed,
        Some(snapshot(&renamed)),
    );
    let RenameOutcome::Renamed(destination) = outcome else {
        panic!("expected a current rename, got {outcome:?}");
    };
    assert_eq!(destination.path, renamed);
    assert_eq!(destination.index, 2);
    assert_eq!(
        navigation.current_path(),
        Some(destination.path.as_slice())
    );
}

#[test]
fn rename_to_unsupported_uses_the_current_removal_policy() {
    let mut navigation = navigation_of("/pictures", &["a.jpg", "b.jpg", "c.jpg"]);
    navigation.select(1).unwrap();
    let renamed = in_dir("/pictures", "b.txt");

    let outcome = navigation.rename(&in_dir("/pictures", "b.jpg"), &renamed, None);
    let RenameOutcome::Removed(Some(destination)) = outcome else {
        panic!("expected removal after unsupported rename, got {outcome:?}");
    };
    assert_eq!(destination.index, 1);
    assert_eq!(destination.path, in_dir("/pictures", "c.jpg"));
}

#[test]
fn overwrite_rename_refreshes_either_affected_current_item() {
    for selected in [0, 2] {
        let mut navigation = navigation_of("/pictures", &["a.jpg", "b.jpg", "c.jpg"]);
        let stale = navigation.select(selected).unwrap().generation;
        let old = in_dir("/pictures", "a.jpg");
        let new = in_dir("/pictures", "c.jpg");

        let RenameOutcome::Renamed(destination) =
            navigation.rename(&old, &new, Some(snapshot(&new)))
        else {
            panic!("an affected current item must be re-presented");
        };
        assert_eq!(navigation.len(), 2);
        assert_eq!(destination.index, 1);
        assert_eq!(destination.path, new);
        assert_eq!(
            navigation.current_path(),
            Some(destination.path.as_slice())
        );
        assert!(!navigation.is_current_generation(stale));
        assert!(navigation.is_current_generation(destination.generation));
    }
}

#[test]
fn destination_generation_rejects_stale_work() {
    let mut navigation = navigation_of("/pictures", &["a.jpg", "b.jpg"]);
    let first = navigation.select(0).unwrap();
    assert!(navigation.is_current_generation(first.generation));

    let second = navigation.select(1).unwrap();
    assert!(!navigation.is_current_generation(first.generation));
    assert!(navigation.is_current_generation(second.generation));

    navigation.install(scan("/replacement", &["c.jpg"], by_name()));
    assert!(!navigation.is_current_generation(second.generation));
}

#[test]
fn selected_folder_and_viewer_destination_are_plain_model_state() {
    let mut navigation = navigation_of("/pictures", &["a.jpg"]);
    assert_eq!(navigation.directory(), Some(b"/pictures".as_slice()));
    let destination = navigation.select(0).unwrap();
    assert_eq!(destination.path, in_dir("/pictures", "a.jpg"));
}

#[test]
fn paths_are_compared_by_what_they_lead_to() {
    let navigation = navigation_of("/pictures/", &["a.jpg", "b.jpg"]);
    assert_eq!(navigation.index_of(b"/pictures//./b.jpg"), Some(1));
    assert_eq!(navigation.index_of(b"pictures/b.jpg"), None);
}

#[test]
fn a_renamed_file_keeps_its_time_until_its_metadata_is_read() {
    let listing = vec![entry("new.jpg", true, 50), entry("old.jpg", true, 10)];
    let sort = Sort {
        order: SortOrder::Date,
        reverse: false,
    };
    let mut navigation = Navigation::new();
    navigation.install(Folder::scan(b"/pictures", &listing, sort));
    navigation.select(1).unwrap();
    let outcome = navigation.rename_pending(
        &in_dir("/pictures", "old.jpg"),
        &in_dir("/pictures", "a.jpg"),
    );
    let RenameOutcome::Renamed(destination) = outcome else {
        panic!("expected a provisional rename, got {outcome:?}");
    };
    assert_eq!(destination.index, 1);
    assert_eq!(destination.path, in_dir("/pictures", "a.jpg"));
}

#[test]
fn going_forward_and_back_returns_to_the_same_file() {
    let folder = scan("/pictures", &["1.jpg", "2.jpg", "3.jpg"], by_name());
    for wrap in [false, true] {
        for index in 0..3 {
            if let Some(next) = folder.next(index, wrap) {
                assert_eq!(folder.prev(next, wrap), Some(index));
            }
        }
    }
}

#[test]
fn names_that_are_no_text_are_sorted_all_the_same() {
    let listing = vec![
        DirectoryEntry {
            name: b"b\xff.jpg".to_vec(),
            regular: true,
            modified: 0,
        },
        entry("a.jpg", true, 0),
    ];
    let folder = Folder::scan(b"/pictures", &listing, by_name());
    assert_eq!(folder.get(0), Some(b"/pictures/a.jpg".as_slice()));
    assert_eq!(folder.get(1), Some(b"/pictures/b\xff.jpg".as_slice()));
    assert_eq!(folder.get(2), None);
}

#[test]
fn numbers_decide_whatever_the_case_before_them() {
    assert_eq!(natural_cmp("IMG2.jpg", "img10.jpg"), Ordering::Less);
    assert_eq!(natural_cmp("img2.jpg", "IMG10.jpg"), Ordering::Less);
    assert_eq!(natural_cmp("IMG.jpg", "img.jpg"), Ordering::Less);
    assert_eq!(
        natural_cmp("IMG.jpg", "imh.jpg"),
        natural_cmp("img.jpg", "imh.jpg")
    );
}
