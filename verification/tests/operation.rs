use open_mpv::config::{Sort, SortOrder};
use open_mpv::folder::{DirectoryEntry, FileSnapshot, Folder, Navigation};
use open_mpv::paths::join;
use open_mpv::window::operation::{Coordinator, UndoDisposition, UndoEffect};

const DIR: &[u8] = b"/pictures";

fn in_dir(name: &str) -> Vec<u8> {
    join(DIR, name.as_bytes())
}

fn navigation_of(files: &[&str]) -> Navigation {
    let listing = files
        .iter()
        .map(|name| DirectoryEntry {
            name: name.as_bytes().to_vec(),
            regular: true,
            modified: 0,
        })
        .collect();
    let mut navigation = Navigation::new();
    navigation.install(Folder::scan(
        DIR,
        &listing,
        Sort {
            order: SortOrder::Name,
            reverse: false,
        },
    ));
    navigation
}

/// Moves a shown file to the trash.
fn trash(desk: &mut Coordinator, navigation: &mut Navigation, name: &str) -> UndoDisposition {
    let path = in_dir(name);
    let token = desk.start_trash(navigation, &path).unwrap();
    assert!(desk.trash_applies(&token, navigation));
    let before = navigation.generation();
    let current = navigation.is_current(&path);
    navigation.remove(&path);
    desk.observe_removal(
        token.set(),
        &path,
        before,
        navigation.generation(),
        current,
    );
    desk.finish_trash(token)
}

#[test]
fn a_trashed_file_comes_back_where_it_was() {
    let mut desk = Coordinator::new();
    let mut navigation = navigation_of(&["a.jpg", "b.jpg", "c.jpg"]);
    navigation.select(1).unwrap();
    let disposition = trash(&mut desk, &mut navigation, "b.jpg");
    assert!(matches!(disposition, UndoDisposition::Offered(_)));
    assert!(desk.has_undo());
    let token = desk.begin_undo().unwrap();
    assert_eq!(token.path(), in_dir("b.jpg"));
    let effect = desk.finish_undo(
        &token,
        FileSnapshot::new(in_dir("b.jpg"), 0),
        &mut navigation,
    );
    let UndoEffect::Reconciled(Some(destination)) = effect else {
        panic!("expected to return to the file, got {effect:?}");
    };
    assert_eq!(destination.index, 1);
    assert_eq!(destination.path, in_dir("b.jpg"));
    assert!(!desk.has_undo());
}

#[test]
fn an_undo_does_not_interrupt_what_was_opened_since() {
    let mut desk = Coordinator::new();
    let mut navigation = navigation_of(&["a.jpg", "b.jpg", "c.jpg"]);
    navigation.select(1).unwrap();
    trash(&mut desk, &mut navigation, "b.jpg");
    navigation.select(0).unwrap();
    let token = desk.begin_undo().unwrap();
    let effect = desk.finish_undo(
        &token,
        FileSnapshot::new(in_dir("b.jpg"), 0),
        &mut navigation,
    );
    assert_eq!(effect, UndoEffect::Reconciled(None));
    assert_eq!(navigation.len(), 3);
    assert_eq!(navigation.current_index(), Some(0));

    // Another folder is not touched at all.
    navigation.select(1).unwrap();
    trash(&mut desk, &mut navigation, "b.jpg");
    let token = desk.begin_undo().unwrap();
    let mut other = navigation_of(&["x.jpg"]);
    other.install(Folder::scan(
        b"/other",
        &Vec::new(),
        Sort {
            order: SortOrder::Name,
            reverse: false,
        },
    ));
    let effect = desk.finish_undo(&token, FileSnapshot::new(in_dir("b.jpg"), 0), &mut other);
    assert_eq!(effect, UndoEffect::Detached);
    assert!(other.is_empty());
}

#[test]
fn offers_expire_one_by_one() {
    let mut desk = Coordinator::default();
    let mut navigation = navigation_of(&["a.jpg", "b.jpg"]);
    navigation.select(0).unwrap();
    let UndoDisposition::Offered(first) = trash(&mut desk, &mut navigation, "a.jpg") else {
        panic!("expected an offer");
    };
    let UndoDisposition::Offered(second) = trash(&mut desk, &mut navigation, "b.jpg") else {
        panic!("expected an offer");
    };
    assert!(!desk.expire_undo(first), "a newer offer has replaced it");
    assert!(desk.has_undo());
    assert!(desk.expire_undo(second));
    assert!(!desk.has_undo());
    assert!(desk.begin_undo().is_none());
}

#[test]
fn trash_and_save_exclude_each_other_on_one_file() {
    let mut desk = Coordinator::new();
    let mut navigation = navigation_of(&["a.jpg", "b.jpg"]);
    navigation.select(0).unwrap();
    let save = desk.start_save(&navigation, &in_dir("a.jpg")).unwrap();
    assert!(desk.is_saving());
    assert!(desk.start_trash(&navigation, &in_dir("a.jpg")).is_none());
    assert!(desk.start_save(&navigation, &in_dir("a.jpg")).is_none());
    let reload = desk.finish_save(&save, &navigation).unwrap();
    assert_eq!(reload.path, in_dir("a.jpg"));
    assert!(!desk.is_saving());
    let token = desk.start_trash(&navigation, &in_dir("a.jpg")).unwrap();
    assert!(desk.start_save(&navigation, &in_dir("a.jpg")).is_none());
    desk.cancel_trash(&token);
    assert!(desk.start_save(&navigation, &in_dir("a.jpg")).is_some());
}

#[test]
fn a_stale_save_reloads_nothing() {
    let mut desk = Coordinator::new();
    let mut navigation = navigation_of(&["a.jpg", "b.jpg"]);
    navigation.select(0).unwrap();
    let save = desk.start_save(&navigation, &in_dir("a.jpg")).unwrap();
    navigation.select(1).unwrap();
    assert!(desk.finish_save(&save, &navigation).is_none());
    assert!(!desk.is_saving());
}

#[test]
fn nothing_survives_clearing() {
    let mut desk = Coordinator::new();
    let mut navigation = navigation_of(&["a.jpg", "b.jpg"]);
    navigation.select(0).unwrap();
    trash(&mut desk, &mut navigation, "a.jpg");
    let token = desk.start_trash(&navigation, &in_dir("b.jpg")).unwrap();
    desk.clear();
    assert!(!desk.has_undo());
    assert_eq!(
        desk.finish_trash(token),
        UndoDisposition::OperationSuperseded
    );
}
