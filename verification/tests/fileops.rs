use open_mpv::fileops::{
    editor_rotation, find_trashed_file, mount_topdir, percent_decode, staged_prefix,
    trash_dirs_for, user_attributes, RestoreError, Rotation, SaveRotationError, TrashError,
    TrashInfo,
};
use open_mpv::paths::{join, parent_of};

fn record(trash_dir: &str, name: &str, text: &str) -> TrashInfo {
    TrashInfo {
        trash_dir: trash_dir.as_bytes().to_vec(),
        name: name.as_bytes().to_vec(),
        text: text.to_string(),
    }
}

#[test]
fn percent_decode_handles_untrusted_bytes_without_panicking() {
    assert_eq!(percent_decode("photo%20one%2Ejpg"), b"photo one.jpg");
    assert_eq!(percent_decode("non-utf8-%FF"), b"non-utf8-\xff");

    for malformed in ["%", "%A", "%GG", "%é", "é%", "é%A"] {
        assert_eq!(percent_decode(malformed), malformed.as_bytes());
    }
}

#[test]
fn malformed_trashinfo_does_not_hide_a_valid_entry() {
    let trash = "/home/user/Trash";
    let orig = "/home/user/original.jpg";
    let records = vec![
        record(
            trash,
            "bad.trashinfo",
            "[Trash Info]\nPath=%é\nDeletionDate=2026-01-02T00:00:00\n",
        ),
        record(
            trash,
            "good.trashinfo",
            &format!("[Trash Info]\nPath={orig}\nDeletionDate=2026-01-01T00:00:00\n"),
        ),
    ];

    let selected = find_trashed_file(orig.as_bytes(), &records).unwrap();
    assert_eq!(selected.0, b"/home/user/Trash/files/good");
    assert_eq!(selected.1, b"/home/user/Trash/info/good.trashinfo");
}

#[test]
fn the_newest_matching_record_is_restored() {
    let text = |date: &str| format!("Path=/a/b.jpg\r\nDeletionDate={date}\r\n");
    let records = vec![
        record("/t", "one.trashinfo", &text("2026-01-01T00:00:00")),
        record("/t", "two.trashinfo", &text("2026-03-01T00:00:00")),
        record("/t", "three.trashinfo", &text("2026-02-01T00:00:00")),
        record("/t", "four.trashinfo", &text("2026-03-01T00:00:00")),
        record("/t", "five.txt", &text("2027-01-01T00:00:00")),
        record("/t", "six.trashinfo", "Path=/a/c.jpg\nDeletionDate=2027-01-01\n"),
        record("/t", "seven.trashinfo", "DeletionDate=2027-01-01\n"),
    ];
    assert_eq!(
        find_trashed_file(b"/a/b.jpg", &records),
        Some((b"/t/files/two".to_vec(), b"/t/info/two.trashinfo".to_vec()))
    );
    assert_eq!(find_trashed_file(b"/a/d.jpg", &records), None);
}

#[test]
fn mount_trashes_are_relative_to_their_mount() {
    let records = vec![record(
        "/media/disk/.Trash/1000",
        "b.trashinfo",
        "Path=photos/b%20c.jpg\n",
    )];
    assert_eq!(
        find_trashed_file(b"/media/disk/photos/b c.jpg", &records),
        Some((
            b"/media/disk/.Trash/1000/files/b".to_vec(),
            b"/media/disk/.Trash/1000/info/b.trashinfo".to_vec()
        ))
    );
    assert_eq!(find_trashed_file(b"photos/b c.jpg", &records), None);
}

#[test]
fn trash_directories_follow_the_mount() {
    assert_eq!(
        trash_dirs_for(b"/home/user/.local/share", None),
        [b"/home/user/.local/share/Trash".to_vec()]
    );
    assert_eq!(
        trash_dirs_for(b"/home/user/.local/share", Some((b"/media/disk", 1000))),
        [
            b"/home/user/.local/share/Trash".to_vec(),
            b"/media/disk/.Trash/1000".to_vec(),
            b"/media/disk/.Trash-1000".to_vec(),
        ]
    );
}

#[test]
fn the_mount_top_is_the_highest_directory_on_the_device() {
    assert_eq!(mount_topdir(&vec![Some(5), Some(5), Some(3), Some(5)]), Some(1));
    assert_eq!(mount_topdir(&vec![Some(5), None, Some(5)]), Some(0));
    assert_eq!(mount_topdir(&vec![Some(5), Some(5)]), Some(1));
    assert_eq!(mount_topdir(&vec![None, Some(5)]), None);
    assert_eq!(mount_topdir(&Vec::new()), None);
}

#[test]
fn clockwise_turns_are_undone_by_the_editor() {
    assert_eq!(editor_rotation(0), None);
    assert_eq!(editor_rotation(1), Some(Rotation::ThreeQuarters));
    assert_eq!(editor_rotation(2), Some(Rotation::Half));
    assert_eq!(editor_rotation(3), Some(Rotation::Quarter));
    assert_eq!(editor_rotation(4), None);
    assert_eq!(editor_rotation(255), Some(Rotation::Quarter));
}

#[test]
fn only_attributes_of_the_user_are_kept() {
    assert_eq!(
        user_attributes(b"user.one\0security.selinux\0\0user.\0user.two"),
        [b"user.one".to_vec(), b"user.".to_vec(), b"user.two".to_vec()]
    );
    assert!(user_attributes(b"").is_empty());
}

#[test]
fn staged_files_are_named_after_their_target() {
    assert_eq!(staged_prefix(b"/a/img.png"), ".img.png.open-mpv-");
    assert_eq!(staged_prefix(b"/a/im\xffg.png"), ".im\u{fffd}g.png.open-mpv-");
    assert_eq!(staged_prefix(b"/"), "..open-mpv-");
}

#[test]
fn failures_name_the_file() {
    assert_eq!(
        TrashError.describe("/a/b.jpg", "why"),
        "could not move /a/b.jpg to trash: why"
    );
    assert_eq!(RestoreError::of_move(true), RestoreError::DestinationExists);
    assert_eq!(RestoreError::of_move(false), RestoreError::Move);
    assert_eq!(
        RestoreError::NotFound.describe("b.jpg", ""),
        "b.jpg is no longer in the trash"
    );
    assert_eq!(
        RestoreError::DestinationExists.describe("b.jpg", ""),
        "could not restore b.jpg because another file now exists there"
    );
    assert_eq!(
        RestoreError::Move.describe("b.jpg", "why"),
        "could not restore b.jpg: why"
    );
    for (error, said) in [
        (SaveRotationError::Editor, "editor failed for b.jpg: why"),
        (SaveRotationError::Rotation, "rotation failed for b.jpg: why"),
        (SaveRotationError::SparseWrite, "could not write b.jpg: why"),
        (SaveRotationError::ReadEdited, "could not read edited image data: why"),
        (SaveRotationError::AtomicWrite, "could not write b.jpg: why"),
    ] {
        assert_eq!(error.describe("b.jpg", "why"), said);
    }
}

#[test]
fn parents_drop_the_last_part() {
    for (path, parent) in [
        ("/a/b", Some("/a")),
        ("/a//b/", Some("/a")),
        ("/a/./b", Some("/a")),
        ("/a", Some("/")),
        ("//a", Some("/")),
        ("a", Some("")),
        ("a/..", Some("a")),
        ("./a", Some(".")),
        ("/", None),
        ("", None),
    ] {
        assert_eq!(
            parent_of(path.as_bytes()),
            parent.map(|text| text.as_bytes().to_vec()),
            "{path}"
        );
        let std_parent = std::path::Path::new(path)
            .parent()
            .map(|found| found.to_str().unwrap().as_bytes().to_vec());
        assert_eq!(parent_of(path.as_bytes()), std_parent, "{path}");
    }
    assert_eq!(join(b"/a/", b"b"), b"/a/b");
    assert_eq!(join(b"", b"b"), b"b");
}
