use open_mpv::fileops::RestoreError;
use open_mpv::player::PlayerError;
use open_mpv::window::error::{message, Cause, GioKind, ImageFailure, IoKind};

#[test]
fn typed_causes_are_readable_without_backend_details() {
    // A failed write of the rotation, caused by a refused access.
    let causes = vec![Cause::Other, Cause::Io(IoKind::PermissionDenied)];
    assert_eq!(
        message(&causes, "Could not save the rotation."),
        "Could not save the rotation. You do not have permission to access this file or folder."
    );
    let causes = vec![Cause::Image(ImageFailure::Source(GioKind::NotFound))];
    assert_eq!(
        message(&causes, "Could not open the image."),
        "Could not open the image. The file or folder is no longer available."
    );
    assert_eq!(
        message(
            &vec![Cause::Io(IoKind::Other)],
            "Could not restore the file."
        ),
        "Could not restore the file."
    );
}

#[test]
fn every_known_cause_is_explained() {
    for (cause, said) in [
        (
            Cause::Io(IoKind::AlreadyExists),
            "Another file already exists at that location.",
        ),
        (
            Cause::Io(IoKind::StorageFull),
            "There is not enough free space.",
        ),
        (
            Cause::Gio(GioKind::ReadOnly),
            "This location is read-only.",
        ),
        (
            Cause::Gio(GioKind::NoSpace),
            "There is not enough free space.",
        ),
        (
            Cause::Gio(GioKind::Exists),
            "Another file already exists at that location.",
        ),
        (
            Cause::Image(ImageFailure::MissingLoader),
            "An image loader is missing. Check that glycin-loaders is installed.",
        ),
        (
            Cause::Image(ImageFailure::UnsupportedFormat),
            "No installed image loader supports this format.",
        ),
        (
            Cause::Restore(RestoreError::NotFound),
            "The file is no longer in the trash.",
        ),
        (
            Cause::Restore(RestoreError::DestinationExists),
            "Another file already exists at the original location.",
        ),
        (
            Cause::LosslessUnavailable,
            "This image cannot be rotated without losing quality.",
        ),
        (
            Cause::Player(PlayerError::SinkUnavailable),
            "A required video component is missing. Check the video packages listed in Troubleshooting.",
        ),
    ] {
        assert_eq!(message(&vec![cause], "Failed."), format!("Failed. {said}"));
    }
    for cause in [
        Cause::Other,
        Cause::Gio(GioKind::Other),
        Cause::Restore(RestoreError::Move),
        Cause::Player(PlayerError::Playback),
        Cause::Image(ImageFailure::Other),
    ] {
        assert_eq!(message(&vec![cause], "Failed."), "Failed.");
    }
    assert_eq!(message(&Vec::new(), "Failed."), "Failed.");
}

#[test]
fn the_first_reason_of_a_chain_is_told() {
    let causes = vec![
        Cause::Restore(RestoreError::Move),
        Cause::Io(IoKind::StorageFull),
        Cause::Io(IoKind::NotFound),
    ];
    assert_eq!(
        message(&causes, "Failed."),
        "Failed. There is not enough free space."
    );
}
