//! Plain-language presentation at the window boundary; typed errors remain
//! available to callers and diagnostics retain their original context.
use vstd::prelude::*;

use crate::fileops::RestoreError;
use crate::player::PlayerError;

verus! {

/// What a file operation failed with.
#[derive(Debug, Clone, Copy, PartialEq, Eq, Structural)]
pub enum IoKind {
    PermissionDenied,
    NotFound,
    AlreadyExists,
    StorageFull,
    ReadOnlyFilesystem,
    Other,
}

/// What an operation of the desktop's file layer failed with.
#[derive(Debug, Clone, Copy, PartialEq, Eq, Structural)]
pub enum GioKind {
    PermissionDenied,
    NotFound,
    Exists,
    NoSpace,
    ReadOnly,
    Other,
}

/// What an image loader failed with.
#[derive(Debug, Clone, Copy, PartialEq, Eq, Structural)]
pub enum ImageFailure {
    Source(GioKind),
    Io(IoKind),
    MissingLoader,
    UnsupportedFormat,
    Other,
}

/// One link of a chain of errors, from what failed down to its first cause.
#[derive(Debug, Clone, Copy, PartialEq, Eq, Structural)]
pub enum Cause {
    Io(IoKind),
    Gio(GioKind),
    Image(ImageFailure),
    Restore(RestoreError),
    /// A rotation that would have to encode the pixels again.
    LosslessUnavailable,
    Player(PlayerError),
    Other,
}

pub open spec fn io_text(kind: IoKind) -> Option<Seq<char>> {
    match kind {
        IoKind::PermissionDenied => Some(
            "You do not have permission to access this file or folder."@,
        ),
        IoKind::NotFound => Some("The file or folder is no longer available."@),
        IoKind::AlreadyExists => Some("Another file already exists at that location."@),
        IoKind::StorageFull => Some("There is not enough free space."@),
        IoKind::ReadOnlyFilesystem => Some("This location is read-only."@),
        IoKind::Other => None,
    }
}

/// The file failure that one of the desktop's file layer stands for.
pub open spec fn gio_kind(kind: GioKind) -> IoKind {
    match kind {
        GioKind::PermissionDenied => IoKind::PermissionDenied,
        GioKind::NotFound => IoKind::NotFound,
        GioKind::Exists => IoKind::AlreadyExists,
        GioKind::NoSpace => IoKind::StorageFull,
        GioKind::ReadOnly => IoKind::ReadOnlyFilesystem,
        GioKind::Other => IoKind::Other,
    }
}

pub open spec fn image_text(failure: ImageFailure) -> Option<Seq<char>> {
    match failure {
        ImageFailure::Source(kind) => io_text(gio_kind(kind)),
        ImageFailure::Io(kind) => io_text(kind),
        ImageFailure::MissingLoader => Some(
            "An image loader is missing. Check that glycin-loaders is installed."@,
        ),
        ImageFailure::UnsupportedFormat => Some(
            "No installed image loader supports this format."@,
        ),
        ImageFailure::Other => None,
    }
}

/// What a user can be told of one cause.
pub open spec fn cause_text(cause: Cause) -> Option<Seq<char>> {
    match cause {
        Cause::Io(kind) => io_text(kind),
        Cause::Gio(kind) => io_text(gio_kind(kind)),
        Cause::Image(failure) => image_text(failure),
        Cause::Restore(RestoreError::NotFound) => Some("The file is no longer in the trash."@),
        Cause::Restore(RestoreError::DestinationExists) => Some(
            "Another file already exists at the original location."@,
        ),
        Cause::Restore(RestoreError::Move) => None,
        Cause::LosslessUnavailable => Some(
            "This image cannot be rotated without losing quality."@,
        ),
        Cause::Player(error) => if error == PlayerError::SinkUnavailable || error
            == PlayerError::PlaybinUnavailable {
            Some(
                "A required video component is missing. Check the video packages listed in Troubleshooting."@,
            )
        } else {
            None
        },
        Cause::Other => None,
    }
}

/// What a user can be told of a chain of causes: the first reason in it.
pub open spec fn reason(causes: Seq<Cause>) -> Option<Seq<char>>
    decreases causes.len(),
{
    if causes.len() == 0 {
        None
    } else {
        match cause_text(causes[0]) {
            Some(text) => Some(text),
            None => reason(causes.skip(1)),
        }
    }
}

fn io_reason(kind: IoKind) -> (result: Option<&'static str>)
    ensures
        match result {
            Some(text) => io_text(kind) == Some(text@),
            None => io_text(kind) is None,
        },
{
    match kind {
        IoKind::PermissionDenied => Some(
            "You do not have permission to access this file or folder.",
        ),
        IoKind::NotFound => Some("The file or folder is no longer available."),
        IoKind::AlreadyExists => Some("Another file already exists at that location."),
        IoKind::StorageFull => Some("There is not enough free space."),
        IoKind::ReadOnlyFilesystem => Some("This location is read-only."),
        IoKind::Other => None,
    }
}

fn gio_reason(kind: GioKind) -> (result: Option<&'static str>)
    ensures
        match result {
            Some(text) => io_text(gio_kind(kind)) == Some(text@),
            None => io_text(gio_kind(kind)) is None,
        },
{
    match kind {
        GioKind::PermissionDenied => io_reason(IoKind::PermissionDenied),
        GioKind::NotFound => io_reason(IoKind::NotFound),
        GioKind::Exists => io_reason(IoKind::AlreadyExists),
        GioKind::NoSpace => io_reason(IoKind::StorageFull),
        GioKind::ReadOnly => io_reason(IoKind::ReadOnlyFilesystem),
        GioKind::Other => None,
    }
}

fn glycin_reason(failure: ImageFailure) -> (result: Option<&'static str>)
    ensures
        match result {
            Some(text) => image_text(failure) == Some(text@),
            None => image_text(failure) is None,
        },
{
    match failure {
        ImageFailure::Source(kind) => gio_reason(kind),
        ImageFailure::Io(kind) => io_reason(kind),
        ImageFailure::MissingLoader => Some(
            "An image loader is missing. Check that glycin-loaders is installed.",
        ),
        ImageFailure::UnsupportedFormat => Some("No installed image loader supports this format."),
        ImageFailure::Other => None,
    }
}

fn cause_reason(cause: Cause) -> (result: Option<&'static str>)
    ensures
        match result {
            Some(text) => cause_text(cause) == Some(text@),
            None => cause_text(cause) is None,
        },
{
    match cause {
        Cause::Io(kind) => io_reason(kind),
        Cause::Gio(kind) => gio_reason(kind),
        Cause::Image(failure) => glycin_reason(failure),
        Cause::Restore(RestoreError::NotFound) => Some("The file is no longer in the trash."),
        Cause::Restore(RestoreError::DestinationExists) => Some(
            "Another file already exists at the original location.",
        ),
        Cause::Restore(RestoreError::Move) => None,
        Cause::LosslessUnavailable => Some("This image cannot be rotated without losing quality."),
        Cause::Player(PlayerError::SinkUnavailable) | Cause::Player(
            PlayerError::PlaybinUnavailable,
        ) => Some(
            "A required video component is missing. Check the video packages listed in Troubleshooting.",
        ),
        Cause::Player(_) => None,
        Cause::Other => None,
    }
}

/// Says that an operation failed, and why, as far as that can be told plainly.
pub fn message(causes: &Vec<Cause>, operation: &str) -> (result: String)
    ensures
        result@ == match reason(causes@) {
            Some(text) => operation@ + " "@ + text,
            None => operation@,
        },
{
    assert(causes@.skip(0) =~= causes@);
    for i in 0..causes.len()
        invariant
            reason(causes@) == reason(causes@.skip(i as int)),
    {
        assert(causes@.skip(i as int).skip(1) =~= causes@.skip(i + 1));
        if let Some(text) = cause_reason(causes[i]) {
            return operation.to_owned().concat(" ").concat(text);
        }
    }
    assert(causes@.skip(causes@.len() as int).len() == 0);
    operation.to_owned()
}

/// A failure of a file is told by what went wrong.
pub proof fn file_failures_are_told_plainly(kind: IoKind)
    ensures
        io_text(IoKind::PermissionDenied) == Some(
            "You do not have permission to access this file or folder."@,
        ),
        io_text(IoKind::NotFound) == Some("The file or folder is no longer available."@),
        io_text(IoKind::AlreadyExists) == Some("Another file already exists at that location."@),
        io_text(IoKind::StorageFull) == Some("There is not enough free space."@),
        io_text(IoKind::ReadOnlyFilesystem) == Some("This location is read-only."@),
        io_text(kind) is None <==> kind == IoKind::Other,
{
}

/// The desktop's file layer fails for the same reasons and is told of in the same
/// words, and so is an image loader whose file failed.
pub proof fn the_same_failure_is_told_the_same(kind: IoKind)
    ensures
        cause_text(Cause::Io(kind)) == io_text(kind),
        cause_text(Cause::Image(ImageFailure::Io(kind))) == io_text(kind),
        cause_text(Cause::Gio(GioKind::PermissionDenied)) == io_text(IoKind::PermissionDenied),
        cause_text(Cause::Gio(GioKind::NotFound)) == io_text(IoKind::NotFound),
        cause_text(Cause::Gio(GioKind::Exists)) == io_text(IoKind::AlreadyExists),
        cause_text(Cause::Gio(GioKind::NoSpace)) == io_text(IoKind::StorageFull),
        cause_text(Cause::Gio(GioKind::ReadOnly)) == io_text(IoKind::ReadOnlyFilesystem),
        cause_text(Cause::Gio(GioKind::Other)) is None,
        forall|gio: GioKind|
            cause_text(Cause::Image(ImageFailure::Source(gio))) == #[trigger] cause_text(
                Cause::Gio(gio),
            ),
{
}

/// What else can be told: a loader that is missing or knows no such format, a file
/// that cannot come back, a rotation that would lose, a player without its parts.
pub proof fn other_failures_are_told_plainly(error: PlayerError)
    ensures
        cause_text(Cause::Image(ImageFailure::MissingLoader)) == Some(
            "An image loader is missing. Check that glycin-loaders is installed."@,
        ),
        cause_text(Cause::Image(ImageFailure::UnsupportedFormat)) == Some(
            "No installed image loader supports this format."@,
        ),
        cause_text(Cause::Restore(RestoreError::NotFound)) == Some(
            "The file is no longer in the trash."@,
        ),
        cause_text(Cause::Restore(RestoreError::DestinationExists)) == Some(
            "Another file already exists at the original location."@,
        ),
        cause_text(Cause::LosslessUnavailable) == Some(
            "This image cannot be rotated without losing quality."@,
        ),
        cause_text(Cause::Player(PlayerError::SinkUnavailable)) == Some(
            "A required video component is missing. Check the video packages listed in Troubleshooting."@,
        ),
        cause_text(Cause::Player(PlayerError::PlaybinUnavailable)) == cause_text(
            Cause::Player(PlayerError::SinkUnavailable),
        ),
        error != PlayerError::SinkUnavailable && error != PlayerError::PlaybinUnavailable
            ==> cause_text(Cause::Player(error)) is None,
        cause_text(Cause::Restore(RestoreError::Move)) is None,
        cause_text(Cause::Image(ImageFailure::Other)) is None,
        cause_text(Cause::Other) is None,
{
}

/// The first cause that can be told is told; causes that say nothing are passed over.
pub proof fn the_first_reason_is_told(causes: Seq<Cause>, at: int)
    requires
        0 <= at < causes.len(),
        cause_text(causes[at]) is Some,
        forall|i: int| 0 <= i < at ==> cause_text(#[trigger] causes[i]) is None,
    ensures
        reason(causes) == cause_text(causes[at]),
    decreases at,
{
    if at > 0 {
        assert(cause_text(causes[0]) is None);
        let rest = causes.skip(1);
        assert forall|i: int| 0 <= i < at - 1 implies cause_text(#[trigger] rest[i]) is None by {
            assert(rest[i] == causes[i + 1]);
        }
        assert(rest[at - 1] == causes[at]);
        the_first_reason_is_told(rest, at - 1);
    }
}

/// Where no cause can be told, no reason is given.
pub proof fn no_reason_is_made_up(causes: Seq<Cause>)
    requires
        forall|i: int| 0 <= i < causes.len() ==> cause_text(#[trigger] causes[i]) is None,
    ensures
        reason(causes) is None,
    decreases causes.len(),
{
    if causes.len() > 0 {
        assert(cause_text(causes[0]) is None);
        let rest = causes.skip(1);
        assert forall|i: int| 0 <= i < rest.len() implies cause_text(#[trigger] rest[i]) is None by {
            assert(rest[i] == causes[i + 1]);
        }
        no_reason_is_made_up(rest);
    }
}

}
