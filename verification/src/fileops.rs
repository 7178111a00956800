//! Source-media writes: move to trash, restore from trash, and rotate-save.
//! What is to be written where, and what a failure says, is decided here.
use vstd::prelude::*;
use vstd::utf8::encode_utf8;

use crate::folder::{lossy, lossy_text};
use crate::natural::{
    code_points, lexical, lexical_equal, lexical_swapped, lexical_transitive, order_chars,
};
use crate::paths::{
    copy_range, extension, extension_of, file_name, file_name_of, file_stem,
    file_stem_of, join, joined, parent, parent_of, place, rooted, same_path, views, SLASH,
};
use crate::text::{
    bytes_spell, chars_of, copy_chars, decimal_digits, lines, lines_of, push_decimal, runs,
    same_chars, spells, starts_with, text_of,
};

verus! {

/// A file could not be moved to the trash.
#[derive(Debug, Clone, Copy, PartialEq, Eq, Structural)]
pub struct TrashError;

impl TrashError {
    pub fn describe(self, path: &str, source: &str) -> (result: String)
        ensures
            result@ == "could not move "@ + path@ + " to trash: "@ + source@,
    {
        "could not move ".to_owned().concat(path).concat(" to trash: ").concat(source)
    }
}

/// Why a file could not be taken out of the trash.
#[derive(Debug, Clone, Copy, PartialEq, Eq, Structural)]
pub enum RestoreError {
    NotFound,
    DestinationExists,
    Move,
}

impl RestoreError {
    pub open spec fn text(self, path: Seq<char>, source: Seq<char>) -> Seq<char> {
        match self {
            RestoreError::NotFound => path + " is no longer in the trash"@,
            RestoreError::DestinationExists => "could not restore "@ + path
                + " because another file now exists there"@,
            RestoreError::Move => "could not restore "@ + path + ": "@ + source,
        }
    }

    pub fn describe(self, path: &str, source: &str) -> (result: String)
        ensures
            result@ == self.text(path@, source@),
    {
        match self {
            RestoreError::NotFound => path.to_owned().concat(" is no longer in the trash"),
            RestoreError::DestinationExists => "could not restore ".to_owned().concat(path).concat(
                " because another file now exists there",
            ),
            RestoreError::Move => "could not restore ".to_owned().concat(path).concat(
                ": ",
            ).concat(source),
        }
    }

    /// What a failed move out of the trash means: an occupied destination is left alone.
    pub fn of_move(already_exists: bool) -> (result: RestoreError)
        ensures
            result == if already_exists {
                RestoreError::DestinationExists
            } else {
                RestoreError::Move
            },
    {
        if already_exists {
            RestoreError::DestinationExists
        } else {
            RestoreError::Move
        }
    }
}

/// Why a rotation could not be written.
#[derive(Debug, Clone, Copy, PartialEq, Eq, Structural)]
pub enum SaveRotationError {
    Editor,
    Rotation,
    SparseWrite,
    ReadEdited,
    AtomicWrite,
}

impl SaveRotationError {
    pub open spec fn text(self, path: Seq<char>, source: Seq<char>) -> Seq<char> {
        match self {
            SaveRotationError::Editor => "editor failed for "@ + path + ": "@ + source,
            SaveRotationError::Rotation => "rotation failed for "@ + path + ": "@ + source,
            SaveRotationError::SparseWrite => "could not write "@ + path + ": "@ + source,
            SaveRotationError::ReadEdited => "could not read edited image data: "@ + source,
            SaveRotationError::AtomicWrite => "could not write "@ + path + ": "@ + source,
        }
    }

    pub fn describe(self, path: &str, source: &str) -> (result: String)
        ensures
            result@ == self.text(path@, source@),
    {
        let lead = match self {
            SaveRotationError::Editor => "editor failed for ",
            SaveRotationError::Rotation => "rotation failed for ",
            SaveRotationError::SparseWrite => "could not write ",
            SaveRotationError::ReadEdited => {
                return "could not read edited image data: ".to_owned().concat(source);
            },
            SaveRotationError::AtomicWrite => "could not write ",
        };
        lead.to_owned().concat(path).concat(": ").concat(source)
    }
}

/// A turn against the clock, as the editor takes it.
#[derive(Debug, Clone, Copy, PartialEq, Eq, Structural)]
pub enum Rotation {
    Quarter,
    Half,
    ThreeQuarters,
}

impl Rotation {
    /// How many quarter turns against the clock.
    pub open spec fn quarters(self) -> int {
        match self {
            Rotation::Quarter => 1,
            Rotation::Half => 2,
            Rotation::ThreeQuarters => 3,
        }
    }
}

/// The turn that the editor has to make for quarter turns with the clock; nothing
/// is to be written where the image comes back to where it was.
pub fn editor_rotation(cw_quarter_turns: u8) -> (result: Option<Rotation>)
    ensures
        match result {
            Some(rotation) => (cw_quarter_turns as int + rotation.quarters()) % 4 == 0
                && cw_quarter_turns % 4 != 0,
            None => cw_quarter_turns % 4 == 0,
        },
{
    match cw_quarter_turns % 4 {
        1 => Some(Rotation::ThreeQuarters),
        2 => Some(Rotation::Half),
        3 => Some(Rotation::Quarter),
        _ => None,
    }
}

/// The value of a hexadecimal digit.
pub open spec fn hex_digit(byte: u8) -> Option<int> {
    if 48 <= byte <= 57 {
        Some(byte - 48)
    } else if 97 <= byte <= 102 {
        Some(byte - 97 + 10)
    } else if 65 <= byte <= 70 {
        Some(byte - 65 + 10)
    } else {
        None
    }
}

fn hex_value(byte: u8) -> (result: Option<u8>)
    ensures
        match result {
            Some(value) => hex_digit(byte) == Some(value as int) && value < 16,
            None => hex_digit(byte) is None,
        },
{
    if 48 <= byte && byte <= 57 {
        Some(byte - 48)
    } else if 97 <= byte && byte <= 102 {
        Some(byte - 97 + 10)
    } else if 65 <= byte && byte <= 70 {
        Some(byte - 65 + 10)
    } else {
        None
    }
}

/// Whether bytes start with a percent sign and two hexadecimal digits.
pub open spec fn is_escape(bytes: Seq<u8>) -> bool {
    bytes.len() > 2 && bytes[0] == 37 && hex_digit(bytes[1]) is Some && hex_digit(bytes[2]) is Some
}

/// The bytes with every escape replaced by the byte that it stands for. What is no
/// complete escape stays as it is.
pub open spec fn unescaped(bytes: Seq<u8>) -> Seq<u8>
    decreases bytes.len(),
{
    if bytes.len() == 0 {
        Seq::empty()
    } else if is_escape(bytes) {
        seq![(hex_digit(bytes[1]).unwrap() * 16 + hex_digit(bytes[2]).unwrap()) as u8] + unescaped(
            bytes.skip(3),
        )
    } else {
        seq![bytes[0]] + unescaped(bytes.skip(1))
    }
}

/// Decodes the escapes in the path of a trash record.
pub fn percent_decode(text: &str) -> (result: Vec<u8>)
    ensures
        result@ == unescaped(encode_utf8(text@)),
{
    let bytes = text.as_bytes();
    let mut out: Vec<u8> = Vec::new();
    let mut i: usize = 0;
    assert(bytes@.skip(0) == bytes@);
    while i < bytes.len()
        invariant
            i <= bytes@.len(),
            out@ + unescaped(bytes@.skip(i as int)) == unescaped(bytes@),
        decreases bytes@.len() - i,
    {
        let ghost rest = bytes@.skip(i as int);
        let ghost before = out@;
        if bytes[i] == 37 && bytes.len() - i > 2 {
            if let (Some(high), Some(low)) = (hex_value(bytes[i + 1]), hex_value(bytes[i + 2])) {
                assert(is_escape(rest));
                assert(rest.skip(3) == bytes@.skip(i + 3));
                out.push(high * 16 + low);
                i = i + 3;
                assert(out@ + unescaped(bytes@.skip(i as int)) =~= before + unescaped(rest));
                continue ;
            }
        }
        assert(!is_escape(rest));
        assert(rest.skip(1) == bytes@.skip(i + 1));
        out.push(bytes[i]);
        i = i + 1;
        assert(out@ + unescaped(bytes@.skip(i as int)) =~= before + unescaped(rest));
    }
    assert(out@ =~= unescaped(bytes@));
    out
}

/// Bytes that hold no percent sign decode to themselves.
pub proof fn plain_bytes_decode_to_themselves(bytes: Seq<u8>)
    requires
        !bytes.contains(37u8),
    ensures
        unescaped(bytes) == bytes,
    decreases bytes.len(),
{
    if bytes.len() > 0 {
        assert(bytes.contains(bytes[0]));
        let rest = bytes.skip(1);
        assert forall|i: int| 0 <= i < rest.len() implies rest[i] != 37 by {
            assert(bytes.contains(bytes[i + 1]));
        }
        plain_bytes_decode_to_themselves(rest);
        assert(seq![bytes[0]] + rest =~= bytes);
    }
}

/// A record in the `info` directory of a trash directory, with what it says.
#[derive(Debug, PartialEq, Eq)]
pub struct TrashInfo {
    pub trash_dir: Vec<u8>,
    pub name: Vec<u8>,
    pub text: String,
}

/// What a trash record says: where its file was, and when it was deleted.
pub struct Record {
    pub path: Option<Seq<u8>>,
    pub date: Seq<char>,
}

/// What the lines of a record say; a later line replaces an earlier one.
pub open spec fn record(lines: Seq<Seq<char>>) -> Record
    decreases lines.len(),
{
    if lines.len() == 0 {
        Record { path: None, date: Seq::empty() }
    } else {
        let before = record(lines.drop_last());
        let line = lines.last();
        if starts_with(line, "Path="@) {
            Record { path: Some(unescaped(encode_utf8(line.skip(5)))), ..before }
        } else if starts_with(line, "DeletionDate="@) {
            Record { date: line.skip(13), ..before }
        } else {
            before
        }
    }
}

impl TrashInfo {
    pub open spec fn says(self) -> Record {
        record(lines(self.text@))
    }

    /// Where the record is.
    pub open spec fn info_path(self) -> Seq<u8> {
        joined(joined(self.trash_dir@, encode_utf8("info"@)), self.name@)
    }

    /// Where its file is kept.
    pub open spec fn payload(self) -> Option<Seq<u8>> {
        match file_stem(self.info_path()) {
            Some(stem) => Some(joined(joined(self.trash_dir@, encode_utf8("files"@)), stem)),
            None => None,
        }
    }

    /// Where its file was. Mount-level trashes store paths relative to the mount root,
    /// two levels above the trash directory.
    pub open spec fn origin(self) -> Option<Seq<u8>> {
        match self.says().path {
            Some(path) => if rooted(path) {
                Some(path)
            } else {
                match parent(self.trash_dir@) {
                    Some(above) => match parent(above) {
                        Some(top) => Some(joined(top, path)),
                        None => None,
                    },
                    None => None,
                }
            },
            None => None,
        }
    }

    /// Whether this is a record of the file that was at a path.
    pub open spec fn records(self, original: Seq<u8>) -> bool {
        &&& extension(self.info_path()) matches Some(found) && spells(found, "trashinfo"@)
        &&& self.origin() matches Some(origin) && place(origin) == place(original)
        &&& self.payload() is Some
    }

    fn read(&self) -> (result: (Option<Vec<u8>>, Vec<char>))
        ensures
            match result.0 {
                Some(path) => self.says().path == Some(path@),
                None => self.says().path is None,
            },
            result.1@ == self.says().date,
    {
        proof {
            reveal_strlit("Path=");
            reveal_strlit("DeletionDate=");
        }
        let all = lines_of(chars_of(self.text.as_str()).as_slice());
        let ghost said = lines(self.text@);
        let lead = chars_of("Path=");
        let date_lead = chars_of("DeletionDate=");
        let mut path: Option<Vec<u8>> = None;
        let mut date: Vec<char> = Vec::new();
        assert(said.take(0) =~= Seq::empty());
        for i in 0..all.len()
            invariant
                runs(all@) == said,
                all@.len() == said.len(),
                lead@ == "Path="@,
                lead@.len() == 5,
                date_lead@ == "DeletionDate="@,
                date_lead@.len() == 13,
                match path {
                    Some(found) => record(said.take(i as int)).path == Some(found@),
                    None => record(said.take(i as int)).path is None,
                },
                date@ == record(said.take(i as int)).date,
        {
            let line = all[i].as_slice();
            proof {
                assert(said[i as int] == line@);
                assert(said.take(i + 1).drop_last() =~= said.take(i as int));
                assert(said.take(i + 1).last() == line@);
            }
            if begins_with(line, lead.as_slice()) {
                let value = copy_chars(line, 5, line.len());
                assert(value@ =~= line@.skip(5));
                path = Some(percent_decode(text_of(value.as_slice()).as_str()));
            } else if begins_with(line, date_lead.as_slice()) {
                date = copy_chars(line, 13, line.len());
                assert(date@ =~= line@.skip(13));
            }
        }
        assert(said.take(said.len() as int) =~= said);
        (path, date)
    }

    fn info_file(&self) -> (result: Vec<u8>)
        ensures
            result@ == self.info_path(),
    {
        join(join(self.trash_dir.as_slice(), "info".as_bytes()).as_slice(), self.name.as_slice())
    }

    /// The file that this record keeps, and when it was deleted, where it is a record
    /// of the file that was at a path.
    fn examine(&self, original: &[u8]) -> (result: Option<(Vec<u8>, Vec<char>)>)
        ensures
            match result {
                Some(found) => self.records(original@) && self.payload() == Some(found.0@)
                    && found.1@ == self.says().date,
                None => !self.records(original@),
            },
    {
        let info = self.info_file();
        match extension_of(info.as_slice()) {
            Some(found) => if !bytes_spell(found.as_slice(), "trashinfo") {
                return None;
            },
            None => {
                return None;
            },
        }
        let (path, date) = self.read();
        let path = match path {
            Some(path) => path,
            None => {
                return None;
            },
        };
        let origin = if path.len() > 0 && path[0] == SLASH {
            path
        } else {
            let above = match parent_of(self.trash_dir.as_slice()) {
                Some(above) => above,
                None => {
                    return None;
                },
            };
            match parent_of(above.as_slice()) {
                Some(top) => join(top.as_slice(), path.as_slice()),
                None => {
                    return None;
                },
            }
        };
        if !same_path(origin.as_slice(), original) {
            return None;
        }
        match file_stem_of(info.as_slice()) {
            Some(stem) => {
                let kept = join(
                    join(self.trash_dir.as_slice(), "files".as_bytes()).as_slice(),
                    stem.as_slice(),
                );
                Some((kept, date))
            },
            None => None,
        }
    }
}

fn begins_with(text: &[char], prefix: &[char]) -> (result: bool)
    ensures
        result == starts_with(text@, prefix@),
        result ==> prefix@.len() <= text@.len(),
{
    if prefix.len() > text.len() {
        return false;
    }
    let start = copy_chars(text, 0, prefix.len());
    assert(start@ =~= text@.take(prefix@.len() as int));
    same_chars(start.as_slice(), prefix)
}

/// Whether one deletion date is later than another. ISO 8601 dates compare correctly
/// as texts.
pub open spec fn later(date: Seq<char>, other: Seq<char>) -> bool {
    lexical(code_points(date), code_points(other)) > 0
}

/// Which record is the one to restore from: the one that was deleted last, and the
/// first of those where several were deleted at once.
pub open spec fn newest(list: Seq<TrashInfo>, original: Seq<u8>) -> Option<int>
    decreases list.len(),
{
    if list.len() == 0 {
        None
    } else {
        let before = newest(list.drop_last(), original);
        let replaces = match before {
            Some(at) => later(list.last().says().date, list[at].says().date),
            None => true,
        };
        if list.last().records(original) && replaces {
            Some(list.len() - 1)
        } else {
            before
        }
    }
}

/// The record to restore from is a record of the file, none of them is later, and
/// none before it is as late. Where there is none, no record is of the file.
pub proof fn newest_is_the_latest(list: Seq<TrashInfo>, original: Seq<u8>)
    ensures
        match newest(list, original) {
            Some(at) => {
                &&& 0 <= at < list.len()
                &&& list[at].records(original)
                &&& forall|i: int|
                    0 <= i < list.len() && (#[trigger] list[i]).records(original) ==> !later(
                        list[i].says().date,
                        list[at].says().date,
                    )
                &&& forall|i: int|
                    0 <= i < at && (#[trigger] list[i]).records(original) ==> later(
                        list[at].says().date,
                        list[i].says().date,
                    )
            },
            None => forall|i: int|
                0 <= i < list.len() ==> !(#[trigger] list[i]).records(original),
        },
    decreases list.len(),
{
    if list.len() > 0 {
        let shorter = list.drop_last();
        newest_is_the_latest(shorter, original);
        assert forall|i: int| 0 <= i < shorter.len() implies list[i] == shorter[i] by {}
        let last = list.last();
        match newest(list, original) {
            Some(at) => {
                assert forall|i: int|
                    0 <= i < list.len() && (#[trigger] list[i]).records(original) implies !later(
                    list[i].says().date,
                    list[at].says().date,
                ) by {
                    lexical_equal(
                        code_points(list[i].says().date),
                        code_points(list[i].says().date),
                    );
                    if i < shorter.len() && at == list.len() - 1 {
                        if let Some(best) = newest(shorter, original) {
                            let x = code_points(shorter[i].says().date);
                            let b = code_points(shorter[best].says().date);
                            let l = code_points(last.says().date);
                            lexical_swapped(b, l);
                            lexical_transitive(x, b, l);
                        }
                    }
                }
                assert forall|i: int|
                    0 <= i < at && (#[trigger] list[i]).records(original) implies later(
                    list[at].says().date,
                    list[i].says().date,
                ) by {
                    if at == list.len() - 1 {
                        if let Some(best) = newest(shorter, original) {
                            let x = code_points(shorter[i].says().date);
                            let b = code_points(shorter[best].says().date);
                            let l = code_points(last.says().date);
                            lexical_swapped(b, l);
                            lexical_transitive(x, b, l);
                            lexical_swapped(x, l);
                        }
                    }
                }
            },
            None => {},
        }
    }
}

/// Finds what to restore among the records of all trash directories: the kept file
/// and the record of it.
pub fn find_trashed_file(original: &[u8], list: &Vec<TrashInfo>) -> (result: Option<
    (Vec<u8>, Vec<u8>),
>)
    ensures
        match (result, newest(list@, original@)) {
            (Some(found), Some(at)) => list@[at].payload() == Some(found.0@) && found.1@
                == list@[at].info_path(),
            (None, None) => true,
            _ => false,
        },
{
    let mut best: Option<(usize, Vec<u8>, Vec<char>)> = None;
    assert(list@.take(0) =~= Seq::empty());
    for i in 0..list.len()
        invariant
            match (&best, newest(list@.take(i as int), original@)) {
                (Some(found), Some(at)) => found.0 == at && at < i && list@[at].payload() == Some(
                    found.1@,
                ) && found.2@ == list@[at].says().date,
                (None, None) => true,
                _ => false,
            },
    {
        proof {
            assert(list@.take(i + 1).drop_last() =~= list@.take(i as int));
            assert(list@.take(i + 1).last() == list@[i as int]);
            if let Some(found) = &best {
                assert(list@.take(i + 1)[found.0 as int] == list@[found.0 as int]);
            }
        }
        match list[i].examine(original) {
            Some((file, date)) => {
                let replaces = match &best {
                    Some(found) => order_chars(date.as_slice(), found.2.as_slice()) > 0,
                    None => true,
                };
                if replaces {
                    best = Some((i, file, date));
                }
            },
            None => {},
        }
    }
    assert(list@.take(list@.len() as int) =~= list@);
    match best {
        Some((at, file, _)) => Some((file, list[at].info_file())),
        None => None,
    }
}

/// The trash directories that could hold a file: the home trash, and those at the top
/// of the file's mount point.
pub open spec fn trash_dirs(data_dir: Seq<u8>, mount: Option<(Seq<u8>, u32)>) -> Seq<Seq<u8>> {
    let home = joined(data_dir, encode_utf8("Trash"@));
    match mount {
        Some((top, uid)) => {
            let digits = decimal_digits(uid as nat);
            seq![
                home,
                joined(joined(top, encode_utf8(".Trash"@)), encode_utf8(digits)),
                joined(top, encode_utf8(".Trash-"@ + digits)),
            ]
        },
        None => seq![home],
    }
}

/// The trash directories for a file, given the user's data directory, and the top of
/// the file's mount with the user's number where both are known.
pub fn trash_dirs_for(data_dir: &[u8], mount: Option<(&[u8], u32)>) -> (result: Vec<Vec<u8>>)
    ensures
        views(result@) == trash_dirs(
            data_dir@,
            match mount {
                Some(found) => Some((found.0@, found.1)),
                None => None,
            },
        ),
{
    let mut result: Vec<Vec<u8>> = Vec::new();
    result.push(join(data_dir, "Trash".as_bytes()));
    if let Some((top, uid)) = mount {
        let mut digits = String::new();
        push_decimal(&mut digits, uid as u64);
        assert(digits@ =~= decimal_digits(uid as nat));
        result.push(
            join(join(top, ".Trash".as_bytes()).as_slice(), digits.as_str().as_bytes()),
        );
        let name = ".Trash-".to_owned().concat(digits.as_str());
        result.push(join(top, name.as_str().as_bytes()));
    }
    assert(views(result@) =~= trash_dirs(
        data_dir@,
        match mount {
            Some(found) => Some((found.0@, found.1)),
            None => None,
        },
    ));
    result
}

/// How many of the directories above a file, nearest first, lie on the device of the
/// nearest one, without a gap.
pub open spec fn same_device(devices: Seq<Option<u64>>) -> int
    decreases devices.len(),
{
    if devices.len() == 0 || devices[0] is None {
        0
    } else if devices.last() == devices[0] && same_device(devices.drop_last()) == devices.len() - 1 {
        devices.len() as int
    } else {
        same_device(devices.drop_last())
    }
}

/// Which directory above a file is the top of its mount: the highest one on the same
/// device. There is none where the nearest directory cannot be looked at.
pub fn mount_topdir(devices: &Vec<Option<u64>>) -> (result: Option<usize>)
    ensures
        match result {
            Some(at) => at == same_device(devices@) - 1 && at < devices@.len(),
            None => same_device(devices@) == 0,
        },
{
    if devices.len() == 0 {
        return None;
    }
    let device = match devices[0] {
        Some(device) => device,
        None => {
            proof {
                no_device(devices@);
            }
            return None;
        },
    };
    let mut count: usize = 1;
    proof {
        let nearest = devices@.take(1);
        assert(same_device(nearest.drop_last()) == 0);
        assert(nearest.last() == nearest[0] && nearest[0] == devices@[0]);
    }
    while count < devices.len() && is_device(devices[count], device)
        invariant
            1 <= count <= devices@.len(),
            devices@[0] == Some(device),
            same_device(devices@.take(count as int)) == count,
        decreases devices@.len() - count,
    {
        assert(devices@.take(count + 1).drop_last() =~= devices@.take(count as int));
        count = count + 1;
    }
    proof {
        stops_at(devices@, count as int);
    }
    Some(count - 1)
}

fn is_device(found: Option<u64>, device: u64) -> (result: bool)
    ensures
        result == (found == Some(device)),
{
    match found {
        Some(other) => other == device,
        None => false,
    }
}

proof fn no_device(devices: Seq<Option<u64>>)
    requires
        devices.len() > 0,
        devices[0] is None,
    ensures
        same_device(devices) == 0,
{
}

proof fn stops_at(devices: Seq<Option<u64>>, count: int)
    requires
        1 <= count <= devices.len(),
        devices[0] is Some,
        same_device(devices.take(count)) == count,
        count == devices.len() || devices[count] != devices[0],
    ensures
        same_device(devices) == count,
    decreases devices.len(),
{
    if count == devices.len() {
        assert(devices.take(count) =~= devices);
    } else {
        let shorter = devices.drop_last();
        if count == shorter.len() {
            assert(devices.take(count) =~= shorter);
        } else {
            assert(shorter.take(count) =~= devices.take(count));
            stops_at(shorter, count);
        }
    }
}

/// Every directory up to the top of the mount is on one device, and the one above it,
/// if any, is not.
pub proof fn mount_top_is_highest(devices: Seq<Option<u64>>)
    ensures
        0 <= same_device(devices) <= devices.len(),
        forall|i: int| 0 <= i < same_device(devices) ==> #[trigger] devices[i] == devices[0],
        0 < same_device(devices) < devices.len() ==> devices[same_device(devices)] != devices[0],
        devices.len() > 0 && devices[0] is Some ==> same_device(devices) > 0,
    decreases devices.len(),
{
    if devices.len() > 0 && devices[0] is Some {
        let shorter = devices.drop_last();
        mount_top_is_highest(shorter);
        assert forall|i: int| 0 <= i < same_device(devices) implies #[trigger] devices[i]
            == devices[0] by {
            if i < shorter.len() {
                assert(shorter[i] == devices[i]);
            }
        }
        if same_device(devices) < shorter.len() && same_device(devices) > 0 {
            assert(shorter[same_device(shorter)] == devices[same_device(shorter)]);
        }
    }
}

/// The position of the first zero byte, or the length.
pub open spec fn zero_at(bytes: Seq<u8>) -> int
    decreases bytes.len(),
{
    if bytes.len() == 0 || bytes[0] == 0 {
        0
    } else {
        1 + zero_at(bytes.skip(1))
    }
}

proof fn zero_at_bounds(bytes: Seq<u8>)
    ensures
        0 <= zero_at(bytes) <= bytes.len(),
        forall|i: int| 0 <= i < zero_at(bytes) ==> bytes[i] != 0,
        zero_at(bytes) < bytes.len() ==> bytes[zero_at(bytes)] == 0,
    decreases bytes.len(),
{
    if bytes.len() > 0 && bytes[0] != 0 {
        let rest = bytes.skip(1);
        zero_at_bounds(rest);
        assert forall|i: int| 0 <= i < zero_at(bytes) implies bytes[i] != 0 by {
            if i > 0 {
                assert(rest[i - 1] == bytes[i]);
            }
        }
    }
}

proof fn zero_at_unique(bytes: Seq<u8>, at: int)
    requires
        0 <= at <= bytes.len(),
        forall|i: int| 0 <= i < at ==> bytes[i] != 0,
        at < bytes.len() ==> bytes[at] == 0,
    ensures
        zero_at(bytes) == at,
{
    zero_at_bounds(bytes);
}

/// Whether an attribute belongs to the user.
pub open spec fn is_user_attribute(name: Seq<u8>) -> bool {
    name.len() >= 5 && spells(name.take(5), "user."@)
}

/// The user's attributes in a list of names that end at zero bytes.
pub open spec fn user_names(names: Seq<u8>) -> Seq<Seq<u8>>
    decreases names.len(),
    via user_names_shrink
{
    let at = zero_at(names);
    let rest = if at < names.len() {
        user_names(names.skip(at + 1))
    } else {
        Seq::empty()
    };
    if is_user_attribute(names.take(at)) {
        seq![names.take(at)] + rest
    } else {
        rest
    }
}

#[via_fn]
proof fn user_names_shrink(names: Seq<u8>) {
    zero_at_bounds(names);
}

/// The attributes that a replacement file keeps: those of the user, in their order.
pub fn user_attributes(names: &[u8]) -> (result: Vec<Vec<u8>>)
    ensures
        views(result@) == user_names(names@),
{
    let mut result: Vec<Vec<u8>> = Vec::new();
    let mut start: usize = 0;
    assert(names@.skip(0) =~= names@);
    assert(views(result@) + user_names(names@) =~= user_names(names@));
    loop
        invariant_except_break
            start <= names@.len(),
            views(result@) + user_names(names@.skip(start as int)) == user_names(names@),
        ensures
            views(result@) == user_names(names@),
        decreases names@.len() - start,
    {
        let ghost rest = names@.skip(start as int);
        let ghost before = views(result@);
        let mut end: usize = start;
        while end < names.len() && names[end] != 0
            invariant
                start <= end <= names@.len(),
                rest == names@.skip(start as int),
                forall|i: int| 0 <= i < end - start ==> rest[i] != 0,
            decreases names@.len() - end,
        {
            end = end + 1;
        }
        proof {
            zero_at_unique(rest, end - start);
        }
        let name = copy_range(names, start, end);
        assert(name@ =~= rest.take(end - start));
        if has_user_prefix(name.as_slice()) {
            result.push(name);
            assert(views(result@) =~= before + seq![name@]);
        }
        if end == names.len() {
            assert(views(result@) =~= before + user_names(rest));
            break ;
        }
        assert(rest.skip(end - start + 1) =~= names@.skip(end + 1));
        start = end + 1;
        assert(views(result@) + user_names(names@.skip(start as int)) =~= before + user_names(rest));
    }
    result
}

fn has_user_prefix(name: &[u8]) -> (result: bool)
    ensures
        result == is_user_attribute(name@),
{
    if name.len() < 5 {
        return false;
    }
    let start = copy_range(name, 0, 5);
    assert(start@ =~= name@.take(5));
    bytes_spell(start.as_slice(), "user.")
}

/// How the name of the file starts in which a replacement is staged, next to its
/// target.
pub fn staged_prefix(target: &[u8]) -> (result: String)
    ensures
        result@ == "."@ + lossy_text(
            match file_name(target@) {
                Some(name) => name,
                None => Seq::empty(),
            },
        ) + ".open-mpv-"@,
{
    let name = match file_name_of(target) {
        Some(name) => name,
        None => Vec::new(),
    };
    ".".to_owned().concat(lossy(name.as_slice()).as_str()).concat(".open-mpv-")
}

/// A hexadecimal digit stands for its value, in small letters and in capitals.
pub proof fn hexadecimal_digits_have_values(value: u8)
    ensures
        value < 10 ==> hex_digit((48 + value) as u8) == Some(value as int),
        10 <= value < 16 ==> hex_digit((97 + value - 10) as u8) == Some(value as int),
        10 <= value < 16 ==> hex_digit((65 + value - 10) as u8) == Some(value as int),
        hex_digit(value) is Some ==> 0 <= hex_digit(value)->0 < 16,
        hex_digit(37) is None,
        hex_digit(47) is None && hex_digit(58) is None && hex_digit(64) is None && hex_digit(71)
            is None && hex_digit(96) is None && hex_digit(103) is None,
{
}

/// An escape stands for one byte, its first digit counting sixteen times its second;
/// what follows is read on its own. A percent sign without two digits stands for
/// itself.
pub proof fn escapes_stand_for_bytes(high: u8, low: u8, rest: Seq<u8>, byte: u8)
    ensures
        hex_digit(high) is Some && hex_digit(low) is Some ==> unescaped(
            seq![37u8, high, low] + rest,
        ) == seq![(16 * hex_digit(high)->0 + hex_digit(low)->0) as u8] + unescaped(rest),
        hex_digit(high) is None || hex_digit(low) is None ==> unescaped(
            seq![37u8, high, low] + rest,
        ) == seq![37u8] + unescaped(seq![high, low] + rest),
        byte != 37 ==> unescaped(seq![byte] + rest) == seq![byte] + unescaped(rest),
        unescaped(seq![37u8]) == seq![37u8],
        unescaped(seq![37u8, high]) == seq![37u8] + unescaped(seq![high]),
{
    let full = seq![37u8, high, low] + rest;
    assert(full[0] == 37 && full[1] == high && full[2] == low);
    assert(full.skip(3) =~= rest);
    assert(full.skip(1) =~= seq![high, low] + rest);
    let one = seq![byte] + rest;
    assert(one[0] == byte);
    assert(one.skip(1) =~= rest);
    let sign = seq![37u8];
    assert(sign.skip(1) =~= Seq::<u8>::empty());
    assert(unescaped(Seq::<u8>::empty()) =~= Seq::<u8>::empty());
    assert(unescaped(sign) =~= seq![37u8]);
    let short = seq![37u8, high];
    assert(short.skip(1) =~= seq![high]);
}

/// Each line of a record says one thing: where the file was, or when it was deleted.
/// The last word counts, and other lines say nothing.
pub proof fn records_are_read_by_line(before: Seq<Seq<char>>, text: Seq<char>, other: Seq<char>)
    ensures
        record(before.push("Path="@ + text)).path == Some(unescaped(encode_utf8(text))),
        record(before.push("Path="@ + text)).date == record(before).date,
        record(before.push("DeletionDate="@ + text)).date == text,
        record(before.push("DeletionDate="@ + text)).path == record(before).path,
        !starts_with(other, "Path="@) && !starts_with(other, "DeletionDate="@) ==> record(
            before.push(other),
        ) == record(before),
        record(Seq::empty()).path is None,
{
    reveal_strlit("Path=");
    reveal_strlit("DeletionDate=");
    let path = "Path="@ + text;
    let date = "DeletionDate="@ + text;
    assert(path.take(5) =~= "Path="@);
    assert(path.skip(5) =~= text);
    assert(date.take(13) =~= "DeletionDate="@);
    assert(date.skip(13) =~= text);
    assert(date[0] == 'D');
    assert(!starts_with(date, "Path="@)) by {
        assert(date.take(5)[0] == 'D');
        assert("Path="@[0] == 'P');
    }
    assert(before.push(path).drop_last() =~= before);
    assert(before.push(date).drop_last() =~= before);
    assert(before.push(other).drop_last() =~= before);
}

/// A record `NAME.trashinfo` lies in `info`, and its file is `NAME` in `files` beside
/// it.
pub proof fn records_lie_beside_their_files(info: TrashInfo)
    ensures
        info.info_path() == joined(joined(info.trash_dir@, encode_utf8("info"@)), info.name@),
        info.payload() is Some <==> file_stem(info.info_path()) is Some,
        info.payload() is Some ==> info.payload()->0 == joined(
            joined(info.trash_dir@, encode_utf8("files"@)),
            file_stem(info.info_path())->0,
        ),
{
}

/// A file goes back to the path that its record gives; a relative path starts at the
/// top of the mount, two levels above the trash directory.
pub proof fn files_go_back_where_they_were(info: TrashInfo, path: Seq<u8>, above: Seq<u8>, top: Seq<u8>)
    requires
        info.says().path == Some(path),
    ensures
        rooted(path) ==> info.origin() == Some(path),
        !rooted(path) && parent(info.trash_dir@) == Some(above) && parent(above) == Some(top)
            ==> info.origin() == Some(joined(top, path)),
        !rooted(path) && parent(info.trash_dir@) is None ==> info.origin() is None,
{
}

/// A record without a path is a record of nothing, and so is a file that is not named
/// as records are.
pub proof fn records_are_of_one_file(info: TrashInfo, original: Seq<u8>)
    ensures
        info.says().path is None ==> !info.records(original),
        info.records(original) ==> extension(info.info_path()) is Some && spells(
            extension(info.info_path())->0,
            "trashinfo"@,
        ),
        info.records(original) ==> info.origin() is Some && place(info.origin()->0) == place(
            original,
        ) && info.payload() is Some,
        info.says().path == Some(original) && rooted(original) && info.payload() is Some
            && extension(info.info_path()) is Some && spells(
            extension(info.info_path())->0,
            "trashinfo"@,
        ) ==> info.records(original),
{
}

/// Of two dates the one with the larger figure at the first difference is later, and
/// none is later than itself.
pub proof fn later_dates_have_larger_figures(
    common: Seq<char>,
    smaller: char,
    larger: char,
    left: Seq<char>,
    right: Seq<char>,
)
    requires
        (smaller as int) < larger as int,
    ensures
        later(common + seq![larger] + right, common + seq![smaller] + left),
        !later(common + seq![smaller] + left, common + seq![larger] + right),
        !later(common, common),
{
    crate::natural::the_first_difference_decides(
        code_points(common),
        smaller as int,
        larger as int,
        code_points(left),
        code_points(right),
    );
    assert(code_points(common + seq![smaller] + left) =~= code_points(common)
        + seq![smaller as int] + code_points(left));
    assert(code_points(common + seq![larger] + right) =~= code_points(common)
        + seq![larger as int] + code_points(right));
}

/// Trash is looked for at home first, then at the top of the mount, shared and then
/// private; without a mount only at home.
pub proof fn trash_is_looked_for_at_home_first(data_dir: Seq<u8>, top: Seq<u8>, uid: u32)
    ensures
        trash_dirs(data_dir, None).len() == 1,
        trash_dirs(data_dir, None)[0] == joined(data_dir, encode_utf8("Trash"@)),
        trash_dirs(data_dir, Some((top, uid))).len() == 3,
        trash_dirs(data_dir, Some((top, uid)))[0] == joined(data_dir, encode_utf8("Trash"@)),
        trash_dirs(data_dir, Some((top, uid)))[1] == joined(
            joined(top, encode_utf8(".Trash"@)),
            encode_utf8(decimal_digits(uid as nat)),
        ),
        trash_dirs(data_dir, Some((top, uid)))[2] == joined(
            top,
            encode_utf8(".Trash-"@ + decimal_digits(uid as nat)),
        ),
{
}

/// The user's attributes are kept and no others: names end at zero bytes, and those
/// of the user begin with `user.`.
pub proof fn only_user_attributes_are_kept(name: Seq<u8>, rest: Seq<u8>)
    requires
        forall|i: int| 0 <= i < name.len() ==> #[trigger] name[i] != 0,
    ensures
        name.len() >= 5 && name[0] == 117 && name[1] == 115 && name[2] == 101 && name[3] == 114
            && name[4] == 46 ==> user_names(name + seq![0u8] + rest) == seq![name] + user_names(
            rest,
        ),
        !(name.len() >= 5 && name[0] == 117 && name[1] == 115 && name[2] == 101 && name[3] == 114
            && name[4] == 46) ==> user_names(name + seq![0u8] + rest) == user_names(rest),
{
    reveal_strlit("user.");
    let all = name + seq![0u8] + rest;
    zero_at_unique(all, name.len() as int);
    assert(all.take(name.len() as int) =~= name);
    assert(all.skip(name.len() as int + 1) =~= rest);
    let word = "user."@;
    assert(word[0] == 'u' && word[1] == 's' && word[2] == 'e' && word[3] == 'r' && word[4] == '.');
    if name.len() >= 5 {
        let head = name.take(5);
        assert(head[0] == name[0] && head[1] == name[1] && head[2] == name[2] && head[3] == name[3]
            && head[4] == name[4]);
    }
}

/// What a failed restore says.
pub proof fn restore_failures_are_told(path: Seq<char>, source: Seq<char>)
    ensures
        RestoreError::NotFound.text(path, source) == path + " is no longer in the trash"@,
        RestoreError::DestinationExists.text(path, source) == "could not restore "@ + path
            + " because another file now exists there"@,
        RestoreError::Move.text(path, source) == "could not restore "@ + path + ": "@ + source,
{
}

/// What a failed save says.
pub proof fn save_failures_are_told(path: Seq<char>, source: Seq<char>)
    ensures
        SaveRotationError::Editor.text(path, source) == "editor failed for "@ + path + ": "@
            + source,
        SaveRotationError::Rotation.text(path, source) == "rotation failed for "@ + path + ": "@
            + source,
        SaveRotationError::SparseWrite.text(path, source) == "could not write "@ + path + ": "@
            + source,
        SaveRotationError::ReadEdited.text(path, source) == "could not read edited image data: "@
            + source,
        SaveRotationError::AtomicWrite.text(path, source) == "could not write "@ + path + ": "@
            + source,
{
}

/// The turns that the editor makes are one, two and three quarters.
pub proof fn editor_turns_are_quarters(rotation: Rotation)
    ensures
        rotation == Rotation::Quarter <==> rotation.quarters() == 1,
        rotation == Rotation::Half <==> rotation.quarters() == 2,
        rotation == Rotation::ThreeQuarters <==> rotation.quarters() == 3,
{
}

}
