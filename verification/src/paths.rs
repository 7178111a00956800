//! Unix paths as plain bytes.
//!
//! A path is read as a sequence of parts between slashes. Two paths are the
//! same when both or neither start at the root and their parts agree, so
//! repeated slashes, trailing slashes and inner `.` parts do not matter.
use vstd::prelude::*;

verus! {

pub const SLASH: u8 = 47;

pub const DOT: u8 = 46;

/// What a path stands for: whether it starts at the root, and its parts.
#[verifier::ext_equal]
pub struct Place {
    pub rooted: bool,
    pub parts: Seq<Seq<u8>>,
}

/// The position of the last slash, or -1.
pub open spec fn last_slash(path: Seq<u8>) -> int
    decreases path.len(),
{
    if path.len() == 0 {
        -1
    } else if path.last() == SLASH {
        path.len() - 1
    } else {
        last_slash(path.drop_last())
    }
}

/// The single part `.`.
pub open spec fn dot() -> Seq<u8> {
    seq![DOT]
}

/// The single part `..`.
pub open spec fn dot_dot() -> Seq<u8> {
    seq![DOT, DOT]
}

/// Whether the text between two slashes is a part: it is not empty, and `.`
/// counts only at the very start of a path.
pub open spec fn is_part(text: Seq<u8>, first: bool) -> bool {
    text.len() > 0 && (text != dot() || first)
}

/// The parts of a path, in order.
pub open spec fn parts(path: Seq<u8>) -> Seq<Seq<u8>>
    decreases path.len(),
    via parts_shrinks
{
    let slash = last_slash(path);
    let tail = path.skip(slash + 1);
    let before = if slash >= 0 {
        parts(path.take(slash))
    } else {
        Seq::empty()
    };
    if is_part(tail, slash < 0) {
        before.push(tail)
    } else {
        before
    }
}

#[via_fn]
proof fn parts_shrinks(path: Seq<u8>) {
    last_slash_bounds(path);
}

proof fn last_slash_bounds(path: Seq<u8>)
    ensures
        -1 <= last_slash(path) < path.len(),
        last_slash(path) >= 0 ==> path[last_slash(path)] == SLASH,
        forall|i: int| last_slash(path) < i < path.len() ==> path[i] != SLASH,
    decreases path.len(),
{
    if path.len() > 0 && path.last() != SLASH {
        let shorter = path.drop_last();
        last_slash_bounds(shorter);
        assert forall|i: int| last_slash(path) < i < path.len() implies path[i] != SLASH by {
            if i < path.len() - 1 {
                assert(shorter[i] == path[i]);
            }
        }
    }
}

proof fn last_slash_unique(path: Seq<u8>, slash: int)
    requires
        -1 <= slash < path.len(),
        slash >= 0 ==> path[slash] == SLASH,
        forall|i: int| slash < i < path.len() ==> path[i] != SLASH,
    ensures
        last_slash(path) == slash,
{
    last_slash_bounds(path);
}

pub open spec fn rooted(path: Seq<u8>) -> bool {
    path.len() > 0 && path[0] == SLASH
}

/// What the bytes of a path stand for.
pub open spec fn place(path: Seq<u8>) -> Place {
    Place { rooted: rooted(path), parts: parts(path) }
}

/// The place that holds a path's last part; the root and the empty path have none.
pub open spec fn parent_place(path: Seq<u8>) -> Option<Place> {
    if parts(path).len() > 0 {
        Some(Place { rooted: rooted(path), parts: parts(path).drop_last() })
    } else {
        None
    }
}

/// The last part of a path where it names something: neither `.` nor `..`.
pub open spec fn file_name(path: Seq<u8>) -> Option<Seq<u8>> {
    let all = parts(path);
    if all.len() > 0 && all.last() != dot() && all.last() != dot_dot() {
        Some(all.last())
    } else {
        None
    }
}

/// The position of the last dot, or -1.
pub open spec fn last_dot(name: Seq<u8>) -> int
    decreases name.len(),
{
    if name.len() == 0 {
        -1
    } else if name.last() == DOT {
        name.len() - 1
    } else {
        last_dot(name.drop_last())
    }
}

/// What follows the last dot of a file name that does not start with it.
pub open spec fn extension(path: Seq<u8>) -> Option<Seq<u8>> {
    match file_name(path) {
        Some(name) => if last_dot(name) > 0 {
            Some(name.skip(last_dot(name) + 1))
        } else {
            None
        },
        None => None,
    }
}

/// The file name without its extension.
pub open spec fn file_stem(path: Seq<u8>) -> Option<Seq<u8>> {
    match file_name(path) {
        Some(name) => if last_dot(name) > 0 {
            Some(name.take(last_dot(name)))
        } else {
            Some(name)
        },
        None => None,
    }
}

/// A name that an entry of a directory can have.
pub open spec fn is_plain_name(name: Seq<u8>) -> bool {
    &&& name.len() > 0
    &&& !name.contains(SLASH)
    &&& name != dot()
    &&& name != dot_dot()
}

/// The path of an entry of a directory.
pub open spec fn joined(directory: Seq<u8>, name: Seq<u8>) -> Seq<u8> {
    if directory.len() == 0 || directory.last() == SLASH {
        directory + name
    } else {
        directory.push(SLASH) + name
    }
}

/// Joining a name to a directory adds one part; the directory is its parent.
pub proof fn joined_place(directory: Seq<u8>, name: Seq<u8>)
    requires
        is_plain_name(name),
    ensures
        place(joined(directory, name)) == (Place {
            rooted: rooted(directory),
            parts: parts(directory).push(name),
        }),
        parent_place(joined(directory, name)) == Some(place(directory)),
        file_name(joined(directory, name)) == Some(name),
{
    let path = joined(directory, name);
    if directory.len() == 0 {
        assert(path == name);
        assert forall|i: int| -1 < i < path.len() implies path[i] != SLASH by {
            assert(name.contains(name[i]));
        }
        last_slash_unique(path, -1);
        assert(path.skip(0) == name);
        assert(parts(directory) == Seq::<Seq<u8>>::empty());
        assert(name.contains(name[0]));
    } else {
        let slash = path.len() - name.len() - 1;
        assert forall|i: int| slash < i < path.len() implies path[i] != SLASH by {
            assert(path[i] == name[i - slash - 1]);
            assert(name.contains(name[i - slash - 1]));
        }
        last_slash_unique(path, slash);
        assert(path.skip(slash + 1) == name);
        if directory.last() == SLASH {
            last_slash_unique(directory, directory.len() - 1);
            assert(path.take(slash) == directory.take(directory.len() - 1));
            assert(directory.skip(directory.len() as int).len() == 0);
            assert(parts(directory) == parts(directory.drop_last()));
        } else {
            assert(path.take(slash) == directory);
        }
    }
    assert(parts(directory).push(name).drop_last() == parts(directory));
}

/// Distinct plain names give distinct places in one directory.
pub proof fn joined_distinct(directory: Seq<u8>, left: Seq<u8>, right: Seq<u8>)
    requires
        is_plain_name(left),
        is_plain_name(right),
        place(joined(directory, left)) == place(joined(directory, right)),
    ensures
        left == right,
{
    joined_place(directory, left);
    joined_place(directory, right);
    let all = parts(directory);
    assert(all.push(left).last() == all.push(right).last());
}

/// Whether two byte runs are the same.
pub fn same_bytes(left: &[u8], right: &[u8]) -> (result: bool)
    ensures
        result == (left@ == right@),
{
    if left.len() != right.len() {
        return false;
    }
    for i in 0..left.len()
        invariant
            left.len() == right.len(),
            forall|j: int| 0 <= j < i ==> left@[j] == right@[j],
    {
        if left[i] != right[i] {
            return false;
        }
    }
    assert(left@ =~= right@);
    true
}

/// A copy of part of a byte run.
pub fn copy_range(bytes: &[u8], start: usize, end: usize) -> (result: Vec<u8>)
    requires
        start <= end <= bytes@.len(),
    ensures
        result@ == bytes@.subrange(start as int, end as int),
{
    let mut result: Vec<u8> = Vec::new();
    for i in start..end
        invariant
            end <= bytes@.len(),
            result@ == bytes@.subrange(start as int, i as int),
    {
        result.push(bytes[i]);
        assert(result@ == bytes@.subrange(start as int, i + 1));
    }
    result
}

/// A copy of a byte run.
pub fn copy_bytes(bytes: &[u8]) -> (result: Vec<u8>)
    ensures
        result@ == bytes@,
{
    let result = copy_range(bytes, 0, bytes.len());
    assert(result@ == bytes@);
    result
}

fn find_last(bytes: &[u8], end: usize, wanted: u8) -> (result: Option<usize>)
    requires
        end <= bytes@.len(),
    ensures
        match result {
            Some(at) => at < end && bytes@[at as int] == wanted && forall|i: int|
                at < i < end ==> bytes@[i] != wanted,
            None => forall|i: int| 0 <= i < end ==> bytes@[i] != wanted,
        },
{
    let mut at: usize = end;
    while at > 0
        invariant
            at <= end <= bytes@.len(),
            forall|i: int| at <= i < end ==> bytes@[i] != wanted,
        decreases at,
    {
        at = at - 1;
        if bytes[at] == wanted {
            return Some(at);
        }
    }
    None
}

fn is_part_at(path: &[u8], start: usize, end: usize) -> (result: bool)
    requires
        start <= end <= path@.len(),
    ensures
        result == is_part(path@.subrange(start as int, end as int), start == 0),
{
    let ghost text = path@.subrange(start as int, end as int);
    let length: usize = end - start;
    if length == 0 {
        return false;
    }
    if start == 0 || length > 1 {
        assert(dot().len() == 1);
        return true;
    }
    assert(text[0] == path@[start as int]);
    if path[start] == DOT {
        assert(text == dot());
        return false;
    }
    assert(dot()[0] == DOT);
    true
}

/// The views of a list of byte strings.
pub open spec fn views(list: Seq<Vec<u8>>) -> Seq<Seq<u8>> {
    Seq::new(list.len(), |i: int| list[i]@)
}

fn push_parts(path: &[u8], end: usize, out: &mut Vec<Vec<u8>>)
    requires
        end <= path@.len(),
    ensures
        views(final(out)@) == views(old(out)@) + parts(path@.take(end as int)),
    decreases end,
{
    let ghost all = path@.take(end as int);
    let slash = find_last(path, end, SLASH);
    let start: usize = match slash {
        Some(at) => {
            proof {
                last_slash_unique(all, at as int);
                assert(all.take(at as int) == path@.take(at as int));
            }
            push_parts(path, at, out);
            at + 1
        },
        None => {
            proof {
                last_slash_unique(all, -1);
            }
            0
        },
    };
    let ghost before = views(out@);
    assert(all.skip(start as int) == path@.subrange(start as int, end as int));
    if is_part_at(path, start, end) {
        let part = copy_range(path, start, end);
        out.push(part);
        assert(views(out@) =~= before.push(part@));
    }
    assert(before =~= views(old(out)@) + if start > 0 {
        parts(all.take(start - 1))
    } else {
        Seq::empty()
    });
    assert(views(out@) =~= views(old(out)@) + parts(all));
}

/// The parts of a path.
pub fn parts_of(path: &[u8]) -> (result: Vec<Vec<u8>>)
    ensures
        views(result@) == parts(path@),
{
    let mut result: Vec<Vec<u8>> = Vec::new();
    push_parts(path, path.len(), &mut result);
    assert(path@.take(path@.len() as int) == path@);
    assert(views(result@) =~= parts(path@));
    result
}

fn same_parts(left: &Vec<Vec<u8>>, right: &Vec<Vec<u8>>, count: usize) -> (result: bool)
    requires
        count <= left@.len(),
        count <= right@.len(),
    ensures
        result == (views(left@).take(count as int) == views(right@).take(count as int)),
{
    for i in 0..count
        invariant
            count <= left@.len(),
            count <= right@.len(),
            forall|j: int| 0 <= j < i ==> left@[j]@ == right@[j]@,
    {
        if !same_bytes(left[i].as_slice(), right[i].as_slice()) {
            assert(views(left@).take(count as int)[i as int] != views(right@).take(
                count as int,
            )[i as int]);
            return false;
        }
    }
    assert(views(left@).take(count as int) =~= views(right@).take(count as int));
    true
}

fn is_rooted(path: &[u8]) -> (result: bool)
    ensures
        result == rooted(path@),
{
    path.len() > 0 && path[0] == SLASH
}

/// Whether two paths stand for the same place.
pub fn same_path(left: &[u8], right: &[u8]) -> (result: bool)
    ensures
        result == (place(left@) == place(right@)),
{
    if same_bytes(left, right) {
        return true;
    }
    if is_rooted(left) != is_rooted(right) {
        return false;
    }
    let l = parts_of(left);
    let r = parts_of(right);
    if l.len() != r.len() {
        assert(parts(left@).len() != parts(right@).len());
        return false;
    }
    let same = same_parts(&l, &r, l.len());
    assert(views(l@).take(l@.len() as int) == parts(left@));
    assert(views(r@).take(r@.len() as int) == parts(right@));
    same
}

/// Whether a path's parent is the given directory.
pub fn is_in_directory(path: &[u8], directory: &[u8]) -> (result: bool)
    ensures
        result == (parent_place(path@) == Some(place(directory@))),
{
    let p = parts_of(path);
    let d = parts_of(directory);
    if p.len() == 0 || is_rooted(path) != is_rooted(directory) || p.len() - 1 != d.len() {
        proof {
            if let Some(parent) = parent_place(path@) {
                assert(parent.parts.len() == p@.len() - 1);
                assert(place(directory@).parts.len() == d@.len());
            }
        }
        return false;
    }
    let same = same_parts(&p, &d, d.len());
    assert(views(p@).take(d@.len() as int) == parts(path@).drop_last());
    assert(views(d@).take(d@.len() as int) == parts(directory@));
    same
}

/// The end of the shortest start of a path, from a given length on, that stands
/// for the path's parent.
pub open spec fn parent_end(path: Seq<u8>, from: int) -> int
    decreases path.len() - from,
{
    if from >= path.len() || parent_place(path) == Some(place(path.take(from))) {
        from
    } else {
        parent_end(path, from + 1)
    }
}

/// The path without its last part; the root and the empty path have no parent.
pub open spec fn parent(path: Seq<u8>) -> Option<Seq<u8>> {
    if parent_place(path) is Some {
        Some(path.take(parent_end(path, 0)))
    } else {
        None
    }
}

proof fn some_start_is_parent(path: Seq<u8>) -> (end: int)
    requires
        parts(path).len() > 0,
    ensures
        0 <= end <= path.len(),
        parent_place(path) == Some(place(path.take(end))),
    decreases path.len(),
{
    last_slash_bounds(path);
    let slash = last_slash(path);
    let tail = path.skip(slash + 1);
    if is_part(tail, slash < 0) {
        let before = if slash >= 0 {
            parts(path.take(slash))
        } else {
            Seq::empty()
        };
        assert(before.push(tail).drop_last() == before);
        if slash == 0 {
            let root = path.take(1);
            last_slash_unique(root, 0);
            assert(root.take(0) == path.take(0));
            1
        } else if slash > 0 {
            slash
        } else {
            assert(path[0] != SLASH);
            0
        }
    } else {
        let shorter = path.take(slash);
        let end = some_start_is_parent(shorter);
        assert(shorter.take(end) == path.take(end));
        end
    }
}

proof fn search_finds_parent(path: Seq<u8>, from: int, end: int)
    requires
        0 <= from <= end <= path.len(),
        parent_place(path) == Some(place(path.take(end))),
    ensures
        from <= parent_end(path, from) <= end,
        parent_place(path) == Some(place(path.take(parent_end(path, from)))),
    decreases end - from,
{
    if from < path.len() && parent_place(path) != Some(place(path.take(from))) {
        search_finds_parent(path, from + 1, end);
    }
}

/// The parent of a path stands for the place that holds its last part.
pub proof fn parent_holds_the_last_part(path: Seq<u8>)
    ensures
        match parent(path) {
            Some(above) => parent_place(path) == Some(place(above)) && above.len() <= path.len(),
            None => parts(path).len() == 0,
        },
{
    if parts(path).len() > 0 {
        let end = some_start_is_parent(path);
        search_finds_parent(path, 0, end);
    }
}

/// The parent of a path.
pub fn parent_of(path: &[u8]) -> (result: Option<Vec<u8>>)
    ensures
        match result {
            Some(above) => parent(path@) == Some(above@),
            None => parent(path@) is None,
        },
{
    if parts_of(path).len() == 0 {
        assert(parts(path@).len() == 0);
        return None;
    }
    proof {
        parent_holds_the_last_part(path@);
    }
    let mut end: usize = 0;
    let mut start: Vec<u8> = Vec::new();
    assert(start@ == path@.take(0));
    while end < path.len() && !is_in_directory(path, start.as_slice())
        invariant
            end <= path@.len(),
            start@ == path@.take(end as int),
            parent_end(path@, 0) == parent_end(path@, end as int),
        decreases path@.len() - end,
    {
        start.push(path[end]);
        end = end + 1;
        assert(start@ == path@.take(end as int));
    }
    Some(start)
}

/// The name of the file that a path leads to.
pub fn file_name_of(path: &[u8]) -> (result: Option<Vec<u8>>)
    ensures
        match result {
            Some(name) => file_name(path@) == Some(name@),
            None => file_name(path@) is None,
        },
{
    let mut all = parts_of(path);
    match all.pop() {
        Some(name) => {
            assert(parts(path@).last() == name@);
            if same_bytes(name.as_slice(), &[DOT]) || same_bytes(name.as_slice(), &[DOT, DOT]) {
                assert([DOT]@ =~= dot());
                assert([DOT, DOT]@ =~= dot_dot());
                None
            } else {
                assert([DOT]@ =~= dot());
                assert([DOT, DOT]@ =~= dot_dot());
                Some(name)
            }
        },
        None => None,
    }
}

proof fn last_dot_unique(name: Seq<u8>, at: int)
    requires
        -1 <= at < name.len(),
        at >= 0 ==> name[at] == DOT,
        forall|i: int| at < i < name.len() ==> name[i] != DOT,
    ensures
        last_dot(name) == at,
    decreases name.len(),
{
    if name.len() > 0 && at < name.len() - 1 {
        last_dot_unique(name.drop_last(), at);
    }
}

fn find_dot(name: &[u8]) -> (result: Option<usize>)
    ensures
        match result {
            Some(at) => at as int == last_dot(name@) && at < name@.len(),
            None => last_dot(name@) == -1,
        },
{
    let result = find_last(name, name.len(), DOT);
    proof {
        match result {
            Some(at) => last_dot_unique(name@, at as int),
            None => last_dot_unique(name@, -1),
        }
    }
    result
}

/// A path's extension.
pub fn extension_of(path: &[u8]) -> (result: Option<Vec<u8>>)
    ensures
        match result {
            Some(text) => extension(path@) == Some(text@),
            None => extension(path@) is None,
        },
{
    match file_name_of(path) {
        Some(name) => match find_dot(name.as_slice()) {
            Some(at) => if at > 0 {
                let length: usize = name.len();
                let text = copy_range(name.as_slice(), at + 1, length);
                assert(text@ == name@.skip(at + 1));
                Some(text)
            } else {
                None
            },
            None => None,
        },
        None => None,
    }
}

/// A path's file name without its extension.
pub fn file_stem_of(path: &[u8]) -> (result: Option<Vec<u8>>)
    ensures
        match result {
            Some(text) => file_stem(path@) == Some(text@),
            None => file_stem(path@) is None,
        },
{
    match file_name_of(path) {
        Some(name) => match find_dot(name.as_slice()) {
            Some(at) => if at > 0 {
                let text = copy_range(name.as_slice(), 0, at);
                assert(text@ == name@.take(at as int));
                Some(text)
            } else {
                Some(name)
            },
            None => Some(name),
        },
        None => None,
    }
}

/// Whether a name can be that of a directory's entry.
pub fn plain_name(name: &[u8]) -> (result: bool)
    ensures
        result == is_plain_name(name@),
{
    match find_last(name, name.len(), SLASH) {
        Some(at) => {
            assert(name@.contains(name@[at as int]));
            false
        },
        None => {
            assert([DOT]@ =~= dot());
            assert([DOT, DOT]@ =~= dot_dot());
            name.len() > 0 && !same_bytes(name, &[DOT]) && !same_bytes(name, &[DOT, DOT])
        },
    }
}

/// The path of a directory's entry.
pub fn join(directory: &[u8], name: &[u8]) -> (result: Vec<u8>)
    ensures
        result@ == joined(directory@, name@),
{
    let mut result = copy_bytes(directory);
    if directory.len() > 0 && directory[directory.len() - 1] != SLASH {
        result.push(SLASH);
    }
    result.extend_from_slice(name);
    assert(result@ =~= joined(directory@, name@));
    result
}

/// A trailing slash leads to the same place.
pub proof fn trailing_slashes_do_not_matter(path: Seq<u8>)
    requires
        path.len() > 0,
    ensures
        place(path.push(SLASH)) == place(path),
{
    let longer = path.push(SLASH);
    last_slash_unique(longer, path.len() as int);
    assert(longer.take(path.len() as int) =~= path);
    assert(longer.skip(path.len() as int + 1).len() == 0);
    assert(longer[0] == path[0]);
}

/// A file name is split at its last dot: what follows is the extension, and what stands
/// before it the stem. A name without a dot, or with its only dot in front, has no
/// extension and is its own stem.
pub proof fn names_are_split_at_the_last_dot(directory: Seq<u8>, stem: Seq<u8>, extent: Seq<u8>)
    requires
        stem.len() > 0,
        is_plain_name(stem.push(DOT) + extent),
        !extent.contains(DOT),
    ensures
        extension(joined(directory, stem.push(DOT) + extent)) == Some(extent),
        file_stem(joined(directory, stem.push(DOT) + extent)) == Some(stem),
        file_name(joined(directory, stem.push(DOT) + extent)) == Some(stem.push(DOT) + extent),
{
    let name = stem.push(DOT) + extent;
    joined_place(directory, name);
    assert forall|i: int| stem.len() < i < name.len() implies name[i] != DOT by {
        assert(name[i] == extent[i - stem.len() - 1]);
    }
    assert(name[stem.len() as int] == DOT);
    last_dot_unique(name, stem.len() as int);
    assert(name.skip(stem.len() as int + 1) =~= extent);
    assert(name.take(stem.len() as int) =~= stem);
}

/// A name without a dot has no extension, nor one whose only dot stands in front.
pub proof fn hidden_names_have_no_extension(directory: Seq<u8>, name: Seq<u8>)
    requires
        is_plain_name(name),
        !name.contains(DOT) || (name[0] == DOT && !name.skip(1).contains(DOT)),
    ensures
        extension(joined(directory, name)) is None,
        file_stem(joined(directory, name)) == Some(name),
{
    joined_place(directory, name);
    if !name.contains(DOT) {
        last_dot_unique(name, -1);
    } else {
        assert forall|i: int| 0 < i < name.len() implies name[i] != DOT by {
            assert(name.skip(1)[i - 1] == name[i]);
        }
        last_dot_unique(name, 0);
    }
}

/// Joining puts one slash between a directory and a name, and none where the directory
/// ends in one.
pub proof fn joining_puts_one_slash(directory: Seq<u8>, name: Seq<u8>)
    ensures
        directory.len() > 0 && directory.last() != 47 ==> joined(directory, name) == directory.push(
            47,
        ) + name,
        directory.len() > 0 && directory.last() == 47 ==> joined(directory, name) == directory
            + name,
        directory.len() == 0 ==> joined(directory, name) == name,
{
}

/// The parent of an entry is its directory.
pub proof fn parents_are_their_directories(directory: Seq<u8>, name: Seq<u8>)
    requires
        is_plain_name(name),
    ensures
        parent(joined(directory, name)) matches Some(above) && place(above) == place(directory),
{
    joined_place(directory, name);
    parent_holds_the_last_part(joined(directory, name));
}

}
