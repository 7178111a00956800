//! Navigation set model: selected-folder identity, sorted local media, logical
//! viewer destination, and mutation outcomes. Filesystem facts come in as plain
//! values; presentation and monitoring stay outside.
use vstd::prelude::*;
use vstd::utf8::{decode_utf8, valid_utf8};

use crate::config::{is_supported, supported_path, Sort, SortOrder};
use crate::natural::{natural, natural_is_antisymmetric, natural_is_transitive, natural_sign};
use crate::paths::{
    copy_bytes, file_name, file_name_of, is_in_directory, is_plain_name, join, joined, joined_distinct, joined_place,
    parent_place, place, plain_name, same_path,
};

pub use crate::natural::natural_cmp;

verus! {

/// The text that `String::from_utf8_lossy` makes of bytes.
pub uninterp spec fn lossy_text(bytes: Seq<u8>) -> Seq<char>;

/// `String::from_utf8_lossy` reads bytes as UTF-8 and puts a replacement
/// character where they are not. Bytes that are UTF-8 come out as the text that
/// they encode; what replaces other bytes is left unsaid.
#[verifier::external_body]
pub(crate) fn lossy(bytes: &[u8]) -> (result: String)
    ensures
        result@ == lossy_text(bytes@),
        valid_utf8(bytes@) ==> result@ == decode_utf8(bytes@),
{
    String::from_utf8_lossy(bytes).into_owned()
}

/// A media file of the folder: where it is, and when it was last changed. The
/// time is only meaningful under `SortOrder::Date`; name sorting leaves it at
/// the epoch.
pub struct Entry {
    path: Vec<u8>,
    modified: i128,
}

/// What an entry stands for.
#[verifier::ext_equal]
pub struct Item {
    pub path: Seq<u8>,
    pub modified: int,
}

impl View for Entry {
    type V = Item;

    closed spec fn view(&self) -> Item {
        Item { path: self.path@, modified: self.modified as int }
    }
}

pub open spec fn items_of(entries: Seq<Entry>) -> Seq<Item> {
    Seq::new(entries.len(), |i: int| entries[i]@)
}

/// One entry of a directory listing. Times are nanoseconds since the epoch.
pub struct DirectoryEntry {
    pub name: Vec<u8>,
    /// Whether the entry is a regular file, or a link to one.
    pub regular: bool,
    pub modified: i128,
}

/// Whether a changed file is one that can be shown.
#[derive(Debug, Clone, Copy, PartialEq, Eq, Structural)]
pub enum SnapshotKind {
    Regular,
    Other,
}

/// Filesystem facts gathered before a file enters the navigation set.
#[derive(Debug, Clone, PartialEq, Eq)]
pub struct FileSnapshot {
    path: Vec<u8>,
    modified: i128,
    kind: SnapshotKind,
}

/// What a snapshot says.
#[verifier::ext_equal]
pub struct Facts {
    pub path: Seq<u8>,
    pub modified: int,
    pub kind: SnapshotKind,
}

impl View for FileSnapshot {
    type V = Facts;

    closed spec fn view(&self) -> Facts {
        Facts { path: self.path@, modified: self.modified as int, kind: self.kind }
    }
}

pub open spec fn facts_of(snapshot: Option<FileSnapshot>) -> Option<Facts> {
    match snapshot {
        Some(s) => Some(s@),
        None => None,
    }
}

impl FileSnapshot {
    /// The facts of a regular file.
    pub fn new(path: Vec<u8>, modified: i128) -> (result: Self)
        ensures
            result@ == (Facts {
                path: path@,
                modified: modified as int,
                kind: SnapshotKind::Regular,
            }),
    {
        FileSnapshot { path, modified, kind: SnapshotKind::Regular }
    }

    pub fn with_kind(path: Vec<u8>, modified: i128, kind: SnapshotKind) -> (result: Self)
        ensures
            result@ == (Facts { path: path@, modified: modified as int, kind }),
    {
        FileSnapshot { path, modified, kind }
    }

    pub fn path(&self) -> (result: &[u8])
        ensures
            result@ == self@.path,
    {
        self.path.as_slice()
    }
}

/// The name by which a path is sorted.
pub open spec fn display_name(path: Seq<u8>) -> Seq<char> {
    match file_name(path) {
        Some(name) => lossy_text(name),
        None => lossy_text(Seq::empty()),
    }
}

/// The forward order: by name, or newest first with names telling files of one
/// time apart. Negative where `left` comes first.
pub open spec fn forward(left: Item, right: Item, order: SortOrder) -> int {
    let by_name = natural(display_name(left.path), display_name(right.path));
    match order {
        SortOrder::Name => by_name,
        SortOrder::Date => if left.modified > right.modified {
            -1
        } else if left.modified < right.modified {
            1
        } else {
            by_name
        },
    }
}

/// The order in which a folder shows its files.
pub open spec fn placed(left: Item, right: Item, sort: Sort) -> int {
    if sort.reverse {
        -forward(left, right, sort.order)
    } else {
        forward(left, right, sort.order)
    }
}

/// The folder order is total up to files of one name and time.
pub proof fn placed_is_antisymmetric(left: Item, right: Item, sort: Sort)
    ensures
        placed(left, right, sort) == -placed(right, left, sort),
{
    natural_is_antisymmetric(display_name(left.path), display_name(right.path));
}

/// The folder order is transitive.
pub proof fn placed_is_transitive(first: Item, second: Item, third: Item, sort: Sort)
    requires
        placed(first, second, sort) <= 0,
        placed(second, third, sort) <= 0,
    ensures
        placed(first, third, sort) <= 0,
        placed(first, second, sort) < 0 || placed(second, third, sort) < 0 ==> placed(
            first,
            third,
            sort,
        ) < 0,
{
    let (a, b, c) = (display_name(first.path), display_name(second.path), display_name(third.path));
    natural_is_antisymmetric(a, b);
    natural_is_antisymmetric(b, c);
    natural_is_antisymmetric(a, c);
    if natural(a, b) <= 0 && natural(b, c) <= 0 {
        natural_is_transitive(a, b, c);
    }
    if natural(c, b) <= 0 && natural(b, a) <= 0 {
        natural_is_transitive(c, b, a);
    }
}

/// Reversing flips the order of any two files.
pub proof fn reversing_flips(left: Item, right: Item, order: SortOrder)
    ensures
        placed(left, right, Sort { order, reverse: true }) == -placed(
            left,
            right,
            Sort { order, reverse: false },
        ),
{
}

fn name_of(path: &[u8]) -> (result: String)
    ensures
        result@ == display_name(path@),
{
    match file_name_of(path) {
        Some(name) => lossy(name.as_slice()),
        None => {
            let nothing: Vec<u8> = Vec::new();
            assert(nothing@ =~= Seq::<u8>::empty());
            lossy(nothing.as_slice())
        },
    }
}

fn order_forward(left: &Entry, right: &Entry, order: SortOrder) -> (result: i8)
    ensures
        result as int == forward(left@, right@, order),
        -1 <= result <= 1,
{
    if order == SortOrder::Date {
        if left.modified > right.modified {
            return -1;
        }
        if left.modified < right.modified {
            return 1;
        }
    }
    let l = name_of(left.path.as_slice());
    let r = name_of(right.path.as_slice());
    proof {
        natural_is_antisymmetric(l@, r@);
    }
    natural_sign(l.as_str(), r.as_str())
}

fn order_entries(left: &Entry, right: &Entry, sort: Sort) -> (result: i8)
    ensures
        result as int == placed(left@, right@, sort),
{
    let sign = order_forward(left, right, sort.order);
    if sort.reverse {
        -sign
    } else {
        sign
    }
}

/// Whether the item at `left` comes before that at `right`; items of one place
/// in the order keep the order that they had.
pub open spec fn comes_before(items: Seq<Item>, sort: Sort, left: int, right: int) -> bool {
    let sign = placed(items[left], items[right], sort);
    sign < 0 || (sign == 0 && left < right)
}

/// `output` holds the items of `input`, each once, in the folder order, with
/// items of one place in the order left as they were. `from` says where each
/// came from.
pub open spec fn is_stable_sort(
    input: Seq<Item>,
    output: Seq<Item>,
    sort: Sort,
    from: Seq<int>,
) -> bool {
    &&& from.len() == input.len()
    &&& output.len() == input.len()
    &&& forall|i: int|
        0 <= i < from.len() ==> 0 <= #[trigger] from[i] < input.len() && output[i] == input[from[i]]
    &&& forall|i: int, j: int|
        0 <= i < j < from.len() ==> comes_before(input, sort, #[trigger] from[i], #[trigger] from[j])
}

proof fn comes_before_transitive(items: Seq<Item>, sort: Sort, a: int, b: int, c: int)
    requires
        comes_before(items, sort, a, b),
        comes_before(items, sort, b, c),
    ensures
        comes_before(items, sort, a, c),
{
    placed_is_transitive(items[a], items[b], items[c], sort);
}

spec fn sorted_run(items: Seq<Item>, sort: Sort, run: Seq<usize>, low: int, high: int) -> bool {
    &&& run.len() == high - low
    &&& forall|i: int| 0 <= i < run.len() ==> low <= #[trigger] run[i] < high
    &&& forall|i: int, j: int|
        0 <= i < j < run.len() ==> comes_before(
            items,
            sort,
            #[trigger] run[i] as int,
            #[trigger] run[j] as int,
        )
}

fn merge(
    entries: &Vec<Entry>,
    sort: Sort,
    left: &Vec<usize>,
    right: &Vec<usize>,
    Ghost(low): Ghost<int>,
    Ghost(middle): Ghost<int>,
    Ghost(high): Ghost<int>,
) -> (result: Vec<usize>)
    requires
        0 <= low <= middle <= high <= entries@.len(),
        sorted_run(items_of(entries@), sort, left@, low, middle),
        sorted_run(items_of(entries@), sort, right@, middle, high),
    ensures
        sorted_run(items_of(entries@), sort, result@, low, high),
{
    let ghost items = items_of(entries@);
    let mut out: Vec<usize> = Vec::new();
    let mut i: usize = 0;
    let mut j: usize = 0;
    while i < left.len() || j < right.len()
        invariant
            items == items_of(entries@),
            0 <= low <= middle <= high <= entries@.len(),
            sorted_run(items, sort, left@, low, middle),
            sorted_run(items, sort, right@, middle, high),
            i <= left@.len(),
            j <= right@.len(),
            out@.len() == i + j,
            forall|k: int| 0 <= k < out@.len() ==> low <= #[trigger] out@[k] < high,
            forall|a: int, b: int|
                0 <= a < b < out@.len() ==> comes_before(
                    items,
                    sort,
                    #[trigger] out@[a] as int,
                    #[trigger] out@[b] as int,
                ),
            forall|a: int, b: int|
                0 <= a < out@.len() && i <= b < left@.len() ==> comes_before(
                    items,
                    sort,
                    #[trigger] out@[a] as int,
                    #[trigger] left@[b] as int,
                ),
            forall|a: int, b: int|
                0 <= a < out@.len() && j <= b < right@.len() ==> comes_before(
                    items,
                    sort,
                    #[trigger] out@[a] as int,
                    #[trigger] right@[b] as int,
                ),
        decreases left@.len() + right@.len() - i - j,
    {
        let take_left = if i < left.len() {
            if j < right.len() {
                order_entries(&entries[left[i]], &entries[right[j]], sort) <= 0
            } else {
                true
            }
        } else {
            false
        };
        let ghost before = out@;
        if take_left {
            let next: usize = left[i];
            proof {
                if j < right@.len() {
                    assert(comes_before(items, sort, next as int, right@[j as int] as int));
                }
                assert forall|b: int| j <= b < right@.len() implies comes_before(
                    items,
                    sort,
                    next as int,
                    #[trigger] right@[b] as int,
                ) by {
                    if b > j {
                        comes_before_transitive(
                            items,
                            sort,
                            next as int,
                            right@[j as int] as int,
                            right@[b] as int,
                        );
                    }
                }
            }
            out.push(next);
            i = i + 1;
        } else {
            let next: usize = right[j];
            proof {
                if i < left@.len() {
                    placed_is_antisymmetric(
                        items[left@[i as int] as int],
                        items[next as int],
                        sort,
                    );
                    assert(comes_before(items, sort, next as int, left@[i as int] as int));
                }
                assert forall|b: int| i <= b < left@.len() implies comes_before(
                    items,
                    sort,
                    next as int,
                    #[trigger] left@[b] as int,
                ) by {
                    if b > i {
                        comes_before_transitive(
                            items,
                            sort,
                            next as int,
                            left@[i as int] as int,
                            left@[b] as int,
                        );
                    }
                }
            }
            out.push(next);
            j = j + 1;
        }
        assert forall|k: int| 0 <= k < before.len() implies out@[k] == before[k] by {}
    }
    out
}

fn merge_sort(entries: &Vec<Entry>, sort: Sort, low: usize, high: usize) -> (result: Vec<usize>)
    requires
        low <= high <= entries@.len(),
    ensures
        sorted_run(items_of(entries@), sort, result@, low as int, high as int),
    decreases high - low,
{
    let mut result: Vec<usize> = Vec::new();
    if high - low >= 2 {
        let middle: usize = low + (high - low) / 2;
        let left = merge_sort(entries, sort, low, middle);
        let right = merge_sort(entries, sort, middle, high);
        return merge(
            entries,
            sort,
            &left,
            &right,
            Ghost(low as int),
            Ghost(middle as int),
            Ghost(high as int),
        );
    }
    if high - low == 1 {
        result.push(low);
    }
    result
}

fn sort_entries(entries: Vec<Entry>, sort: Sort) -> (result: Vec<Entry>)
    ensures
        exists|from: Seq<int>| is_stable_sort(items_of(entries@), items_of(result@), sort, from),
{
    let order = merge_sort(&entries, sort, 0, entries.len());
    let mut result: Vec<Entry> = Vec::new();
    let ghost input = items_of(entries@);
    for i in 0..order.len()
        invariant
            input == items_of(entries@),
            sorted_run(input, sort, order@, 0, entries@.len() as int),
            result@.len() == i,
            forall|k: int| 0 <= k < i ==> #[trigger] result@[k]@ == input[order@[k] as int],
    {
        let from: usize = order[i];
        let entry = Entry {
            path: copy_bytes(entries[from].path.as_slice()),
            modified: entries[from].modified,
        };
        assert(entry@ =~= input[from as int]);
        result.push(entry);
    }
    proof {
        let from = Seq::new(order@.len(), |i: int| order@[i] as int);
        let output = items_of(result@);
        assert forall|i: int| 0 <= i < from.len() implies 0 <= #[trigger] from[i] < input.len()
            && output[i] == input[from[i]] by {
            assert(from[i] == order@[i] as int);
            assert(output[i] == result@[i]@);
        }
        assert forall|i: int, j: int| 0 <= i < j < from.len() implies comes_before(
            input,
            sort,
            #[trigger] from[i],
            #[trigger] from[j],
        ) by {
            assert(comes_before(input, sort, order@[i] as int, order@[j] as int));
        }
        assert(is_stable_sort(input, output, sort, from));
    }
    result
}

/// A folder as a value: where it is, its media in order, and how they are sorted.
#[verifier::ext_equal]
pub struct Shelf {
    pub directory: Seq<u8>,
    pub items: Seq<Item>,
    pub sort: Sort,
}

/// The media of one directory, sorted.
pub struct Folder {
    directory: Vec<u8>,
    entries: Vec<Entry>,
    sort: Sort,
}

impl View for Folder {
    type V = Shelf;

    closed spec fn view(&self) -> Shelf {
        Shelf { directory: self.directory@, items: items_of(self.entries@), sort: self.sort }
    }
}

/// The time by which an item is sorted.
pub open spec fn sort_time(modified: int, sort: Sort) -> int {
    match sort.order {
        SortOrder::Date => modified,
        SortOrder::Name => 0,
    }
}

/// Whether a listed entry is shown: a regular file of a known kind.
pub open spec fn listed(directory: Seq<u8>, entry: DirectoryEntry) -> bool {
    &&& is_plain_name(entry.name@)
    &&& supported_path(joined(directory, entry.name@))
    &&& entry.regular
}

/// The shown entries of a listing, in the order of the listing.
pub open spec fn listed_items(
    directory: Seq<u8>,
    listing: Seq<DirectoryEntry>,
    sort: Sort,
) -> Seq<Item>
    decreases listing.len(),
{
    if listing.len() == 0 {
        Seq::empty()
    } else {
        let before = listed_items(directory, listing.drop_last(), sort);
        let entry = listing.last();
        if listed(directory, entry) {
            before.push(
                Item {
                    path: joined(directory, entry.name@),
                    modified: sort_time(entry.modified as int, sort),
                },
            )
        } else {
            before
        }
    }
}

pub open spec fn names_distinct(listing: Seq<DirectoryEntry>) -> bool {
    forall|i: int, j: int|
        0 <= i < j < listing.len() ==> #[trigger] listing[i].name@ != #[trigger] listing[j].name@
}

/// Whether an item stands at the place of a path.
pub open spec fn is_at(item: Item, path: Seq<u8>) -> bool {
    place(item.path) == place(path)
}

/// The position of the first item at a path, or the number of items.
pub open spec fn position(items: Seq<Item>, path: Seq<u8>) -> int
    decreases items.len(),
{
    if items.len() == 0 || is_at(items[0], path) {
        0
    } else {
        1 + position(items.skip(1), path)
    }
}

/// The position is of the first item at a path, or the end where there is none.
pub proof fn position_bounds(items: Seq<Item>, path: Seq<u8>)
    ensures
        0 <= position(items, path) <= items.len(),
        forall|i: int| 0 <= i < position(items, path) ==> !is_at(#[trigger] items[i], path),
        position(items, path) < items.len() ==> is_at(items[position(items, path)], path),
    decreases items.len(),
{
    if items.len() > 0 && !is_at(items[0], path) {
        let rest = items.skip(1);
        position_bounds(rest, path);
        assert forall|i: int| 0 <= i < position(items, path) implies !is_at(
            #[trigger] items[i],
            path,
        ) by {
            if i > 0 {
                assert(rest[i - 1] == items[i]);
            }
        }
        if position(items, path) < items.len() {
            assert(rest[position(rest, path)] == items[position(items, path)]);
        }
    }
}

proof fn position_unique(items: Seq<Item>, path: Seq<u8>, at: int)
    requires
        0 <= at <= items.len(),
        forall|i: int| 0 <= i < at ==> !is_at(#[trigger] items[i], path),
        at < items.len() ==> is_at(items[at], path),
    ensures
        position(items, path) == at,
{
    position_bounds(items, path);
    let found = position(items, path);
    if found < at {
        assert(!is_at(items[found], path));
    }
}

/// How many items at the start come before a new one.
pub open spec fn slot(items: Seq<Item>, item: Item, sort: Sort) -> int
    decreases items.len(),
{
    if items.len() == 0 || placed(items[0], item, sort) >= 0 {
        0
    } else {
        1 + slot(items.skip(1), item, sort)
    }
}

/// All before the slot come before the item, and the one there does not.
proof fn slot_bounds(items: Seq<Item>, item: Item, sort: Sort)
    ensures
        0 <= slot(items, item, sort) <= items.len(),
        forall|i: int|
            0 <= i < slot(items, item, sort) ==> placed(#[trigger] items[i], item, sort) < 0,
        slot(items, item, sort) < items.len() ==> placed(
            items[slot(items, item, sort)],
            item,
            sort,
        ) >= 0,
    decreases items.len(),
{
    if items.len() > 0 && placed(items[0], item, sort) < 0 {
        let rest = items.skip(1);
        slot_bounds(rest, item, sort);
        assert forall|i: int| 0 <= i < slot(items, item, sort) implies placed(
            #[trigger] items[i],
            item,
            sort,
        ) < 0 by {
            if i > 0 {
                assert(rest[i - 1] == items[i]);
            }
        }
        if slot(items, item, sort) < items.len() {
            assert(rest[slot(rest, item, sort)] == items[slot(items, item, sort)]);
        }
    }
}

impl Shelf {
    /// The items stand in the folder order.
    pub open spec fn sorted(self) -> bool {
        forall|i: int, j: int|
            0 <= i < j < self.items.len() ==> placed(
                #[trigger] self.items[i],
                #[trigger] self.items[j],
                self.sort,
            ) <= 0
    }

    /// Whether a path may be an item: a known kind of file in this directory.
    pub open spec fn admits(self, path: Seq<u8>) -> bool {
        parent_place(path) == Some(place(self.directory)) && supported_path(path)
    }

    /// Sorted, and every item belongs here.
    pub open spec fn wf(self) -> bool {
        &&& self.sorted()
        &&& forall|i: int| 0 <= i < self.items.len() ==> self.admits((#[trigger] self.items[i]).path)
        &&& forall|i: int|
            0 <= i < self.items.len() ==> (#[trigger] self.items[i]).modified == sort_time(
                self.items[i].modified,
                self.sort,
            )
    }

    /// No two items stand at one place.
    pub open spec fn distinct(self) -> bool {
        forall|i: int, j: int|
            0 <= i < j < self.items.len() ==> !is_at(
                #[trigger] self.items[i],
                (#[trigger] self.items[j]).path,
            )
    }

    pub open spec fn contains(self, path: Seq<u8>) -> bool {
        position(self.items, path) < self.items.len()
    }

    /// Whether a file is taken in: a regular file that belongs here and is not here yet.
    pub open spec fn accepts(self, facts: Facts) -> bool {
        facts.kind == SnapshotKind::Regular && self.admits(facts.path) && !self.contains(facts.path)
    }

    pub open spec fn item_of(self, facts: Facts) -> Item {
        Item { path: facts.path, modified: sort_time(facts.modified, self.sort) }
    }

    /// Where a file goes that is taken in.
    pub open spec fn slot_of(self, facts: Facts) -> int {
        slot(self.items, self.item_of(facts), self.sort)
    }

    pub open spec fn with(self, facts: Facts) -> Shelf {
        Shelf { items: self.items.insert(self.slot_of(facts), self.item_of(facts)), ..self }
    }

    pub open spec fn without(self, path: Seq<u8>) -> Shelf {
        Shelf { items: self.items.remove(position(self.items, path)), ..self }
    }

    /// The position after `index`: the next one, or the first at the end when wrapping.
    pub open spec fn after(self, index: int, wrap: bool) -> Option<int> {
        if index + 1 < self.items.len() {
            Some(index + 1)
        } else if wrap && self.items.len() > 0 {
            Some(0)
        } else {
            None
        }
    }

    /// The position before `index`: the one before, or the last at the start when wrapping.
    pub open spec fn before(self, index: int, wrap: bool) -> Option<int> {
        if index > 0 {
            Some(index - 1)
        } else if wrap && self.items.len() > 0 {
            Some(self.items.len() - 1)
        } else {
            None
        }
    }
}

/// Taking a file in keeps the folder sorted and free of repeats.
pub proof fn insertion_keeps_order(shelf: Shelf, facts: Facts)
    requires
        shelf.wf(),
        shelf.accepts(facts),
    ensures
        shelf.with(facts).wf(),
        shelf.distinct() ==> shelf.with(facts).distinct(),
        0 <= shelf.slot_of(facts) <= shelf.items.len(),
{
    let item = shelf.item_of(facts);
    let at = shelf.slot_of(facts);
    let after = shelf.with(facts);
    slot_bounds(shelf.items, item, shelf.sort);
    position_bounds(shelf.items, facts.path);
    assert forall|i: int, j: int| 0 <= i < j < after.items.len() implies placed(
        #[trigger] after.items[i],
        #[trigger] after.items[j],
        shelf.sort,
    ) <= 0 by {
        let a = if i < at { i } else { i - 1 };
        let b = if j < at { j } else { j - 1 };
        if i == at {
            assert(after.items[j] == shelf.items[b]);
            placed_is_antisymmetric(shelf.items[at], item, shelf.sort);
            if b > at {
                assert(placed(shelf.items[at], shelf.items[b], shelf.sort) <= 0);
                placed_is_transitive(item, shelf.items[at], shelf.items[b], shelf.sort);
            }
        } else if j == at {
            assert(after.items[i] == shelf.items[a]);
        } else {
            assert(after.items[i] == shelf.items[a]);
            assert(after.items[j] == shelf.items[b]);
            assert(placed(shelf.items[a], shelf.items[b], shelf.sort) <= 0);
        }
    }
    assert forall|i: int| 0 <= i < after.items.len() implies after.admits(
        (#[trigger] after.items[i]).path,
    ) && after.items[i].modified == sort_time(after.items[i].modified, after.sort) by {
        let a = if i < at { i } else { i - 1 };
        if i != at {
            assert(after.items[i] == shelf.items[a]);
            assert(shelf.admits(shelf.items[a].path));
        }
    }
    if shelf.distinct() {
        assert forall|i: int, j: int| 0 <= i < j < after.items.len() implies !is_at(
            #[trigger] after.items[i],
            (#[trigger] after.items[j]).path,
        ) by {
            let a = if i < at { i } else { i - 1 };
            let b = if j < at { j } else { j - 1 };
            if i == at {
                assert(after.items[j] == shelf.items[b]);
                assert(!is_at(shelf.items[b], facts.path));
            } else if j == at {
                assert(after.items[i] == shelf.items[a]);
                assert(!is_at(shelf.items[a], facts.path));
            } else {
                assert(after.items[i] == shelf.items[a]);
                assert(after.items[j] == shelf.items[b]);
                assert(!is_at(shelf.items[a], shelf.items[b].path));
            }
        }
    }
}

/// Taking a file out keeps the folder sorted and free of repeats, and where
/// there was no repeat the file is gone.
pub proof fn removal_keeps_order(shelf: Shelf, path: Seq<u8>)
    requires
        shelf.wf(),
        shelf.contains(path),
    ensures
        shelf.without(path).wf(),
        shelf.distinct() ==> shelf.without(path).distinct() && !shelf.without(path).contains(path),
{
    let at = position(shelf.items, path);
    let after = shelf.without(path);
    position_bounds(shelf.items, path);
    assert forall|i: int| 0 <= i < after.items.len() implies #[trigger] after.items[i]
        == shelf.items[if i < at { i } else { i + 1 }] by {}
    assert forall|i: int, j: int| 0 <= i < j < after.items.len() implies placed(
        #[trigger] after.items[i],
        #[trigger] after.items[j],
        shelf.sort,
    ) <= 0 by {
        let a = if i < at { i } else { i + 1 };
        let b = if j < at { j } else { j + 1 };
        assert(placed(shelf.items[a], shelf.items[b], shelf.sort) <= 0);
    }
    assert forall|i: int| 0 <= i < after.items.len() implies after.admits(
        (#[trigger] after.items[i]).path,
    ) && after.items[i].modified == sort_time(after.items[i].modified, after.sort) by {
        let a = if i < at { i } else { i + 1 };
        assert(shelf.admits(shelf.items[a].path));
    }
    if shelf.distinct() {
        assert forall|i: int, j: int| 0 <= i < j < after.items.len() implies !is_at(
            #[trigger] after.items[i],
            (#[trigger] after.items[j]).path,
        ) by {
            let a = if i < at { i } else { i + 1 };
            let b = if j < at { j } else { j + 1 };
            assert(!is_at(shelf.items[a], shelf.items[b].path));
        }
        position_bounds(after.items, path);
        if after.contains(path) {
            let found = position(after.items, path);
            let a = if found < at { found } else { found + 1 };
            assert(after.items[found] == shelf.items[a]);
            if a < at {
                assert(!is_at(shelf.items[a], shelf.items[at].path));
            } else {
                assert(!is_at(shelf.items[at], shelf.items[a].path));
            }
        }
    }
}

/// Taking a file out right after it was taken in gives the folder back.
pub proof fn removal_undoes_insertion(shelf: Shelf, facts: Facts)
    requires
        shelf.wf(),
        shelf.accepts(facts),
    ensures
        shelf.with(facts).contains(facts.path),
        position(shelf.with(facts).items, facts.path) == shelf.slot_of(facts),
        shelf.with(facts).without(facts.path) == shelf,
        !shelf.with(facts).accepts(facts),
{
    let at = shelf.slot_of(facts);
    let after = shelf.with(facts);
    slot_bounds(shelf.items, shelf.item_of(facts), shelf.sort);
    position_bounds(shelf.items, facts.path);
    assert forall|i: int| 0 <= i < at implies !is_at(#[trigger] after.items[i], facts.path) by {
        assert(after.items[i] == shelf.items[i]);
    }
    position_unique(after.items, facts.path, at);
    assert(after.items.remove(at) =~= shelf.items);
}

/// Going forward and back again ends where it began, at every position but the
/// edges, and at the edges too when wrapping.
pub proof fn back_undoes_forward(shelf: Shelf, index: int, wrap: bool)
    requires
        0 <= index < shelf.items.len(),
    ensures
        shelf.after(index, wrap) matches Some(next) ==> shelf.before(next, wrap) == Some(index),
        shelf.before(index, wrap) matches Some(previous) ==> shelf.after(previous, wrap) == Some(
            index,
        ),
        shelf.after(index, wrap) is None <==> !wrap && index == shelf.items.len() - 1,
        shelf.before(index, wrap) is None <==> !wrap && index == 0,
{
}

pub open spec fn as_int(index: Option<usize>) -> Option<int> {
    match index {
        Some(i) => Some(i as int),
        None => None,
    }
}

proof fn listed_items_belong(directory: Seq<u8>, listing: Seq<DirectoryEntry>, sort: Sort)
    ensures
        forall|i: int|
            0 <= i < listed_items(directory, listing, sort).len() ==> {
                let item = #[trigger] listed_items(directory, listing, sort)[i];
                &&& parent_place(item.path) == Some(place(directory))
                &&& supported_path(item.path)
                &&& item.modified == sort_time(item.modified, sort)
            },
    decreases listing.len(),
{
    if listing.len() > 0 {
        listed_items_belong(directory, listing.drop_last(), sort);
        if listed(directory, listing.last()) {
            joined_place(directory, listing.last().name@);
        }
    }
}

/// Where an item of a listing comes from.
proof fn listed_items_named(directory: Seq<u8>, listing: Seq<DirectoryEntry>, sort: Sort, i: int)
    requires
        0 <= i < listed_items(directory, listing, sort).len(),
    ensures
        exists|k: int|
            0 <= k < listing.len() && is_plain_name((#[trigger] listing[k]).name@) && listed_items(
                directory,
                listing,
                sort,
            )[i].path == joined(directory, listing[k].name@),
    decreases listing.len(),
{
    let shorter = listing.drop_last();
    let before = listed_items(directory, shorter, sort);
    if i < before.len() {
        listed_items_named(directory, shorter, sort, i);
        let k = choose|k: int|
            0 <= k < shorter.len() && is_plain_name((#[trigger] shorter[k]).name@)
                && before[i].path == joined(directory, shorter[k].name@);
        assert(listing[k] == shorter[k]);
    } else {
        assert(listing[listing.len() - 1] == listing.last());
    }
}

proof fn listed_items_distinct(directory: Seq<u8>, listing: Seq<DirectoryEntry>, sort: Sort)
    requires
        names_distinct(listing),
    ensures
        forall|i: int, j: int|
            0 <= i < j < listed_items(directory, listing, sort).len() ==> !is_at(
                #[trigger] listed_items(directory, listing, sort)[i],
                (#[trigger] listed_items(directory, listing, sort)[j]).path,
            ),
    decreases listing.len(),
{
    if listing.len() > 0 {
        let shorter = listing.drop_last();
        let before = listed_items(directory, shorter, sort);
        let all = listed_items(directory, listing, sort);
        assert forall|i: int, j: int| 0 <= i < j < shorter.len() implies #[trigger] shorter[i].name@
            != #[trigger] shorter[j].name@ by {
            assert(listing[i].name@ != listing[j].name@);
        }
        listed_items_distinct(directory, shorter, sort);
        assert forall|i: int, j: int| 0 <= i < j < all.len() implies !is_at(
            #[trigger] all[i],
            (#[trigger] all[j]).path,
        ) by {
            if j < before.len() {
                assert(!is_at(before[i], before[j].path));
            } else {
                listed_items_named(directory, shorter, sort, i);
                let k = choose|k: int|
                    0 <= k < shorter.len() && is_plain_name((#[trigger] shorter[k]).name@)
                        && before[i].path == joined(directory, shorter[k].name@);
                assert(listing[k].name@ != listing[listing.len() - 1].name@);
                if is_at(all[i], all[j].path) {
                    joined_distinct(directory, shorter[k].name@, listing.last().name@);
                }
            }
        }
    }
}

proof fn stable_sort_orders(input: Seq<Item>, shelf: Shelf, from: Seq<int>)
    requires
        is_stable_sort(input, shelf.items, shelf.sort, from),
        forall|i: int|
            0 <= i < input.len() ==> shelf.admits((#[trigger] input[i]).path) && input[i].modified
                == sort_time(input[i].modified, shelf.sort),
    ensures
        shelf.wf(),
        (forall|i: int, j: int|
            0 <= i < j < input.len() ==> !is_at(#[trigger] input[i], (#[trigger] input[j]).path))
            ==> shelf.distinct(),
{
    assert forall|i: int, j: int| 0 <= i < j < shelf.items.len() implies placed(
        #[trigger] shelf.items[i],
        #[trigger] shelf.items[j],
        shelf.sort,
    ) <= 0 by {
        assert(comes_before(input, shelf.sort, from[i], from[j]));
    }
    assert forall|i: int| 0 <= i < shelf.items.len() implies shelf.admits(
        (#[trigger] shelf.items[i]).path,
    ) && shelf.items[i].modified == sort_time(shelf.items[i].modified, shelf.sort) by {
        assert(0 <= from[i] < input.len());
        assert(shelf.admits(input[from[i]].path));
    }
    if forall|i: int, j: int|
        0 <= i < j < input.len() ==> !is_at(#[trigger] input[i], (#[trigger] input[j]).path) {
        assert forall|i: int, j: int| 0 <= i < j < shelf.items.len() implies !is_at(
            #[trigger] shelf.items[i],
            (#[trigger] shelf.items[j]).path,
        ) by {
            assert(comes_before(input, shelf.sort, from[i], from[j]));
            placed_is_antisymmetric(input[from[i]], input[from[i]], shelf.sort);
            assert(from[i] != from[j]);
            if from[i] < from[j] {
                assert(!is_at(input[from[i]], input[from[j]].path));
            } else {
                assert(!is_at(input[from[j]], input[from[i]].path));
            }
        }
    }
}

impl Folder {
    /// Sorts the media of a directory's listing. What is no regular file of a
    /// known kind is left out.
    pub fn scan(directory: &[u8], listing: &Vec<DirectoryEntry>, sort: Sort) -> (result: Folder)
        ensures
            result@.directory == directory@,
            result@.sort == sort,
            exists|from: Seq<int>|
                is_stable_sort(
                    listed_items(directory@, listing@, sort),
                    result@.items,
                    sort,
                    from,
                ),
            result@.wf(),
            names_distinct(listing@) ==> result@.distinct(),
    {
        let mut entries: Vec<Entry> = Vec::new();
        assert(items_of(entries@) =~= Seq::<Item>::empty());
        for i in 0..listing.len()
            invariant
                items_of(entries@) == listed_items(directory@, listing@.take(i as int), sort),
        {
            let name = listing[i].name.as_slice();
            let ghost before = items_of(entries@);
            assert(listing@.take(i + 1).drop_last() =~= listing@.take(i as int));
            assert(listing@.take(i + 1).last() == listing@[i as int]);
            if plain_name(name) {
                let path = join(directory, name);
                if is_supported(path.as_slice()) && listing[i].regular {
                    let modified: i128 = match sort.order {
                        SortOrder::Date => listing[i].modified,
                        SortOrder::Name => 0,
                    };
                    let entry = Entry { path, modified };
                    entries.push(entry);
                    assert(items_of(entries@) =~= before.push(entry@));
                }
            }
        }
        assert(listing@.take(listing@.len() as int) =~= listing@);
        let ghost input = items_of(entries@);
        let sorted = sort_entries(entries, sort);
        let folder = Folder { directory: copy_bytes(directory), entries: sorted, sort };
        proof {
            let from = choose|from: Seq<int>|
                is_stable_sort(input, items_of(sorted@), sort, from);
            listed_items_belong(directory@, listing@, sort);
            if names_distinct(listing@) {
                listed_items_distinct(directory@, listing@, sort);
            }
            stable_sort_orders(input, folder@, from);
        }
        folder
    }

    pub fn len(&self) -> (result: usize)
        ensures
            result == self@.items.len(),
    {
        self.entries.len()
    }

    pub fn is_empty(&self) -> (result: bool)
        ensures
            result == (self@.items.len() == 0),
    {
        self.entries.len() == 0
    }

    pub fn get(&self, index: usize) -> (result: Option<&[u8]>)
        ensures
            match result {
                Some(path) => index < self@.items.len() && path@ == self@.items[index as int].path,
                None => index >= self@.items.len(),
            },
    {
        if index < self.entries.len() {
            Some(self.entries[index].path.as_slice())
        } else {
            None
        }
    }

    pub fn index_of(&self, path: &[u8]) -> (result: Option<usize>)
        ensures
            match result {
                Some(index) => self@.contains(path@) && index == position(self@.items, path@),
                None => !self@.contains(path@),
            },
    {
        let mut at: usize = 0;
        while at < self.entries.len()
            invariant
                at <= self@.items.len(),
                self@.items.len() == self.entries@.len(),
                forall|i: int| 0 <= i < at ==> !is_at(#[trigger] self@.items[i], path@),
            decreases self@.items.len() - at,
        {
            assert(self@.items[at as int] == self.entries@[at as int]@);
            if same_path(self.entries[at].path.as_slice(), path) {
                proof {
                    position_unique(self@.items, path@, at as int);
                }
                return Some(at);
            }
            at = at + 1;
        }
        proof {
            position_unique(self@.items, path@, at as int);
        }
        None
    }

    /// Index to show after `index`, honoring `wrap`.
    pub fn next(&self, index: usize, wrap: bool) -> (result: Option<usize>)
        ensures
            as_int(result) == self@.after(index as int, wrap),
    {
        if index < self.entries.len() && index + 1 < self.entries.len() {
            Some(index + 1)
        } else if wrap && self.entries.len() > 0 {
            Some(0)
        } else {
            None
        }
    }

    /// Index to show before `index`, honoring `wrap`.
    pub fn prev(&self, index: usize, wrap: bool) -> (result: Option<usize>)
        ensures
            as_int(result) == self@.before(index as int, wrap),
    {
        if index > 0 {
            Some(index - 1)
        } else if wrap && self.entries.len() > 0 {
            Some(self.entries.len() - 1)
        } else {
            None
        }
    }

    fn find_slot(&self, entry: &Entry) -> (result: usize)
        requires
            self@.wf(),
        ensures
            result == slot(self@.items, entry@, self@.sort),
            result <= self@.items.len(),
    {
        let ghost items = self@.items;
        let ghost item = entry@;
        proof {
            slot_bounds(items, item, self@.sort);
        }
        let ghost target = slot(items, item, self@.sort);
        let mut low: usize = 0;
        let mut high: usize = self.entries.len();
        while low < high
            invariant
                items == self@.items,
                item == entry@,
                items.len() == self.entries@.len(),
                self@.wf(),
                target == slot(items, item, self@.sort),
                low <= target <= high <= items.len(),
            decreases high - low,
        {
            let middle: usize = low + (high - low) / 2;
            assert(items[middle as int] == self.entries@[middle as int]@);
            let sign = order_entries(&self.entries[middle], entry, self.sort);
            proof {
                slot_bounds(items, item, self@.sort);
                if sign < 0 && target <= middle {
                    if target < middle {
                        assert(placed(items[target], items[middle as int], self@.sort) <= 0);
                        placed_is_transitive(
                            items[target],
                            items[middle as int],
                            item,
                            self@.sort,
                        );
                    }
                    assert(false);
                }
                if sign >= 0 && middle < target {
                    assert(placed(items[middle as int], item, self@.sort) < 0);
                    assert(false);
                }
            }
            if sign < 0 {
                low = middle + 1;
            } else {
                high = middle;
            }
        }
        low
    }

    /// Inserts a newly appeared file at its sorted position. Returns its index,
    /// or None if it does not belong here or is already present.
    pub fn insert(&mut self, snapshot: FileSnapshot) -> (result: Option<usize>)
        requires
            old(self)@.wf(),
        ensures
            final(self)@.wf(),
            match result {
                Some(index) => old(self)@.accepts(snapshot@) && index == old(self)@.slot_of(
                    snapshot@,
                ) && final(self)@ == old(self)@.with(snapshot@),
                None => !old(self)@.accepts(snapshot@) && final(self)@ == old(self)@,
            },
    {
        let ghost before = self@;
        let ghost facts = snapshot@;
        if snapshot.kind != SnapshotKind::Regular {
            return None;
        }
        if !is_in_directory(snapshot.path.as_slice(), self.directory.as_slice()) {
            return None;
        }
        if !is_supported(snapshot.path.as_slice()) {
            return None;
        }
        if self.index_of(snapshot.path.as_slice()).is_some() {
            return None;
        }
        let modified: i128 = match self.sort.order {
            SortOrder::Date => snapshot.modified,
            SortOrder::Name => 0,
        };
        let entry = Entry { path: snapshot.path, modified };
        assert(entry@ =~= before.item_of(facts));
        let at = self.find_slot(&entry);
        self.entries.insert(at, entry);
        assert(self@.items =~= before.items.insert(at as int, entry@));
        proof {
            insertion_keeps_order(before, facts);
        }
        Some(at)
    }

    /// Removes a vanished file. Returns its former index.
    pub fn remove(&mut self, path: &[u8]) -> (result: Option<usize>)
        requires
            old(self)@.wf(),
        ensures
            final(self)@.wf(),
            match result {
                Some(index) => old(self)@.contains(path@) && index == position(
                    old(self)@.items,
                    path@,
                ) && final(self)@ == old(self)@.without(path@),
                None => !old(self)@.contains(path@) && final(self)@ == old(self)@,
            },
    {
        let ghost before = self@;
        match self.index_of(path) {
            Some(at) => {
                self.entries.remove(at);
                assert(self@.items =~= before.items.remove(at as int));
                proof {
                    removal_keeps_order(before, path@);
                }
                Some(at)
            },
            None => None,
        }
    }
}

/// Identifies one installed folder, even when the same directory is opened again.
#[derive(Debug, Clone, Copy, PartialEq, Eq, Structural)]
pub struct NavigationSetId(pub u64);

#[derive(Debug, Clone, PartialEq, Eq)]
pub struct Destination {
    pub index: usize,
    pub path: Vec<u8>,
    pub generation: u64,
}

/// What a destination stands for.
#[verifier::ext_equal]
pub struct Spot {
    pub index: int,
    pub path: Seq<u8>,
    pub generation: u64,
}

impl View for Destination {
    type V = Spot;

    open spec fn view(&self) -> Spot {
        Spot { index: self.index as int, path: self.path@, generation: self.generation }
    }
}

pub open spec fn spot_of(destination: Option<Destination>) -> Option<Spot> {
    match destination {
        Some(d) => Some(d@),
        None => None,
    }
}

#[derive(Debug, Clone, PartialEq, Eq)]
pub enum RemovalOutcome {
    NotFound,
    CurrentPreserved,
    CurrentRemoved(Option<Destination>),
}

/// What a removal did.
pub enum Removal {
    NotFound,
    CurrentPreserved,
    CurrentRemoved(Option<Spot>),
}

impl View for RemovalOutcome {
    type V = Removal;

    open spec fn view(&self) -> Removal {
        match self {
            RemovalOutcome::NotFound => Removal::NotFound,
            RemovalOutcome::CurrentPreserved => Removal::CurrentPreserved,
            RemovalOutcome::CurrentRemoved(d) => Removal::CurrentRemoved(spot_of(*d)),
        }
    }
}

#[derive(Debug, Clone, PartialEq, Eq)]
pub enum RenameOutcome {
    Preserved,
    Renamed(Destination),
    Removed(Option<Destination>),
}

/// What a rename did.
pub enum Renaming {
    Preserved,
    Renamed(Spot),
    Removed(Option<Spot>),
}

impl View for RenameOutcome {
    type V = Renaming;

    open spec fn view(&self) -> Renaming {
        match self {
            RenameOutcome::Preserved => Renaming::Preserved,
            RenameOutcome::Renamed(d) => Renaming::Renamed(d@),
            RenameOutcome::Removed(d) => Renaming::Removed(spot_of(*d)),
        }
    }
}

/// One selected folder and the logical viewer destination within it.
///
/// A generation belongs to each destination so that asynchronous media work can
/// prove that it still targets the active item.
pub struct Navigation {
    folder: Option<Folder>,
    set: u64,
    current: Option<usize>,
    generation: u64,
}

/// Navigation as a value.
#[verifier::ext_equal]
pub struct Course {
    pub shelf: Option<Shelf>,
    pub set: u64,
    pub current: Option<int>,
    pub generation: u64,
}

impl View for Navigation {
    type V = Course;

    closed spec fn view(&self) -> Course {
        Course {
            shelf: match self.folder {
                Some(folder) => Some(folder@),
                None => None,
            },
            set: self.set,
            current: as_int(self.current),
            generation: self.generation,
        }
    }
}

/// The number after a number, going round at the end.
pub open spec fn following(number: u64) -> u64 {
    if number == u64::MAX {
        0
    } else {
        (number + 1) as u64
    }
}

pub fn follow(number: u64) -> (result: u64)
    ensures
        result == following(number),
{
    if number == u64::MAX {
        0
    } else {
        number + 1
    }
}

impl Course {
    pub open spec fn items(self) -> Seq<Item> {
        match self.shelf {
            Some(shelf) => shelf.items,
            None => Seq::empty(),
        }
    }

    /// The folder is sorted, and a current position is one of its positions.
    pub open spec fn wf(self) -> bool {
        &&& self.shelf matches Some(shelf) ==> shelf.wf()
        &&& self.current matches Some(index) ==> 0 <= index < self.items().len()
    }

    pub open spec fn distinct(self) -> bool {
        self.shelf matches Some(shelf) ==> shelf.distinct()
    }

    pub open spec fn bumped(self) -> Course {
        Course { generation: following(self.generation), ..self }
    }

    pub open spec fn installed(self, shelf: Shelf) -> Course {
        Course { shelf: Some(shelf), set: following(self.set), current: None, ..self }.bumped()
    }

    pub open spec fn current_path(self) -> Option<Seq<u8>> {
        match self.current {
            Some(index) => if 0 <= index < self.items().len() {
                Some(self.items()[index].path)
            } else {
                None
            },
            None => None,
        }
    }

    pub open spec fn is_current(self, path: Seq<u8>) -> bool {
        self.current_path() matches Some(current) && place(current) == place(path)
    }

    pub open spec fn destination(self) -> Option<Spot> {
        match (self.current, self.current_path()) {
            (Some(index), Some(path)) => Some(Spot { index, path, generation: self.generation }),
            _ => None,
        }
    }

    pub open spec fn selected(self, index: int) -> Course {
        Course { current: Some(index), ..self }.bumped()
    }

    pub open spec fn contains(self, path: Seq<u8>) -> bool {
        self.shelf matches Some(shelf) && shelf.contains(path)
    }

    pub open spec fn accepts(self, facts: Facts) -> bool {
        self.shelf matches Some(shelf) && shelf.accepts(facts)
    }

    /// A file taken in; the current item stays current.
    pub open spec fn with(self, facts: Facts) -> Course {
        match self.shelf {
            Some(shelf) => if shelf.accepts(facts) {
                Course {
                    shelf: Some(shelf.with(facts)),
                    current: match self.current {
                        Some(index) => if shelf.slot_of(facts) <= index {
                            Some(index + 1)
                        } else {
                            Some(index)
                        },
                        None => None,
                    },
                    ..self
                }
            } else {
                self
            },
            None => self,
        }
    }

    /// A file taken out; another current item stays current.
    pub open spec fn without(self, path: Seq<u8>) -> Course {
        match self.shelf {
            Some(shelf) => if shelf.contains(path) {
                Course {
                    shelf: Some(shelf.without(path)),
                    current: match self.current {
                        Some(index) => if position(shelf.items, path) < index {
                            Some(index - 1)
                        } else {
                            Some(index)
                        },
                        None => None,
                    },
                    ..self
                }
            } else {
                self
            },
            None => self,
        }
    }

    /// The same folder with the current position moved to the nearest one that is left.
    pub open spec fn moved_near(self, index: int) -> Course {
        let count = self.items().len() as int;
        let nearest = if index < count {
            index
        } else {
            count - 1
        };
        Course {
            current: if count == 0 {
                None
            } else {
                Some(nearest)
            },
            ..self
        }.bumped()
    }

    pub open spec fn removed(self, path: Seq<u8>) -> Course {
        if self.contains(path) && self.is_current(path) {
            self.without(path).moved_near(position(self.items(), path))
        } else {
            self.without(path)
        }
    }

    pub open spec fn removal(self, path: Seq<u8>) -> Removal {
        if !self.contains(path) {
            Removal::NotFound
        } else if self.is_current(path) {
            Removal::CurrentRemoved(self.removed(path).destination())
        } else {
            Removal::CurrentPreserved
        }
    }

    /// The folder once the old path is gone and the new one holds no stale entry.
    pub open spec fn cleared(self, old_path: Seq<u8>, new_path: Seq<u8>) -> Course {
        let first = self.without(old_path);
        if place(old_path) != place(new_path) {
            first.without(new_path)
        } else {
            first
        }
    }

    pub open spec fn renamed(
        self,
        old_path: Seq<u8>,
        new_path: Seq<u8>,
        facts: Option<Facts>,
    ) -> Course {
        let affected = self.is_current(old_path) || self.is_current(new_path);
        let bare = self.cleared(old_path, new_path);
        match facts {
            Some(f) => if bare.accepts(f) {
                let full = bare.with(f);
                if affected {
                    full.selected(bare.shelf->0.slot_of(f))
                } else {
                    full
                }
            } else if affected {
                bare.moved_near(bare.current->0)
            } else {
                bare
            },
            None => if affected {
                bare.moved_near(bare.current->0)
            } else {
                bare
            },
        }
    }

    pub open spec fn renaming(
        self,
        old_path: Seq<u8>,
        new_path: Seq<u8>,
        facts: Option<Facts>,
    ) -> Renaming {
        let after = self.renamed(old_path, new_path, facts);
        if !(self.is_current(old_path) || self.is_current(new_path)) {
            Renaming::Preserved
        } else if facts matches Some(f) && self.cleared(old_path, new_path).accepts(f) {
            Renaming::Renamed(after.destination()->0)
        } else {
            Renaming::Removed(after.destination())
        }
    }

    /// What is known of a renamed file before its metadata has been read: it
    /// keeps the time of the file that moved, or else of the one it replaced.
    pub open spec fn provisional(self, old_path: Seq<u8>, new_path: Seq<u8>) -> Option<Facts> {
        let items = self.items();
        let kind = SnapshotKind::Regular;
        if self.contains(old_path) {
            let modified = items[position(items, old_path)].modified;
            Some(Facts { path: new_path, modified, kind })
        } else if self.contains(new_path) {
            let modified = items[position(items, new_path)].modified;
            Some(Facts { path: new_path, modified, kind })
        } else {
            None
        }
    }

    pub open spec fn next(self, wrap: bool) -> Option<int> {
        match (self.shelf, self.current) {
            (Some(shelf), Some(index)) => shelf.after(index, wrap),
            (Some(shelf), None) => if shelf.items.len() > 0 {
                Some(0)
            } else {
                None
            },
            _ => None,
        }
    }

    pub open spec fn prev(self, wrap: bool) -> Option<int> {
        match (self.shelf, self.current) {
            (Some(shelf), Some(index)) => shelf.before(index, wrap),
            (Some(shelf), None) => if shelf.items.len() > 0 {
                Some(shelf.items.len() - 1)
            } else {
                None
            },
            _ => None,
        }
    }
}

/// Taking in a file leaves the current item current, whatever its new position.
pub proof fn insertion_preserves_current(course: Course, facts: Facts)
    requires
        course.wf(),
    ensures
        course.with(facts).wf(),
        course.with(facts).current_path() == course.current_path(),
        course.with(facts).generation == course.generation,
        course.distinct() ==> course.with(facts).distinct(),
{
    if let Some(shelf) = course.shelf {
        if shelf.accepts(facts) {
            insertion_keeps_order(shelf, facts);
        }
    }
}

/// Taking out a file other than the current one leaves the current item current.
pub proof fn removal_preserves_another_current(course: Course, path: Seq<u8>)
    requires
        course.wf(),
        !course.is_current(path),
    ensures
        course.without(path).wf(),
        course.without(path).current_path() == course.current_path(),
        course.removed(path) == course.without(path),
        course.distinct() ==> course.without(path).distinct(),
{
    if let Some(shelf) = course.shelf {
        position_bounds(shelf.items, path);
        if shelf.contains(path) {
            removal_keeps_order(shelf, path);
            let at = position(shelf.items, path);
            if let Some(index) = course.current {
                assert(is_at(shelf.items[at], path));
                assert(index != at);
                let after = shelf.without(path);
                if at < index {
                    assert(after.items[index - 1] == shelf.items[index]);
                } else {
                    assert(after.items[index] == shelf.items[index]);
                }
            }
        }
    }
}

/// When the current item goes, the one that took its position is shown next, or
/// the last one where it stood at the end; nothing where it was the only one.
pub proof fn current_removal_keeps_the_nearest_position(course: Course, path: Seq<u8>)
    requires
        course.wf(),
        course.distinct(),
        course.is_current(path),
    ensures
        course.removed(path).wf(),
        course.removed(path).distinct(),
        course.removed(path).items() == course.items().remove(course.current->0),
        course.items().len() == 1 ==> course.removed(path).current is None,
        course.items().len() > 1 && course.current->0 + 1 < course.items().len()
            ==> course.removed(path).current == course.current && course.removed(
            path,
        ).current_path() == Some(course.items()[course.current->0 + 1].path),
        course.items().len() > 1 && course.current->0 + 1 == course.items().len()
            ==> course.removed(path).current == Some(course.current->0 - 1) && course.removed(
            path,
        ).current_path() == Some(course.items()[course.current->0 - 1].path),
        course.removal(path) == Removal::CurrentRemoved(course.removed(path).destination()),
{
    let shelf = course.shelf->0;
    let index = course.current->0;
    position_bounds(shelf.items, path);
    assert(is_at(shelf.items[index], path));
    let at = position(shelf.items, path);
    if at < index {
        assert(!is_at(shelf.items[at], shelf.items[index].path));
    } else if index < at {
        assert(!is_at(shelf.items[index], path));
    }
    removal_keeps_order(shelf, path);
}

/// A generation handed out before the current item was selected anew, cleared,
/// superseded, replaced by another folder or removed is not the current one after.
pub proof fn stale_generations_are_rejected(course: Course, shelf: Shelf, index: int, path: Seq<u8>)
    ensures
        course.bumped().generation != course.generation,
        course.installed(shelf).generation != course.generation,
        course.installed(shelf).set != course.set,
        course.selected(index).generation != course.generation,
        course.contains(path) && course.is_current(path) ==> course.removed(path).generation
            != course.generation,
{
}

/// A rename keeps the navigation set sorted; where the file is accepted its new
/// path is in the set, once if nothing was there twice.
pub proof fn rename_keeps_the_set_sound(
    course: Course,
    old_path: Seq<u8>,
    new_path: Seq<u8>,
    facts: Option<Facts>,
)
    requires
        course.wf(),
    ensures
        course.renamed(old_path, new_path, facts).wf(),
        course.distinct() ==> course.renamed(old_path, new_path, facts).distinct(),
        !(course.is_current(old_path) || course.is_current(new_path)) ==> course.renamed(
            old_path,
            new_path,
            facts,
        ).current_path() == course.current_path(),
        facts matches Some(f) ==> (course.cleared(old_path, new_path).accepts(f)
            ==> course.renamed(old_path, new_path, facts).contains(f.path)),
{
    let bare = course.cleared(old_path, new_path);
    clearing_is_sound(course, old_path, new_path);
    if let Some(f) = facts {
        if bare.accepts(f) {
            let shelf = bare.shelf->0;
            insertion_keeps_order(shelf, f);
            removal_undoes_insertion(shelf, f);
        }
    }
}

/// The state between taking the paths of a rename out and putting the file back.
proof fn clearing_is_sound(course: Course, old_path: Seq<u8>, new_path: Seq<u8>)
    requires
        course.wf(),
    ensures
        course.cleared(old_path, new_path).shelf matches Some(shelf) ==> shelf.wf(),
        course.distinct() ==> course.cleared(old_path, new_path).distinct(),
        course.cleared(old_path, new_path).shelf is Some <==> course.shelf is Some,
        course.cleared(old_path, new_path).current is Some <==> course.current is Some,
        course.cleared(old_path, new_path).current matches Some(index) ==> 0 <= index
            <= course.cleared(old_path, new_path).items().len(),
        !(course.is_current(old_path) || course.is_current(new_path)) ==> course.cleared(
            old_path,
            new_path,
        ).wf() && course.cleared(old_path, new_path).current_path() == course.current_path(),
{
    let first = course.without(old_path);
    if let Some(shelf) = course.shelf {
        position_bounds(shelf.items, old_path);
        if shelf.contains(old_path) {
            removal_keeps_order(shelf, old_path);
        }
        let second = first.shelf->0;
        position_bounds(second.items, new_path);
        if second.contains(new_path) {
            removal_keeps_order(second, new_path);
        }
    }
    if !(course.is_current(old_path) || course.is_current(new_path)) {
        removal_preserves_another_current(course, old_path);
        removal_preserves_another_current(first, new_path);
    }
}

impl Navigation {
    pub fn new() -> (result: Self)
        ensures
            result@ == (Course { shelf: None, set: 0, current: None, generation: 0 }),
            result@.wf(),
    {
        Navigation { folder: None, set: 0, current: None, generation: 0 }
    }

    /// Replaces the folder; nothing in it is current yet.
    pub fn install(&mut self, folder: Folder)
        requires
            folder@.wf(),
        ensures
            final(self)@ == old(self)@.installed(folder@),
            final(self)@.wf(),
    {
        self.folder = Some(folder);
        self.set = follow(self.set);
        self.current = None;
        self.bump_generation();
    }

    /// Identifies the installed folder.
    pub fn set_id(&self) -> (result: Option<NavigationSetId>)
        ensures
            result == (if self@.shelf is Some {
                Some(NavigationSetId(self@.set))
            } else {
                None
            }),
    {
        match &self.folder {
            Some(_) => Some(NavigationSetId(self.set)),
            None => None,
        }
    }

    pub fn directory(&self) -> (result: Option<&[u8]>)
        ensures
            match result {
                Some(directory) => self@.shelf matches Some(shelf) && directory@
                    == shelf.directory,
                None => self@.shelf is None,
            },
    {
        match &self.folder {
            Some(folder) => Some(folder.directory.as_slice()),
            None => None,
        }
    }

    pub fn len(&self) -> (result: usize)
        ensures
            result == self@.items().len(),
    {
        match &self.folder {
            Some(folder) => folder.len(),
            None => 0,
        }
    }

    pub fn is_empty(&self) -> (result: bool)
        ensures
            result == (self@.items().len() == 0),
    {
        self.len() == 0
    }

    pub fn get(&self, index: usize) -> (result: Option<&[u8]>)
        ensures
            match result {
                Some(path) => index < self@.items().len() && path@ == self@.items()[index as int].path,
                None => index >= self@.items().len(),
            },
    {
        match &self.folder {
            Some(folder) => folder.get(index),
            None => None,
        }
    }

    pub fn index_of(&self, path: &[u8]) -> (result: Option<usize>)
        ensures
            match result {
                Some(index) => self@.contains(path@) && index == position(self@.items(), path@),
                None => !self@.contains(path@),
            },
    {
        match &self.folder {
            Some(folder) => folder.index_of(path),
            None => None,
        }
    }

    pub fn current_index(&self) -> (result: Option<usize>)
        ensures
            as_int(result) == self@.current,
    {
        self.current
    }

    pub fn current_path(&self) -> (result: Option<&[u8]>)
        ensures
            match result {
                Some(path) => self@.current_path() == Some(path@),
                None => self@.current_path() is None,
            },
    {
        match self.current {
            Some(index) => self.get(index),
            None => None,
        }
    }

    /// Whether a path is that of the current item.
    pub fn is_current(&self, path: &[u8]) -> (result: bool)
        ensures
            result == self@.is_current(path@),
    {
        match self.current_path() {
            Some(current) => same_path(current, path),
            None => false,
        }
    }

    pub fn generation(&self) -> (result: u64)
        ensures
            result == self@.generation,
    {
        self.generation
    }

    pub fn is_current_generation(&self, generation: u64) -> (result: bool)
        ensures
            result == (self@.generation == generation),
    {
        self.generation == generation
    }

    pub fn select(&mut self, index: usize) -> (result: Option<Destination>)
        requires
            old(self)@.wf(),
        ensures
            final(self)@.wf(),
            index < old(self)@.items().len() ==> final(self)@ == old(self)@.selected(index as int)
                && spot_of(result) == final(self)@.destination() && result is Some,
            index >= old(self)@.items().len() ==> final(self)@ == old(self)@ && result is None,
    {
        if index >= self.len() {
            return None;
        }
        self.current = Some(index);
        self.bump_generation();
        self.destination()
    }

    pub fn clear_current(&mut self)
        requires
            old(self)@.wf(),
        ensures
            final(self)@ == (Course { current: None, ..old(self)@ }).bumped(),
            final(self)@.wf(),
    {
        self.current = None;
        self.bump_generation();
    }

    /// Invalidates work for the current destination without losing its
    /// position, as when its decode resolves to an error state.
    pub fn supersede(&mut self)
        requires
            old(self)@.wf(),
        ensures
            final(self)@ == old(self)@.bumped(),
            final(self)@.wf(),
    {
        self.bump_generation();
    }

    pub fn next(&self, wrap: bool) -> (result: Option<usize>)
        ensures
            as_int(result) == self@.next(wrap),
    {
        match &self.folder {
            Some(folder) => match self.current {
                Some(index) => folder.next(index, wrap),
                None => if folder.is_empty() {
                    None
                } else {
                    Some(0)
                },
            },
            None => None,
        }
    }

    pub fn prev(&self, wrap: bool) -> (result: Option<usize>)
        ensures
            as_int(result) == self@.prev(wrap),
    {
        match &self.folder {
            Some(folder) => match self.current {
                Some(index) => folder.prev(index, wrap),
                None => if folder.is_empty() {
                    None
                } else {
                    Some(folder.len() - 1)
                },
            },
            None => None,
        }
    }

    pub fn next_from(&self, index: usize, wrap: bool) -> (result: Option<usize>)
        ensures
            as_int(result) == match self@.shelf {
                Some(shelf) => shelf.after(index as int, wrap),
                None => None,
            },
    {
        match &self.folder {
            Some(folder) => folder.next(index, wrap),
            None => None,
        }
    }

    pub fn prev_from(&self, index: usize, wrap: bool) -> (result: Option<usize>)
        ensures
            as_int(result) == match self@.shelf {
                Some(shelf) => shelf.before(index as int, wrap),
                None => None,
            },
    {
        match &self.folder {
            Some(folder) => folder.prev(index, wrap),
            None => None,
        }
    }

    /// Takes a file in. Returns its index where it was accepted.
    pub fn insert(&mut self, snapshot: FileSnapshot) -> (result: Option<usize>)
        requires
            old(self)@.wf(),
        ensures
            final(self)@ == old(self)@.with(snapshot@),
            final(self)@.wf(),
            match result {
                Some(index) => old(self)@.accepts(snapshot@) && index
                    == old(self)@.shelf->0.slot_of(snapshot@),
                None => !old(self)@.accepts(snapshot@),
            },
    {
        proof {
            insertion_preserves_current(self@, snapshot@);
        }
        self.insert_entry(snapshot)
    }

    /// Takes a file out. Where it was the current one, the nearest item becomes current.
    pub fn remove(&mut self, path: &[u8]) -> (result: RemovalOutcome)
        requires
            old(self)@.wf(),
        ensures
            final(self)@ == old(self)@.removed(path@),
            result@ == old(self)@.removal(path@),
            final(self)@.wf(),
    {
        let ghost before = self@;
        let was_current = self.is_current(path);
        proof {
            position_bounds(before.items(), path@);
            if !before.is_current(path@) {
                removal_preserves_another_current(before, path@);
            } else {
                removal_keeps_order(before.shelf->0, path@);
            }
        }
        match self.remove_entry(path) {
            Some(index) => if was_current {
                self.move_near(index);
                RemovalOutcome::CurrentRemoved(self.destination())
            } else {
                RemovalOutcome::CurrentPreserved
            },
            None => RemovalOutcome::NotFound,
        }
    }

    /// Moves a file. A replace-style rename can overwrite an existing entry; it
    /// is taken out so that exactly one entry of the new path is left.
    pub fn rename(
        &mut self,
        old_path: &[u8],
        new_path: &[u8],
        snapshot: Option<FileSnapshot>,
    ) -> (result: RenameOutcome)
        requires
            old(self)@.wf(),
        ensures
            final(self)@ == old(self)@.renamed(
                old_path@,
                new_path@,
                facts_of(snapshot),
            ),
            result@ == old(self)@.renaming(
                old_path@,
                new_path@,
                facts_of(snapshot),
            ),
            final(self)@.wf(),
    {
        let ghost before = self@;
        let ghost facts = facts_of(snapshot);
        let affected = self.is_current(old_path) || self.is_current(new_path);
        proof {
            clearing_is_sound(before, old_path@, new_path@);
            rename_keeps_the_set_sound(before, old_path@, new_path@, facts);
            if before.shelf is Some {
                position_bounds(before.items(), old_path@);
                if before.contains(old_path@) {
                    removal_keeps_order(before.shelf->0, old_path@);
                }
            }
        }
        self.remove_entry(old_path);
        if !same_path(old_path, new_path) {
            self.remove_entry(new_path);
        }
        let ghost bare = self@;
        assert(bare == before.cleared(old_path@, new_path@));
        let inserted = match snapshot {
            Some(snapshot) => self.insert_entry(snapshot),
            None => None,
        };
        if !affected {
            return RenameOutcome::Preserved;
        }
        match inserted {
            Some(index) => {
                self.current = Some(index);
                self.bump_generation();
                match self.destination() {
                    Some(destination) => RenameOutcome::Renamed(destination),
                    None => RenameOutcome::Preserved,
                }
            },
            None => {
                match self.current {
                    Some(index) => self.move_near(index),
                    None => {},
                }
                RenameOutcome::Removed(self.destination())
            },
        }
    }

    /// Moves a file whose metadata is not known yet; it keeps the time it had.
    pub fn rename_pending(&mut self, old_path: &[u8], new_path: &[u8]) -> (result: RenameOutcome)
        requires
            old(self)@.wf(),
        ensures
            final(self)@ == old(self)@.renamed(
                old_path@,
                new_path@,
                old(self)@.provisional(old_path@, new_path@),
            ),
            result@ == old(self)@.renaming(
                old_path@,
                new_path@,
                old(self)@.provisional(old_path@, new_path@),
            ),
            final(self)@.wf(),
    {
        let modified = match self.modified_at(old_path) {
            Some(time) => Some(time),
            None => self.modified_at(new_path),
        };
        let snapshot = match modified {
            Some(time) => Some(FileSnapshot::new(copy_bytes(new_path), time)),
            None => None,
        };
        self.rename(old_path, new_path, snapshot)
    }

    fn modified_at(&self, path: &[u8]) -> (result: Option<i128>)
        ensures
            match result {
                Some(time) => self@.contains(path@) && time as int == self@.items()[position(
                    self@.items(),
                    path@,
                )].modified,
                None => !self@.contains(path@),
            },
    {
        match &self.folder {
            Some(folder) => match folder.index_of(path) {
                Some(index) => {
                    proof {
                        position_bounds(folder@.items, path@);
                    }
                    assert(folder@.items[index as int] == folder.entries@[index as int]@);
                    Some(folder.entries[index].modified)
                },
                None => None,
            },
            None => None,
        }
    }

    fn insert_entry(&mut self, snapshot: FileSnapshot) -> (result: Option<usize>)
        requires
            old(self)@.shelf matches Some(shelf) ==> shelf.wf(),
            old(self)@.current matches Some(index) ==> 0 <= index <= old(self)@.items().len(),
        ensures
            final(self)@ == old(self)@.with(snapshot@),
            match result {
                Some(index) => old(self)@.accepts(snapshot@) && index
                    == old(self)@.shelf->0.slot_of(snapshot@),
                None => !old(self)@.accepts(snapshot@),
            },
    {
        match self.folder.take() {
            Some(mut folder) => {
                let inserted = folder.insert(snapshot);
                let count: usize = folder.len();
                self.folder = Some(folder);
                match (inserted, self.current) {
                    (Some(index), Some(current)) => if index <= current {
                        self.current = Some(current + 1);
                    },
                    _ => {},
                }
                inserted
            },
            None => None,
        }
    }

    fn remove_entry(&mut self, path: &[u8]) -> (result: Option<usize>)
        requires
            old(self)@.shelf matches Some(shelf) ==> shelf.wf(),
            old(self)@.current matches Some(index) ==> 0 <= index <= old(self)@.items().len(),
        ensures
            final(self)@ == old(self)@.without(path@),
            match result {
                Some(index) => old(self)@.contains(path@) && index == position(
                    old(self)@.items(),
                    path@,
                ),
                None => !old(self)@.contains(path@),
            },
    {
        match self.folder.take() {
            Some(mut folder) => {
                let removed = folder.remove(path);
                self.folder = Some(folder);
                match (removed, self.current) {
                    (Some(index), Some(current)) => if index < current {
                        self.current = Some(current - 1);
                    },
                    _ => {},
                }
                removed
            },
            None => None,
        }
    }

    fn move_near(&mut self, index: usize)
        ensures
            final(self)@ == old(self)@.moved_near(index as int),
    {
        let count: usize = self.len();
        self.current = if count == 0 {
            None
        } else if index < count {
            Some(index)
        } else {
            Some(count - 1)
        };
        self.bump_generation();
    }

    fn destination(&self) -> (result: Option<Destination>)
        ensures
            spot_of(result) == self@.destination(),
    {
        match self.current {
            Some(index) => match self.get(index) {
                Some(path) => Some(
                    Destination { index, path: copy_bytes(path), generation: self.generation },
                ),
                None => None,
            },
            None => None,
        }
    }

    /// The destination that is current now.
    pub fn current_destination(&self) -> (result: Option<Destination>)
        ensures
            spot_of(result) == self@.destination(),
    {
        self.destination()
    }

    fn bump_generation(&mut self)
        ensures
            final(self)@ == old(self)@.bumped(),
    {
        self.generation = follow(self.generation);
    }
}

impl Default for Navigation {
    fn default() -> (result: Self)
        ensures
            result@ == (Course { shelf: None, set: 0, current: None, generation: 0 }),
    {
        Navigation::new()
    }
}

/// A folder contains a path where one of its items is at the same place.
pub proof fn containing_is_having_an_item(shelf: Shelf, path: Seq<u8>)
    ensures
        shelf.contains(path) <==> exists|i: int|
            0 <= i < shelf.items.len() && place((#[trigger] shelf.items[i]).path) == place(path),
        shelf.contains(path) ==> place(shelf.items[position(shelf.items, path)].path) == place(path),
{
    position_bounds(shelf.items, path);
    if exists|i: int|
        0 <= i < shelf.items.len() && place((#[trigger] shelf.items[i]).path) == place(path) {
        let i = choose|i: int|
            0 <= i < shelf.items.len() && place((#[trigger] shelf.items[i]).path) == place(path);
        if position(shelf.items, path) == shelf.items.len() {
            assert(!is_at(shelf.items[i], path));
        }
    }
}

/// The current file is one of the folder.
pub proof fn current_files_are_contained(course: Course, path: Seq<u8>)
    requires
        course.wf(),
        course.is_current(path),
    ensures
        course.contains(path),
{
    containing_is_having_an_item(course.shelf->0, path);
    assert(place(course.shelf->0.items[course.current->0].path) == place(path));
}

/// Taking a file out takes out that file alone.
pub proof fn removal_leaves_the_others(course: Course, path: Seq<u8>, other: Seq<u8>)
    requires
        course.wf(),
        course.distinct(),
    ensures
        !course.removed(path).contains(path),
        place(other) != place(path) ==> (course.removed(path).contains(other) <==> course.contains(
            other,
        )),
        course.contains(path) ==> course.removed(path).items().len() == course.items().len() - 1,
        !course.contains(path) ==> course.removed(path) == course,
{
    if course.shelf is Some {
        let shelf = course.shelf->0;
        without_leaves_the_others(shelf, path, other);
        if shelf.contains(path) {
            position_bounds(shelf.items, path);
        }
    }
}

proof fn without_leaves_the_others(shelf: Shelf, path: Seq<u8>, other: Seq<u8>)
    requires
        shelf.wf(),
        shelf.distinct(),
    ensures
        shelf.contains(path) ==> !shelf.without(path).contains(path),
        shelf.contains(path) && place(other) != place(path) ==> (shelf.without(path).contains(other)
            <==> shelf.contains(other)),
{
    if shelf.contains(path) {
        removal_keeps_order(shelf, path);
        let at = position(shelf.items, path);
        position_bounds(shelf.items, path);
        let left = shelf.without(path);
        containing_is_having_an_item(shelf, other);
        containing_is_having_an_item(left, other);
        if shelf.contains(other) && place(other) != place(path) {
            let i = position(shelf.items, other);
            position_bounds(shelf.items, other);
            let k = if i < at {
                i
            } else {
                i - 1
            };
            assert(left.items[k] == shelf.items[i]);
        }
        if left.contains(other) {
            let k = position(left.items, other);
            position_bounds(left.items, other);
            let i = if k < at {
                k
            } else {
                k + 1
            };
            assert(left.items[k] == shelf.items[i]);
        }
    }
}

/// A file that is taken in is in the folder, and every other is as it was; only a regular
/// file of a known kind in this very directory, which is not there yet, is taken in.
pub proof fn insertion_adds_the_file_alone(course: Course, facts: Facts, other: Seq<u8>)
    requires
        course.wf(),
    ensures
        course.accepts(facts) <==> course.shelf is Some && facts.kind == SnapshotKind::Regular
            && parent_place(facts.path) == Some(place(course.shelf->0.directory)) && supported_path(
            facts.path,
        ) && !course.contains(facts.path),
        course.accepts(facts) ==> course.with(facts).contains(facts.path) && course.with(
            facts,
        ).items().len() == course.items().len() + 1,
        !course.accepts(facts) ==> course.with(facts) == course,
        place(other) != place(facts.path) ==> (course.with(facts).contains(other)
            <==> course.contains(other)),
{
    if course.accepts(facts) {
        let shelf = course.shelf->0;
        removal_undoes_insertion(shelf, facts);
        slot_bounds(shelf.items, shelf.item_of(facts), shelf.sort);
        let more = shelf.with(facts);
        let at = shelf.slot_of(facts);
        containing_is_having_an_item(shelf, other);
        containing_is_having_an_item(more, other);
        if place(other) != place(facts.path) {
            if shelf.contains(other) {
                let i = position(shelf.items, other);
                position_bounds(shelf.items, other);
                let k = if i < at {
                    i
                } else {
                    i + 1
                };
                assert(more.items[k] == shelf.items[i]);
            }
            if more.contains(other) {
                let k = position(more.items, other);
                position_bounds(more.items, other);
                assert(k != at);
                let i = if k < at {
                    k
                } else {
                    k - 1
                };
                assert(more.items[k] == shelf.items[i]);
            }
        }
    }
}

/// A file that moved within the folder is there under its new path and no longer under the
/// old one. Where either path was the current one, the file is now, under a generation of
/// its own.
pub proof fn renamed_files_move(course: Course, old_path: Seq<u8>, new_path: Seq<u8>, facts: Facts)
    requires
        course.wf(),
        course.distinct(),
        place(old_path) != place(new_path),
        facts.path == new_path,
        facts.kind == SnapshotKind::Regular,
        course.shelf matches Some(shelf) && shelf.admits(new_path),
    ensures
        ({
            let after = course.renamed(old_path, new_path, Some(facts));
            let affected = course.is_current(old_path) || course.is_current(new_path);
            &&& after.contains(new_path)
            &&& !after.contains(old_path)
            &&& affected ==> after.is_current(new_path) && after.generation != course.generation
            &&& affected ==> (course.renaming(old_path, new_path, Some(facts)) matches Renaming::Renamed(
                spot,
            ) && place(spot.path) == place(new_path) && Some(spot) == after.destination())
            &&& !affected ==> course.renaming(old_path, new_path, Some(facts))
                == Renaming::Preserved && after.generation == course.generation
                && after.current_path() == course.current_path()
        }),
{
    let first = course.without(old_path);
    let shelf = course.shelf->0;
    without_leaves_the_others(shelf, old_path, new_path);
    if shelf.contains(old_path) {
        removal_keeps_order(shelf, old_path);
    }
    let middle = first.shelf->0;
    assert(!middle.contains(old_path));
    without_leaves_the_others(middle, new_path, old_path);
    if middle.contains(new_path) {
        removal_keeps_order(middle, new_path);
    }
    let bare = course.cleared(old_path, new_path);
    assert(!bare.contains(new_path));
    assert(!bare.contains(old_path));
    assert(bare.accepts(facts));
    clearing_is_sound(course, old_path, new_path);
    rename_keeps_the_set_sound(course, old_path, new_path, Some(facts));
    let left = bare.shelf->0;
    slot_bounds(left.items, left.item_of(facts), left.sort);
    insertion_adds_the_file_alone(
        Course { current: None, ..bare },
        facts,
        old_path,
    );
    if course.is_current(old_path) || course.is_current(new_path) {
        let after = course.renamed(old_path, new_path, Some(facts));
        assert(after.items()[left.slot_of(facts)] == left.item_of(facts));
    }
}

/// A file that moved to where it cannot be shown is gone from the folder; where it was the
/// current one, the nearest that is left is.
pub proof fn files_moved_away_are_gone(course: Course, old_path: Seq<u8>, new_path: Seq<u8>)
    requires
        course.wf(),
        course.distinct(),
        place(old_path) != place(new_path),
    ensures
        ({
            let after = course.renamed(old_path, new_path, None);
            &&& !after.contains(old_path)
            &&& !after.contains(new_path)
            &&& course.is_current(old_path) || course.is_current(new_path) ==> (course.renaming(
                old_path,
                new_path,
                None,
            ) matches Renaming::Removed(spot) && spot == after.destination()) && after.generation
                != course.generation
        }),
{
    if course.shelf is Some {
        let shelf = course.shelf->0;
        without_leaves_the_others(shelf, old_path, new_path);
        if shelf.contains(old_path) {
            removal_keeps_order(shelf, old_path);
        }
        let middle = course.without(old_path).shelf->0;
        without_leaves_the_others(middle, new_path, old_path);
    }
}

/// Before its metadata is read, a file that moved keeps the time that it had under its old
/// path, or else that of the file that it replaced.
pub proof fn moving_files_keep_their_time(course: Course, old_path: Seq<u8>, new_path: Seq<u8>, at: int)
    requires
        course.wf(),
        course.distinct(),
        0 <= at < course.items().len(),
    ensures
        place(course.items()[at].path) == place(old_path) ==> course.provisional(old_path, new_path)
            == Some(
            Facts {
                path: new_path,
                modified: course.items()[at].modified,
                kind: SnapshotKind::Regular,
            },
        ),
        !course.contains(old_path) && place(course.items()[at].path) == place(new_path)
            ==> course.provisional(old_path, new_path) == Some(
            Facts {
                path: new_path,
                modified: course.items()[at].modified,
                kind: SnapshotKind::Regular,
            },
        ),
        !course.contains(old_path) && !course.contains(new_path) ==> course.provisional(
            old_path,
            new_path,
        ) is None,
{
    let items = course.items();
    position_bounds(items, old_path);
    position_bounds(items, new_path);
    let o = position(items, old_path);
    let n = position(items, new_path);
    if place(items[at].path) == place(old_path) {
        assert(is_at(items[at], old_path));
        if o < at {
            assert(is_at(items[o], old_path));
            assert(!is_at(items[o], items[at].path));
        } else if at < o {
            assert(!is_at(items[at], old_path));
        }
    }
    if place(items[at].path) == place(new_path) {
        assert(is_at(items[at], new_path));
        if n < at {
            assert(is_at(items[n], new_path));
            assert(!is_at(items[n], items[at].path));
        } else if at < n {
            assert(!is_at(items[at], new_path));
        }
    }
}

/// The next file is one further and the previous one back; past either end there is
/// nothing, unless the folder wraps around to its other end.
pub proof fn steps_go_one_file(shelf: Shelf, index: int, wrap: bool)
    requires
        0 <= index < shelf.items.len(),
    ensures
        index + 1 < shelf.items.len() ==> shelf.after(index, wrap) == Some(index + 1),
        index + 1 == shelf.items.len() && wrap ==> shelf.after(index, wrap) == Some(0int),
        index + 1 == shelf.items.len() && !wrap ==> shelf.after(index, wrap) is None,
        index > 0 ==> shelf.before(index, wrap) == Some(index - 1),
        index == 0 && wrap ==> shelf.before(index, wrap) == Some(shelf.items.len() - 1),
        index == 0 && !wrap ==> shelf.before(index, wrap) is None,
{
}

/// Where nothing is current, stepping on enters the folder at its first file and stepping
/// back at its last.
pub proof fn steps_enter_the_folder(course: Course, shelf: Shelf, index: int, wrap: bool)
    requires
        course.shelf == Some(shelf),
    ensures
        course.current is None && shelf.items.len() > 0 ==> course.next(wrap) == Some(0int)
            && course.prev(wrap) == Some(shelf.items.len() - 1),
        course.current is None && shelf.items.len() == 0 ==> course.next(wrap) is None
            && course.prev(wrap) is None,
        course.current == Some(index) ==> course.next(wrap) == shelf.after(index, wrap)
            && course.prev(wrap) == shelf.before(index, wrap),
{
}

/// Selecting a file makes that file the current one, and the destination names it; a
/// folder that is opened has no current file.
pub proof fn selected_files_are_current(course: Course, shelf: Shelf, index: int)
    requires
        0 <= index < course.items().len(),
    ensures
        course.selected(index).current_path() == Some(course.items()[index].path),
        course.selected(index).destination() matches Some(spot) && spot.index == index && spot.path
            == course.items()[index].path && spot.generation == course.selected(index).generation,
        course.selected(index).items() == course.items(),
        course.installed(shelf).current is None && course.installed(shelf).shelf == Some(shelf),
        course.bumped().items() == course.items() && course.bumped().current == course.current
            && course.bumped().set == course.set,
{
}

/// By date the newest file comes first, and by name the one that is first in the natural
/// order, which also tells files of one date apart.
pub proof fn newest_come_first(left: Item, right: Item)
    ensures
        ({
            let by_date = Sort { order: SortOrder::Date, reverse: false };
            let by_name = Sort { order: SortOrder::Name, reverse: false };
            let names = natural(display_name(left.path), display_name(right.path));
            &&& left.modified > right.modified ==> placed(left, right, by_date) < 0
            &&& left.modified < right.modified ==> placed(left, right, by_date) > 0
            &&& left.modified == right.modified ==> placed(left, right, by_date) == names
            &&& placed(left, right, by_name) == names
        }),
{
}

/// A file is sorted by the name that it has in its directory.
pub proof fn files_go_by_their_names(directory: Seq<u8>, name: Seq<u8>)
    requires
        is_plain_name(name),
    ensures
        display_name(joined(directory, name)) == lossy_text(name),
{
    joined_place(directory, name);
}

/// A folder shows every regular file of a known kind that its directory lists, and nothing
/// else; by date each keeps its time.
pub proof fn folders_show_their_media(directory: Seq<u8>, listing: Seq<DirectoryEntry>, sort: Sort)
    ensures
        forall|i: int|
            0 <= i < listing.len() && is_plain_name((#[trigger] listing[i]).name@)
                && listing[i].regular && supported_path(joined(directory, listing[i].name@))
                ==> shows_entry(listed_items(directory, listing, sort), directory, listing[i], sort),
        forall|k: int|
            0 <= k < listed_items(directory, listing, sort).len() ==> comes_from(
                #[trigger] listed_items(directory, listing, sort)[k],
                directory,
                listing,
                sort,
            ),
        listed_items(directory, listing, sort).len() <= listing.len(),
    decreases listing.len(),
{
    if listing.len() > 0 {
        let fewer = listing.drop_last();
        let last = listing.last();
        folders_show_their_media(directory, fewer, sort);
        let all = listed_items(directory, listing, sort);
        let before = listed_items(directory, fewer, sort);
        assert forall|i: int|
            0 <= i < listing.len() && is_plain_name((#[trigger] listing[i]).name@)
                && listing[i].regular && supported_path(
                joined(directory, listing[i].name@),
            ) implies shows_entry(all, directory, listing[i], sort) by {
            if i < fewer.len() {
                assert(fewer[i] == listing[i]);
                assert(shows_entry(before, directory, fewer[i], sort));
                let k = choose|k: int|
                    0 <= k < before.len() && (#[trigger] before[k]).path == joined(
                        directory,
                        fewer[i].name@,
                    ) && (sort.order == SortOrder::Date ==> before[k].modified
                        == fewer[i].modified);
                assert(all[k] == before[k]);
            } else {
                assert(all[all.len() - 1].path == joined(directory, last.name@));
            }
        }
        assert forall|k: int| 0 <= k < all.len() implies comes_from(
            #[trigger] all[k],
            directory,
            listing,
            sort,
        ) by {
            if k < before.len() {
                assert(all[k] == before[k]);
                assert(comes_from(before[k], directory, fewer, sort));
                let i = choose|i: int|
                    0 <= i < fewer.len() && (#[trigger] fewer[i]).regular && is_plain_name(
                        fewer[i].name@,
                    ) && supported_path(joined(directory, fewer[i].name@)) && before[k].path
                        == joined(directory, fewer[i].name@) && (sort.order == SortOrder::Date
                        ==> before[k].modified == fewer[i].modified);
                assert(listing[i] == fewer[i]);
            } else {
                assert(listing[listing.len() - 1].regular);
            }
        }
    }
}

/// Whether a listed entry is among the items, under its path and by date with its time.
pub open spec fn shows_entry(
    items: Seq<Item>,
    directory: Seq<u8>,
    entry: DirectoryEntry,
    sort: Sort,
) -> bool {
    exists|k: int|
        0 <= k < items.len() && (#[trigger] items[k]).path == joined(directory, entry.name@) && (
        sort.order == SortOrder::Date ==> items[k].modified == entry.modified)
}

/// Whether an item is a regular file of a known kind that is listed.
pub open spec fn comes_from(
    item: Item,
    directory: Seq<u8>,
    listing: Seq<DirectoryEntry>,
    sort: Sort,
) -> bool {
    exists|i: int|
        0 <= i < listing.len() && (#[trigger] listing[i]).regular && is_plain_name(listing[i].name@)
            && supported_path(joined(directory, listing[i].name@)) && item.path == joined(
            directory,
            listing[i].name@,
        ) && (sort.order == SortOrder::Date ==> item.modified == listing[i].modified)
}

/// The files of a sorted folder are those that went into it, each as often as it did.
pub proof fn sorting_keeps_every_file(input: Seq<Item>, output: Seq<Item>, sort: Sort, from: Seq<int>)
    requires
        is_stable_sort(input, output, sort, from),
    ensures
        output.len() == input.len(),
        forall|i: int|
            0 <= i < output.len() ==> input.contains(#[trigger] output[i]),
        forall|i: int, j: int|
            0 <= i < j < output.len() ==> placed(#[trigger] output[i], #[trigger] output[j], sort)
                <= 0,
        forall|i: int, j: int|
            0 <= i < j < from.len() ==> #[trigger] from[i] != #[trigger] from[j],
{
    assert forall|i: int| 0 <= i < output.len() implies input.contains(#[trigger] output[i]) by {
        assert(0 <= from[i] < input.len() && output[i] == input[from[i]]);
    }
    assert forall|i: int, j: int| 0 <= i < j < output.len() implies placed(
        #[trigger] output[i],
        #[trigger] output[j],
        sort,
    ) <= 0 by {
        assert(comes_before(input, sort, from[i], from[j]));
        assert(output[i] == input[from[i]] && output[j] == input[from[j]]);
    }
    assert forall|i: int, j: int| 0 <= i < j < from.len() implies #[trigger] from[i]
        != #[trigger] from[j] by {
        assert(comes_before(input, sort, from[i], from[j]));
        placed_is_antisymmetric(input[from[i]], input[from[i]], sort);
    }
}

/// Numbers go up by one.
pub proof fn numbers_go_up(number: u64)
    ensures
        number < u64::MAX ==> following(number) == number + 1,
        following(number) != number,
{
}

}
