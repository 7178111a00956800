//! A small map from texts to values, kept in dictionary order of its keys.
use vstd::prelude::*;

use crate::natural::{code_points, lexical, lexical_equal, lexical_swapped, lexical_transitive, order_chars};
use crate::text::chars_of;

verus! {

pub struct KeyMap<V> {
    entries: Vec<(String, V)>,
}

/// Whether one text comes before another in dictionary order.
pub open spec fn text_before(left: Seq<char>, right: Seq<char>) -> bool {
    lexical(code_points(left), code_points(right)) < 0
}

fn text_order(left: &str, right: &str) -> (result: i8)
    ensures
        result as int == lexical(code_points(left@), code_points(right@)),
        result == 0 <==> left@ == right@,
{
    let l = chars_of(left);
    let r = chars_of(right);
    let sign = order_chars(l.as_slice(), r.as_slice());
    proof {
        texts_equal(left@, right@);
    }
    sign
}

proof fn texts_equal(left: Seq<char>, right: Seq<char>)
    ensures
        lexical(code_points(left), code_points(right)) == 0 <==> left == right,
{
    lexical_equal(code_points(left), code_points(right));
    if code_points(left) == code_points(right) {
        assert(left.len() == code_points(left).len());
        assert forall|i: int| 0 <= i < left.len() implies left[i] == right[i] by {
            assert(code_points(left)[i] == code_points(right)[i]);
        }
        assert(left =~= right);
    }
}

impl<V> KeyMap<V> {
    /// The keys in the order in which they are kept.
    pub closed spec fn keys(self) -> Seq<Seq<char>> {
        Seq::new(self.entries@.len(), |i: int| self.entries@[i].0@)
    }

    /// The values in the order of their keys.
    pub closed spec fn values(self) -> Seq<V> {
        Seq::new(self.entries@.len(), |i: int| self.entries@[i].1)
    }

    /// Keys stand in strict dictionary order, so none occurs twice.
    pub open spec fn wf(self) -> bool {
        &&& self.keys().len() == self.values().len()
        &&& forall|i: int, j: int|
            0 <= i < j < self.keys().len() ==> #[trigger] text_before(
                self.keys()[i],
                self.keys()[j],
            )
    }

    /// The map from keys to values.
    pub open spec fn view(self) -> Map<Seq<char>, V> {
        Map::new(
            |key: Seq<char>| self.keys().contains(key),
            |key: Seq<char>| self.values()[self.keys().index_of(key)],
        )
    }

    /// In a well-formed map the key at a position maps to the value there.
    pub proof fn entry_at(self, at: int)
        requires
            self.wf(),
            0 <= at < self.keys().len(),
        ensures
            self@.dom().contains(self.keys()[at]),
            self@[self.keys()[at]] == self.values()[at],
    {
        let key = self.keys()[at];
        assert(self.keys().contains(key));
        let found = self.keys().index_of(key);
        assert(self.keys()[found] == key);
        if found < at {
            assert(text_before(self.keys()[found], self.keys()[at]));
            texts_equal(key, key);
        } else if at < found {
            assert(text_before(self.keys()[at], self.keys()[found]));
            texts_equal(key, key);
        }
    }

    /// No key occurs at two positions.
    pub proof fn distinct_keys(self, left: int, right: int)
        requires
            self.wf(),
            0 <= left < right < self.keys().len(),
        ensures
            self.keys()[left] != self.keys()[right],
    {
        assert(text_before(self.keys()[left], self.keys()[right]));
        texts_equal(self.keys()[left], self.keys()[right]);
    }

    pub fn new() -> (result: Self)
        ensures
            result.wf(),
            result@ == Map::<Seq<char>, V>::empty(),
            result.keys().len() == 0,
    {
        let result = KeyMap { entries: Vec::new() };
        assert(result.keys().len() == 0);
        assert(result@ =~= Map::<Seq<char>, V>::empty());
        result
    }

    pub fn len(&self) -> (result: usize)
        ensures
            result == self.keys().len(),
    {
        self.entries.len()
    }

    pub fn is_empty(&self) -> (result: bool)
        requires
            self.wf(),
        ensures
            result == (self@ == Map::<Seq<char>, V>::empty()),
    {
        let result = self.entries.len() == 0;
        proof {
            if result {
                assert(self@ =~= Map::<Seq<char>, V>::empty());
            } else {
                self.entry_at(0);
                assert(!Map::<Seq<char>, V>::empty().dom().contains(self.keys()[0]));
            }
        }
        result
    }

    pub fn key_at(&self, at: usize) -> (result: &str)
        requires
            at < self.keys().len(),
        ensures
            result@ == self.keys()[at as int],
    {
        self.entries[at].0.as_str()
    }

    pub fn value_at(&self, at: usize) -> (result: &V)
        requires
            at < self.keys().len(),
        ensures
            *result == self.values()[at as int],
    {
        &self.entries[at].1
    }

    /// Where a key is, or where it would be inserted.
    fn search(&self, key: &str) -> (result: (bool, usize))
        requires
            self.wf(),
        ensures
            result.1 <= self.keys().len(),
            result.0 ==> result.1 < self.keys().len() && self.keys()[result.1 as int] == key@,
            !result.0 ==> !self.keys().contains(key@) && (forall|i: int|
                0 <= i < result.1 ==> text_before(#[trigger] self.keys()[i], key@)) && (forall|
                i: int,
            |
                result.1 <= i < self.keys().len() ==> text_before(key@, #[trigger] self.keys()[i])),
    {
        let mut low: usize = 0;
        let mut high: usize = self.entries.len();
        while low < high
            invariant
                low <= high <= self.keys().len(),
                self.keys().len() == self.entries@.len(),
                self.wf(),
                forall|i: int| 0 <= i < low ==> text_before(#[trigger] self.keys()[i], key@),
                forall|i: int|
                    high <= i < self.keys().len() ==> text_before(key@, #[trigger] self.keys()[i]),
            decreases high - low,
        {
            let middle: usize = low + (high - low) / 2;
            let sign = text_order(self.entries[middle].0.as_str(), key);
            assert(self.keys()[middle as int] == self.entries@[middle as int].0@);
            if sign == 0 {
                return (true, middle);
            }
            if sign < 0 {
                assert forall|i: int| 0 <= i < middle + 1 implies text_before(
                    #[trigger] self.keys()[i],
                    key@,
                ) by {
                    if i < middle {
                        assert(text_before(self.keys()[i], self.keys()[middle as int]));
                        lexical_transitive(
                            code_points(self.keys()[i]),
                            code_points(self.keys()[middle as int]),
                            code_points(key@),
                        );
                    }
                }
                low = middle + 1;
            } else {
                proof {
                    lexical_swapped(code_points(self.keys()[middle as int]), code_points(key@));
                }
                assert forall|i: int| middle <= i < self.keys().len() implies text_before(
                    key@,
                    #[trigger] self.keys()[i],
                ) by {
                    if middle < i {
                        assert(text_before(self.keys()[middle as int], self.keys()[i]));
                        lexical_transitive(
                            code_points(key@),
                            code_points(self.keys()[middle as int]),
                            code_points(self.keys()[i]),
                        );
                    }
                }
                high = middle;
            }
        }
        proof {
            if self.keys().contains(key@) {
                let i = self.keys().index_of(key@);
                texts_equal(key@, key@);
                assert(self.keys()[i] == key@);
            }
        }
        (false, low)
    }

    /// The value of a key.
    pub fn get(&self, key: &str) -> (result: Option<&V>)
        requires
            self.wf(),
        ensures
            match result {
                Some(value) => self@.dom().contains(key@) && self@[key@] == *value,
                None => !self@.dom().contains(key@),
            },
    {
        let (found, at) = self.search(key);
        if found {
            proof {
                self.entry_at(at as int);
            }
            Some(&self.entries[at].1)
        } else {
            None
        }
    }

    /// Sets the value of a key, replacing the one it had.
    pub fn insert(&mut self, key: String, value: V)
        requires
            old(self).wf(),
        ensures
            final(self).wf(),
            final(self)@ == old(self)@.insert(key@, value),
    {
        let ghost before = *self;
        let ghost name = key@;
        let (found, at) = self.search(key.as_str());
        if found {
            self.entries.set(at, (key, value));
            assert(self.keys() =~= before.keys());
            assert(self.values() =~= before.values().update(at as int, value));
        } else {
            self.entries.insert(at, (key, value));
            assert(self.keys() =~= before.keys().insert(at as int, name));
            assert(self.values() =~= before.values().insert(at as int, value));
            assert forall|i: int, j: int|
                0 <= i < j < self.keys().len() implies #[trigger] text_before(
                self.keys()[i],
                self.keys()[j],
            ) by {
                let a = if i < at { i } else { i - 1 };
                let b = if j < at { j } else { j - 1 };
                if i != at {
                    assert(self.keys()[i] == before.keys()[a]);
                }
                if j != at {
                    assert(self.keys()[j] == before.keys()[b]);
                }
                if i != at && j != at {
                    assert(text_before(before.keys()[a], before.keys()[b]));
                }
            }
        }
        proof {
            self.entry_at(at as int);
            let after = *self;
            assert forall|other: Seq<char>| #[trigger]
                after@.dom().contains(other) <==> before@.insert(name, value).dom().contains(
                    other,
                ) by {
                if after.keys().contains(other) {
                    let i = after.keys().index_of(other);
                    assert(after.keys()[i] == other);
                    if other != name {
                        let k = if found || i < at { i } else { i - 1 };
                        assert(before.keys()[k] == other);
                        assert(before.keys().contains(other));
                    }
                }
                if before.keys().contains(other) {
                    let i = before.keys().index_of(other);
                    let k = if found || i < at { i } else { i + 1 };
                    assert(after.keys()[k] == other);
                    assert(after.keys().contains(other));
                }
            }
            assert forall|other: Seq<char>| #[trigger]
                after@.dom().contains(other) implies after@[other] == before@.insert(
                name,
                value,
            )[other] by {
                let i = after.keys().index_of(other);
                assert(after.keys()[i] == other);
                after.entry_at(i);
                if other != name {
                    let k = if found || i < at { i } else { i - 1 };
                    assert(before.keys()[k] == other);
                    before.entry_at(k);
                }
            }
            assert(after@ =~= before@.insert(name, value));
        }
    }

    /// Takes a key away.
    pub fn remove(&mut self, key: &str)
        requires
            old(self).wf(),
        ensures
            final(self).wf(),
            final(self)@ == old(self)@.remove(key@),
    {
        let ghost before = *self;
        let (found, at) = self.search(key);
        if !found {
            assert(!before@.dom().contains(key@));
            assert(before@ =~= before@.remove(key@));
            return ;
        }
        self.entries.remove(at);
        proof {
            let after = *self;
            assert(after.keys() =~= before.keys().remove(at as int));
            assert(after.values() =~= before.values().remove(at as int));
            assert forall|i: int, j: int| 0 <= i < j < after.keys().len() implies #[trigger] text_before(
                after.keys()[i],
                after.keys()[j],
            ) by {
                let a = if i < at { i } else { i + 1 };
                let b = if j < at { j } else { j + 1 };
                assert(text_before(before.keys()[a], before.keys()[b]));
            }
            before.entry_at(at as int);
            assert forall|other: Seq<char>| #[trigger]
                after@.dom().contains(other) <==> before@.remove(key@).dom().contains(other) by {
                if after.keys().contains(other) {
                    let i = after.keys().index_of(other);
                    assert(after.keys()[i] == other);
                    let k = if i < at { i } else { i + 1 };
                    assert(before.keys()[k] == other);
                    assert(before.keys().contains(other));
                    texts_equal(other, other);
                    if k < at {
                        assert(text_before(before.keys()[k], before.keys()[at as int]));
                    } else {
                        assert(text_before(before.keys()[at as int], before.keys()[k]));
                    }
                }
                if before.keys().contains(other) && other != key@ {
                    let i = before.keys().index_of(other);
                    let k = if i < at { i } else { i - 1 };
                    assert(after.keys()[k] == other);
                    assert(after.keys().contains(other));
                }
            }
            assert forall|other: Seq<char>| #[trigger]
                after@.dom().contains(other) implies after@[other] == before@.remove(key@)[other] by {
                let i = after.keys().index_of(other);
                assert(after.keys()[i] == other);
                after.entry_at(i);
                let k = if i < at { i } else { i + 1 };
                assert(before.keys()[k] == other);
                before.entry_at(k);
            }
            assert(after@ =~= before@.remove(key@));
        }
    }
}

/// Keys stand in dictionary order: the first difference between two decides, and a key
/// comes before those that go on from it.
pub proof fn keys_stand_in_dictionary_order(
    common: Seq<char>,
    smaller: char,
    larger: char,
    left: Seq<char>,
    right: Seq<char>,
)
    requires
        (smaller as int) < larger as int,
    ensures
        text_before(common + seq![smaller] + left, common + seq![larger] + right),
        !text_before(common + seq![larger] + right, common + seq![smaller] + left),
        text_before(common, common + seq![larger] + right),
        !text_before(common, common),
{
    crate::natural::the_first_difference_decides(
        code_points(common),
        smaller as int,
        larger as int,
        code_points(left),
        code_points(right),
    );
    assert(code_points(common + seq![smaller] + left) =~= code_points(common)
        + seq![smaller as int] + code_points(left));
    assert(code_points(common + seq![larger] + right) =~= code_points(common)
        + seq![larger as int] + code_points(right));
}

}
