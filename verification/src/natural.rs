//! Natural, case-insensitive ordering of names: `img2` comes before `img10`.
use core::cmp::Ordering;
use vstd::prelude::*;

use crate::text::chars_of;

verus! {

/// The lower case of a character: what the characters of `char::to_lowercase`
/// spell, as a string.
pub uninterp spec fn lowercase_of(c: char) -> Seq<char>;

/// `char::to_lowercase` maps a character to the characters of its lower case,
/// which depend on the character alone. The mapping is that of the Unicode
/// character database and is left unsaid here.
#[verifier::external_body]
fn lowercase_text(c: char) -> (result: String)
    ensures
        result@ == lowercase_of(c),
{
    c.to_lowercase().to_string()
}

pub open spec fn is_digit(c: char) -> bool {
    '0' <= c && c <= '9'
}

/// The character that stands for `c` in comparisons: the first of its lower
/// case. Digits stand for themselves, and nothing else stands for a digit.
pub open spec fn folded(c: char) -> char {
    if (c as int) < 128 {
        if 'A' <= c && c <= 'Z' {
            (c as int + 32) as char
        } else {
            c
        }
    } else {
        let lower = lowercase_of(c);
        if lower.len() == 0 || is_digit(lower[0]) {
            c
        } else {
            lower[0]
        }
    }
}

/// How many digits a name starts with.
pub open spec fn digit_run(name: Seq<char>) -> int
    decreases name.len(),
{
    if name.len() == 0 || !is_digit(name[0]) {
        0
    } else {
        1 + digit_run(name.skip(1))
    }
}

/// The number that a run of digits spells.
pub open spec fn decimal(digits: Seq<char>) -> int
    decreases digits.len(),
{
    if digits.len() == 0 {
        0
    } else {
        decimal(digits.drop_last()) * 10 + (digits.last() as int - '0' as int)
    }
}

pub open spec fn capped(value: int) -> int {
    if value > u128::MAX {
        u128::MAX as int
    } else {
        value
    }
}

/// The sequence of numbers by which a name is placed. A run of digits counts
/// as one number, every other character by itself without regard to case.
pub open spec fn natural_key(name: Seq<char>) -> Seq<int>
    decreases name.len(),
    via natural_key_shrinks
{
    if name.len() == 0 {
        Seq::empty()
    } else if is_digit(name[0]) {
        let run = digit_run(name);
        seq!['0' as int, capped(decimal(name.take(run)))] + natural_key(name.skip(run))
    } else {
        seq![folded(name[0]) as int, 0] + natural_key(name.skip(1))
    }
}

#[via_fn]
proof fn natural_key_shrinks(name: Seq<char>) {
    digit_run_bounds(name);
}

proof fn digit_run_bounds(name: Seq<char>)
    ensures
        0 <= digit_run(name) <= name.len(),
        name.len() > 0 && is_digit(name[0]) ==> digit_run(name) > 0,
        forall|i: int| 0 <= i < digit_run(name) ==> is_digit(#[trigger] name[i]),
        digit_run(name) < name.len() ==> !is_digit(name[digit_run(name)]),
    decreases name.len(),
{
    if name.len() > 0 && is_digit(name[0]) {
        let rest = name.skip(1);
        digit_run_bounds(rest);
        assert forall|i: int| 0 <= i < digit_run(name) implies is_digit(#[trigger] name[i]) by {
            if i > 0 {
                assert(rest[i - 1] == name[i]);
            }
        }
        if digit_run(name) < name.len() {
            assert(rest[digit_run(rest)] == name[digit_run(name)]);
        }
    }
}

proof fn digit_run_unique(name: Seq<char>, run: int)
    requires
        0 <= run <= name.len(),
        forall|i: int| 0 <= i < run ==> is_digit(#[trigger] name[i]),
        run < name.len() ==> !is_digit(name[run]),
    ensures
        digit_run(name) == run,
{
    digit_run_bounds(name);
    let found = digit_run(name);
    if found < run {
        assert(is_digit(name[found]));
    }
}

/// Dictionary order: negative, zero or positive as `left` comes before, is the
/// same as or comes after `right`.
pub open spec fn lexical(left: Seq<int>, right: Seq<int>) -> int
    decreases left.len(),
{
    if left.len() == 0 && right.len() == 0 {
        0
    } else if left.len() == 0 {
        -1
    } else if right.len() == 0 {
        1
    } else if left[0] < right[0] {
        -1
    } else if left[0] > right[0] {
        1
    } else {
        lexical(left.skip(1), right.skip(1))
    }
}

/// The code points of a text.
pub open spec fn code_points(text: Seq<char>) -> Seq<int> {
    Seq::new(text.len(), |i: int| text[i] as int)
}

/// The natural order of two names; names that read alike are told apart by
/// their code points.
pub open spec fn natural(left: Seq<char>, right: Seq<char>) -> int {
    let by_key = lexical(natural_key(left), natural_key(right));
    if by_key != 0 {
        by_key
    } else {
        lexical(code_points(left), code_points(right))
    }
}

/// Only equal sequences have one place in the lexical order.
pub proof fn lexical_equal(left: Seq<int>, right: Seq<int>)
    ensures
        lexical(left, right) == 0 <==> left == right,
        -1 <= lexical(left, right) <= 1,
    decreases left.len(),
{
    if left.len() > 0 && right.len() > 0 && left[0] == right[0] {
        lexical_equal(left.skip(1), right.skip(1));
        if left.skip(1) == right.skip(1) {
            assert forall|i: int| 0 <= i < left.len() implies left[i] == right[i] by {
                if i > 0 {
                    assert(left[i] == left.skip(1)[i - 1]);
                    assert(right[i] == right.skip(1)[i - 1]);
                }
            }
            assert(left.len() == left.skip(1).len() + 1);
            assert(right.len() == right.skip(1).len() + 1);
            assert(left =~= right);
        }
    } else if left.len() == 0 && right.len() == 0 {
        assert(left =~= right);
    }
}

/// Swapping two sequences swaps the outcome.
pub proof fn lexical_swapped(left: Seq<int>, right: Seq<int>)
    ensures
        lexical(left, right) == -lexical(right, left),
    decreases left.len(),
{
    if left.len() > 0 && right.len() > 0 {
        lexical_swapped(left.skip(1), right.skip(1));
    }
}

/// The lexical order is transitive.
pub proof fn lexical_transitive(first: Seq<int>, second: Seq<int>, third: Seq<int>)
    requires
        lexical(first, second) <= 0,
        lexical(second, third) <= 0,
    ensures
        lexical(first, third) <= 0,
        lexical(first, second) < 0 || lexical(second, third) < 0 ==> lexical(first, third) < 0,
    decreases first.len(),
{
    if first.len() > 0 && second.len() > 0 && third.len() > 0 && first[0] == second[0]
        && second[0] == third[0] {
        lexical_transitive(first.skip(1), second.skip(1), third.skip(1));
    }
}

/// The natural order is total: two names are equal only when they are the same,
/// and swapping them swaps the outcome.
pub proof fn natural_is_antisymmetric(left: Seq<char>, right: Seq<char>)
    ensures
        natural(left, right) == -natural(right, left),
        natural(left, right) == 0 <==> left == right,
        -1 <= natural(left, right) <= 1,
{
    lexical_swapped(natural_key(left), natural_key(right));
    lexical_swapped(code_points(left), code_points(right));
    lexical_equal(natural_key(left), natural_key(right));
    lexical_equal(code_points(left), code_points(right));
    if code_points(left) == code_points(right) {
        assert(left.len() == code_points(left).len());
        assert forall|i: int| 0 <= i < left.len() implies left[i] == right[i] by {
            assert(code_points(left)[i] == code_points(right)[i]);
        }
        assert(left =~= right);
    }
}

/// The natural order is transitive.
pub proof fn natural_is_transitive(first: Seq<char>, second: Seq<char>, third: Seq<char>)
    requires
        natural(first, second) <= 0,
        natural(second, third) <= 0,
    ensures
        natural(first, third) <= 0,
        natural(first, second) < 0 || natural(second, third) < 0 ==> natural(first, third) < 0,
{
    let (a, b, c) = (natural_key(first), natural_key(second), natural_key(third));
    lexical_transitive(a, b, c);
    lexical_equal(a, b);
    lexical_equal(b, c);
    if a == b && b == c {
        lexical_transitive(code_points(first), code_points(second), code_points(third));
    }
}

/// Whether two texts read alike without regard to case.
pub open spec fn alike(left: Seq<char>, right: Seq<char>) -> bool {
    &&& left.len() == right.len()
    &&& forall|i: int| 0 <= i < left.len() ==> folded(#[trigger] left[i]) == folded(right[i])
}

/// Texts that read alike have one key.
proof fn alike_have_one_key(left: Seq<char>, right: Seq<char>)
    requires
        alike(left, right),
    ensures
        natural_key(left) == natural_key(right),
    decreases left.len(),
{
    if left.len() > 0 {
        assert(folded(left[0]) == folded(right[0]));
        if is_digit(left[0]) {
            let run = digit_run(left);
            digit_run_bounds(left);
            assert forall|i: int| 0 <= i < run implies is_digit(#[trigger] right[i]) && right[i]
                == left[i] by {
                assert(is_digit(left[i]));
                assert(folded(left[i]) == folded(right[i]));
            }
            if run < right.len() {
                assert(folded(left[run]) == folded(right[run]));
            }
            digit_run_unique(right, run);
            assert(left.take(run) =~= right.take(run));
            assert forall|i: int| 0 <= i < left.skip(run).len() implies folded(
                #[trigger] left.skip(run)[i],
            ) == folded(right.skip(run)[i]) by {
                assert(folded(left[i + run]) == folded(right[i + run]));
            }
            alike_have_one_key(left.skip(run), right.skip(run));
        } else {
            assert forall|i: int| 0 <= i < left.skip(1).len() implies folded(
                #[trigger] left.skip(1)[i],
            ) == folded(right.skip(1)[i]) by {
                assert(folded(left[i + 1]) == folded(right[i + 1]));
            }
            alike_have_one_key(left.skip(1), right.skip(1));
        }
    }
}

/// The order disregards case: names that read alike have the same place among all other
/// names, and only which of the two comes first rests on their case.
pub proof fn case_is_disregarded(left: Seq<char>, right: Seq<char>, other: Seq<char>)
    requires
        alike(left, right),
    ensures
        natural(left, right) == lexical(code_points(left), code_points(right)),
        natural_key(other) != natural_key(left) ==> natural(left, other) == natural(right, other),
{
    alike_have_one_key(left, right);
    lexical_equal(natural_key(left), natural_key(right));
    lexical_equal(natural_key(left), natural_key(other));
}

/// Names that differ only in a number are placed by that number's value, whatever the
/// case of what stands before it: a smaller number (below the largest that is told
/// apart) comes first.
pub proof fn smaller_number_comes_first(
    small_stem: Seq<char>,
    large_stem: Seq<char>,
    small: Seq<char>,
    large: Seq<char>,
    small_rest: Seq<char>,
    large_rest: Seq<char>,
)
    requires
        forall|i: int| 0 <= i < small.len() ==> is_digit(#[trigger] small[i]),
        forall|i: int| 0 <= i < large.len() ==> is_digit(#[trigger] large[i]),
        small.len() > 0,
        large.len() > 0,
        decimal(small) < decimal(large),
        decimal(small) < u128::MAX,
        alike(small_stem, large_stem),
        small_stem.len() > 0 ==> !is_digit(small_stem.last()),
        small_rest.len() > 0 ==> !is_digit(small_rest[0]),
        large_rest.len() > 0 ==> !is_digit(large_rest[0]),
    ensures
        natural(small_stem + small + small_rest, large_stem + large + large_rest) < 0,
{
    if small_stem.len() > 0 {
        assert(folded(small_stem[small_stem.len() - 1]) == folded(large_stem[small_stem.len() - 1]));
    }
    alike_have_one_key(small_stem, large_stem);
    key_splits(small_stem, small + small_rest);
    key_splits(large_stem, large + large_rest);
    lexical_shared(
        natural_key(small_stem),
        natural_key(small + small_rest),
        natural_key(large + large_rest),
    );
    keys_differ(small, small_rest, large, large_rest);
    assert(small_stem + (small + small_rest) == small_stem + small + small_rest);
    assert(large_stem + (large + large_rest) == large_stem + large + large_rest);
}

proof fn keys_differ(
    small: Seq<char>,
    small_rest: Seq<char>,
    large: Seq<char>,
    large_rest: Seq<char>,
)
    requires
        forall|i: int| 0 <= i < small.len() ==> is_digit(#[trigger] small[i]),
        forall|i: int| 0 <= i < large.len() ==> is_digit(#[trigger] large[i]),
        small.len() > 0,
        large.len() > 0,
        decimal(small) < decimal(large),
        decimal(small) < u128::MAX,
        small_rest.len() > 0 ==> !is_digit(small_rest[0]),
        large_rest.len() > 0 ==> !is_digit(large_rest[0]),
    ensures
        lexical(natural_key(small + small_rest), natural_key(large + large_rest)) < 0,
{
    let left = small + small_rest;
    let right = large + large_rest;
    assert forall|i: int| 0 <= i < small.len() implies is_digit(#[trigger] left[i]) by {
        assert(left[i] == small[i]);
    }
    assert forall|i: int| 0 <= i < large.len() implies is_digit(#[trigger] right[i]) by {
        assert(right[i] == large[i]);
    }
    digit_run_unique(left, small.len() as int);
    digit_run_unique(right, large.len() as int);
    assert(left.take(small.len() as int) == small);
    assert(right.take(large.len() as int) == large);
    let l = natural_key(left);
    let r = natural_key(right);
    assert(l.skip(1)[0] == capped(decimal(small)));
    assert(r.skip(1)[0] == capped(decimal(large)));
    assert(lexical(l, r) == lexical(l.skip(1), r.skip(1)));
}

/// The key of a text whose head ends in no digit is that of the head, then that of the rest.
proof fn key_splits(head: Seq<char>, rest: Seq<char>)
    requires
        head.len() > 0 ==> !is_digit(head.last()),
    ensures
        natural_key(head + rest) == natural_key(head) + natural_key(rest),
    decreases head.len(),
{
    let whole = head + rest;
    if head.len() == 0 {
        assert(whole == rest);
        assert(natural_key(head) + natural_key(rest) == natural_key(rest));
    } else if is_digit(head[0]) {
        let run = digit_run(head);
        digit_run_bounds(head);
        assert(run < head.len());
        assert forall|i: int| 0 <= i < run implies is_digit(#[trigger] whole[i]) by {
            assert(whole[i] == head[i]);
        }
        digit_run_unique(whole, run);
        assert(whole.take(run) == head.take(run));
        assert(whole.skip(run) == head.skip(run) + rest);
        key_splits(head.skip(run), rest);
        assert(natural_key(whole) =~= natural_key(head) + natural_key(rest));
    } else {
        assert(whole.skip(1) == head.skip(1) + rest);
        if head.len() > 1 {
            assert(head.skip(1).last() == head.last());
        }
        key_splits(head.skip(1), rest);
        assert(natural_key(whole) =~= natural_key(head) + natural_key(rest));
    }
}

proof fn lexical_shared(head: Seq<int>, left: Seq<int>, right: Seq<int>)
    ensures
        lexical(head + left, head + right) == lexical(left, right),
    decreases head.len(),
{
    if head.len() == 0 {
        assert(head + left == left);
        assert(head + right == right);
    } else {
        assert((head + left).skip(1) == head.skip(1) + left);
        assert((head + right).skip(1) == head.skip(1) + right);
        lexical_shared(head.skip(1), left, right);
    }
}

fn fold_char(c: char) -> (result: char)
    ensures
        result == folded(c),
{
    if (c as u32) < 128 {
        if 'A' <= c && c <= 'Z' {
            ((c as u8) + 32) as char
        } else {
            c
        }
    } else {
        let lower = chars_of(lowercase_text(c).as_str());
        if lower.len() == 0 || ('0' <= lower[0] && lower[0] <= '9') {
            c
        } else {
            lower[0]
        }
    }
}

/// Reads a run of digits from a position: its value, at most the largest `u128`,
/// and where it ends. Leading zeros do not change the value.
fn take_number(chars: &[char], start: usize) -> (result: (u128, usize))
    requires
        start <= chars@.len(),
    ensures
        start <= result.1 <= chars@.len(),
        result.1 - start == digit_run(chars@.skip(start as int)),
        result.0 as int == capped(decimal(chars@.subrange(start as int, result.1 as int))),
{
    let ghost rest = chars@.skip(start as int);
    let mut number: u128 = 0;
    let mut at: usize = start;
    assert(chars@.subrange(start as int, at as int).len() == 0);
    while at < chars.len() && '0' <= chars[at] && chars[at] <= '9'
        invariant
            start <= at <= chars@.len(),
            rest == chars@.skip(start as int),
            forall|i: int| 0 <= i < at - start ==> is_digit(#[trigger] rest[i]),
            number as int == capped(decimal(chars@.subrange(start as int, at as int))),
            decimal(chars@.subrange(start as int, at as int)) >= 0,
        decreases chars@.len() - at,
    {
        let digit: u128 = (chars[at] as u32 - 48) as u128;
        proof {
            let longer = chars@.subrange(start as int, at + 1);
            assert(longer.drop_last() == chars@.subrange(start as int, at as int));
            assert(longer.last() == chars@[at as int]);
            assert(rest[at - start] == chars@[at as int]);
        }
        number = if number > (u128::MAX - digit) / 10 {
            u128::MAX
        } else {
            number * 10 + digit
        };
        at = at + 1;
    }
    proof {
        if at < chars@.len() {
            assert(rest[at - start] == chars@[at as int]);
        }
        digit_run_unique(rest, at - start);
    }
    (number, at)
}

/// The numbers of a key as mathematical integers.
spec fn numbers(key: Seq<u128>) -> Seq<int> {
    Seq::new(key.len(), |i: int| key[i] as int)
}

fn key_of(chars: &[char]) -> (result: Vec<u128>)
    ensures
        numbers(result@) == natural_key(chars@),
{
    let mut key: Vec<u128> = Vec::new();
    let mut at: usize = 0;
    assert(chars@.skip(0) == chars@);
    assert(numbers(key@) + natural_key(chars@) =~= natural_key(chars@));
    while at < chars.len()
        invariant
            at <= chars@.len(),
            numbers(key@) + natural_key(chars@.skip(at as int)) == natural_key(chars@),
        decreases chars@.len() - at,
    {
        let ghost before = numbers(key@);
        let ghost rest = chars@.skip(at as int);
        if '0' <= chars[at] && chars[at] <= '9' {
            let (number, end) = take_number(chars, at);
            proof {
                digit_run_bounds(rest);
                assert(rest.take(digit_run(rest)) == chars@.subrange(at as int, end as int));
                assert(rest.skip(digit_run(rest)) == chars@.skip(end as int));
            }
            key.push(48);
            key.push(number);
            assert(numbers(key@) =~= before + seq!['0' as int, number as int]);
            at = end;
        } else {
            let c = fold_char(chars[at]);
            assert(rest.skip(1) == chars@.skip(at + 1));
            key.push((c as u32) as u128);
            key.push(0);
            assert(numbers(key@) =~= before + seq![c as int, 0]);
            at = at + 1;
        }
        assert(numbers(key@) + natural_key(chars@.skip(at as int)) =~= natural_key(chars@));
    }
    assert(chars@.skip(at as int).len() == 0);
    assert(numbers(key@) + natural_key(chars@.skip(at as int)) =~= numbers(key@));
    key
}

fn order_keys(left: &Vec<u128>, right: &Vec<u128>) -> (result: i8)
    ensures
        result as int == lexical(numbers(left@), numbers(right@)),
{
    let ghost l = numbers(left@);
    let ghost r = numbers(right@);
    let mut i: usize = 0;
    assert(l.skip(0) == l && r.skip(0) == r);
    while i < left.len() && i < right.len()
        invariant
            i <= left@.len(),
            i <= right@.len(),
            l == numbers(left@),
            r == numbers(right@),
            lexical(l, r) == lexical(l.skip(i as int), r.skip(i as int)),
        decreases left@.len() - i,
    {
        if left[i] < right[i] {
            return -1;
        }
        if left[i] > right[i] {
            return 1;
        }
        assert(l.skip(i as int).skip(1) == l.skip(i + 1));
        assert(r.skip(i as int).skip(1) == r.skip(i + 1));
        i = i + 1;
    }
    if i < left.len() {
        1
    } else if i < right.len() {
        -1
    } else {
        0
    }
}

/// The dictionary order of two character runs as a sign.
pub fn order_chars(left: &[char], right: &[char]) -> (result: i8)
    ensures
        result as int == lexical(code_points(left@), code_points(right@)),
{
    let ghost l = code_points(left@);
    let ghost r = code_points(right@);
    let mut i: usize = 0;
    assert(l.skip(0) == l && r.skip(0) == r);
    while i < left.len() && i < right.len()
        invariant
            i <= left@.len(),
            i <= right@.len(),
            l == code_points(left@),
            r == code_points(right@),
            lexical(l, r) == lexical(l.skip(i as int), r.skip(i as int)),
        decreases left@.len() - i,
    {
        if left[i] < right[i] {
            return -1;
        }
        if left[i] > right[i] {
            return 1;
        }
        assert(l.skip(i as int).skip(1) == l.skip(i + 1));
        assert(r.skip(i as int).skip(1) == r.skip(i + 1));
        i = i + 1;
    }
    if i < left.len() {
        1
    } else if i < right.len() {
        -1
    } else {
        0
    }
}

/// The natural order of two names as a sign.
pub fn natural_sign(left: &str, right: &str) -> (result: i8)
    ensures
        result as int == natural(left@, right@),
{
    let l = chars_of(left);
    let r = chars_of(right);
    let by_key = order_keys(&key_of(l.as_slice()), &key_of(r.as_slice()));
    if by_key != 0 {
        by_key
    } else {
        order_chars(l.as_slice(), r.as_slice())
    }
}

/// Case-insensitive natural ordering: `img2` < `img10`.
pub fn natural_cmp(a: &str, b: &str) -> (result: Ordering)
    ensures
        match result {
            Ordering::Less => natural(a@, b@) < 0,
            Ordering::Equal => natural(a@, b@) == 0,
            Ordering::Greater => natural(a@, b@) > 0,
        },
{
    let sign: i8 = natural_sign(a, b);
    if sign < 0 {
        Ordering::Less
    } else if sign == 0 {
        Ordering::Equal
    } else {
        Ordering::Greater
    }
}

/// Capitals read as their small letters; small letters and digits as themselves.
pub proof fn capitals_read_as_small_letters(c: char)
    ensures
        'A' <= c && c <= 'Z' ==> folded(c) as int == c as int + 32,
        'a' <= c && c <= 'z' ==> folded(c) == c,
        is_digit(c) ==> folded(c) == c,
        '0' <= c && c <= '9' <==> is_digit(c),
        is_digit(folded(c)) ==> is_digit(c),
{
}

/// Names that agree up to a character are placed by it without regard to its case, and
/// where one is the start of the other, the shorter comes first.
pub proof fn letters_decide_in_turn(
    stem: Seq<char>,
    left: char,
    right: char,
    left_rest: Seq<char>,
    right_rest: Seq<char>,
)
    requires
        stem.len() > 0 ==> !is_digit(stem.last()),
        !is_digit(left),
        !is_digit(right),
    ensures
        (folded(left) as int) < (folded(right) as int) ==> natural(
            stem.push(left) + left_rest,
            stem.push(right) + right_rest,
        ) < 0,
        natural(stem, stem.push(right) + right_rest) < 0,
{
    let l = seq![left] + left_rest;
    let r = seq![right] + right_rest;
    assert(stem.push(left) + left_rest =~= stem + l);
    assert(stem.push(right) + right_rest =~= stem + r);
    key_splits(stem, l);
    key_splits(stem, r);
    lexical_shared(natural_key(stem), natural_key(l), natural_key(r));
    assert(natural_key(l)[0] == folded(left) as int);
    assert(natural_key(r)[0] == folded(right) as int);
    lexical_shared(natural_key(stem), Seq::empty(), natural_key(r));
    assert(natural_key(stem) + Seq::<int>::empty() =~= natural_key(stem));
}

/// A digit comes before every letter.
pub proof fn digits_come_before_letters(digits: Seq<char>, letter: char, rest: Seq<char>)
    requires
        digits.len() > 0,
        is_digit(digits[0]),
        ('a' <= letter && letter <= 'z') || ('A' <= letter && letter <= 'Z'),
    ensures
        natural(digits, seq![letter] + rest) < 0,
{
    assert(natural_key(digits)[0] == '0' as int);
    assert(natural_key(seq![letter] + rest)[0] == folded(letter) as int);
}

/// A number is read in tens, so that leading zeros do not change it.
pub proof fn numbers_are_read_in_tens(digits: Seq<char>, digit: char)
    requires
        is_digit(digit),
    ensures
        decimal(digits.push(digit)) == decimal(digits) * 10 + (digit as int - 48),
        decimal(Seq::<char>::empty()) == 0,
        decimal(seq!['0']) == 0,
{
    assert(digits.push(digit).drop_last() =~= digits);
    assert(seq!['0'].drop_last() =~= Seq::<char>::empty());
    assert(decimal(Seq::<char>::empty()) == 0);
}

/// In dictionary order the first difference decides, and what ends first comes
/// first.
pub proof fn the_first_difference_decides(
    common: Seq<int>,
    smaller: int,
    larger: int,
    left: Seq<int>,
    right: Seq<int>,
)
    requires
        smaller < larger,
    ensures
        lexical(common + seq![smaller] + left, common + seq![larger] + right) < 0,
        lexical(common + seq![larger] + right, common + seq![smaller] + left) > 0,
        lexical(common, common + seq![larger] + right) < 0,
        lexical(common + seq![larger] + right, common) > 0,
        lexical(common, common) == 0,
    decreases common.len(),
{
    let first = common + seq![smaller] + left;
    let second = common + seq![larger] + right;
    if common.len() > 0 {
        let rest = common.skip(1);
        the_first_difference_decides(rest, smaller, larger, left, right);
        assert(first.skip(1) =~= rest + seq![smaller] + left);
        assert(second.skip(1) =~= rest + seq![larger] + right);
        assert(first[0] == common[0] && second[0] == common[0]);
    } else {
        assert(first[0] == smaller);
        assert(second[0] == larger);
    }
}

}
