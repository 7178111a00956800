//! Characters and strings: conversions and searches with exact meanings.
use vstd::prelude::*;

verus! {

/// `String::push` appends the given character to the end of the string.
pub assume_specification[ String::push ](text: &mut String, character: char)
    ensures
        final(text)@ == old(text)@.push(character),
;

/// The characters of a string, in order.
pub fn chars_of(text: &str) -> (result: Vec<char>)
    ensures
        result@ == text@,
{
    let mut result: Vec<char> = Vec::new();
    for c in iter: text.chars()
        invariant
            iter.seq() == text@,
            result@ == text@.take(iter.index()),
    {
        result.push(c);
        assert(result@ == text@.take(iter.index() + 1));
    }
    assert(text@.take(text@.len() as int) == text@);
    result
}

/// The string made of the given characters.
pub fn text_of(chars: &[char]) -> (result: String)
    ensures
        result@ == chars@,
{
    let mut result = String::new();
    for i in 0..chars.len()
        invariant
            result@ == chars@.take(i as int),
    {
        result.push(chars[i]);
        assert(result@ == chars@.take(i + 1));
    }
    assert(chars@.take(chars@.len() as int) == chars@);
    result
}

/// Whether two character runs are the same.
pub fn same_chars(left: &[char], right: &[char]) -> (result: bool)
    ensures
        result == (left@ == right@),
{
    if left.len() != right.len() {
        return false;
    }
    for i in 0..left.len()
        invariant
            left.len() == right.len(),
            forall|j: int| 0 <= j < i ==> left@[j] == right@[j],
    {
        if left[i] != right[i] {
            return false;
        }
    }
    assert(left@ =~= right@);
    true
}

/// Whether two strings hold the same characters.
pub fn same_text(left: &str, right: &str) -> (result: bool)
    ensures
        result == (left@ == right@),
{
    let l = chars_of(left);
    let r = chars_of(right);
    same_chars(l.as_slice(), r.as_slice())
}

/// The characters that count as white space.
pub open spec fn is_white_space(c: char) -> bool {
    let point = c as int;
    ||| 9 <= point <= 13
    ||| point == 32
    ||| point == 0x85
    ||| point == 0xa0
    ||| point == 0x1680
    ||| 0x2000 <= point <= 0x200a
    ||| point == 0x2028
    ||| point == 0x2029
    ||| point == 0x202f
    ||| point == 0x205f
    ||| point == 0x3000
}

pub fn white_space(c: char) -> (result: bool)
    ensures
        result == is_white_space(c),
{
    let point: u32 = c as u32;
    (9 <= point && point <= 13) || point == 32 || point == 0x85 || point == 0xa0 || point == 0x1680
        || (0x2000 <= point && point <= 0x200a) || point == 0x2028 || point == 0x2029 || point
        == 0x202f || point == 0x205f || point == 0x3000
}

/// A text without the white space at its start.
pub open spec fn trimmed_start(text: Seq<char>) -> Seq<char>
    decreases text.len(),
{
    if text.len() > 0 && is_white_space(text[0]) {
        trimmed_start(text.skip(1))
    } else {
        text
    }
}

/// A text without the white space at its end.
pub open spec fn trimmed_end(text: Seq<char>) -> Seq<char>
    decreases text.len(),
{
    if text.len() > 0 && is_white_space(text.last()) {
        trimmed_end(text.drop_last())
    } else {
        text
    }
}

/// A text without the white space at either end.
pub open spec fn trimmed(text: Seq<char>) -> Seq<char> {
    trimmed_end(trimmed_start(text))
}

/// A copy of part of a character run.
pub fn copy_chars(chars: &[char], start: usize, end: usize) -> (result: Vec<char>)
    requires
        start <= end <= chars@.len(),
    ensures
        result@ == chars@.subrange(start as int, end as int),
{
    let mut result: Vec<char> = Vec::new();
    for i in start..end
        invariant
            end <= chars@.len(),
            result@ == chars@.subrange(start as int, i as int),
    {
        result.push(chars[i]);
        assert(result@ == chars@.subrange(start as int, i + 1));
    }
    result
}

/// Takes the white space off both ends of a text.
pub fn trim(text: &[char]) -> (result: Vec<char>)
    ensures
        result@ == trimmed(text@),
{
    let mut start: usize = 0;
    assert(text@.skip(0) == text@);
    while start < text.len() && white_space(text[start])
        invariant
            start <= text@.len(),
            trimmed_start(text@) == trimmed_start(text@.skip(start as int)),
        decreases text@.len() - start,
    {
        assert(text@.skip(start as int).skip(1) == text@.skip(start + 1));
        start = start + 1;
    }
    let mut end: usize = text.len();
    assert(text@.skip(start as int) == text@.subrange(start as int, end as int));
    assert(trimmed_start(text@) == text@.skip(start as int));
    while end > start && white_space(text[end - 1])
        invariant
            start <= end <= text@.len(),
            trimmed(text@) == trimmed_end(text@.subrange(start as int, end as int)),
        decreases end,
    {
        assert(text@.subrange(start as int, end as int).drop_last() == text@.subrange(
            start as int,
            end - 1,
        ));
        end = end - 1;
    }
    copy_chars(text, start, end)
}

/// The position of the first `wanted` in a text, or the text's length.
pub open spec fn position_of(text: Seq<char>, wanted: char) -> int
    decreases text.len(),
{
    if text.len() == 0 || text[0] == wanted {
        0
    } else {
        1 + position_of(text.skip(1), wanted)
    }
}

proof fn position_of_bounds(text: Seq<char>, wanted: char)
    ensures
        0 <= position_of(text, wanted) <= text.len(),
        forall|i: int| 0 <= i < position_of(text, wanted) ==> text[i] != wanted,
        position_of(text, wanted) < text.len() ==> text[position_of(text, wanted)] == wanted,
    decreases text.len(),
{
    if text.len() > 0 && text[0] != wanted {
        let rest = text.skip(1);
        position_of_bounds(rest, wanted);
        assert forall|i: int| 0 <= i < position_of(text, wanted) implies text[i] != wanted by {
            if i > 0 {
                assert(rest[i - 1] == text[i]);
            }
        }
        if position_of(text, wanted) < text.len() {
            assert(rest[position_of(rest, wanted)] == text[position_of(text, wanted)]);
        }
    }
}

/// Finds the first `wanted` at or after a position.
pub fn find_char(text: &[char], start: usize, wanted: char) -> (result: usize)
    requires
        start <= text@.len(),
    ensures
        result <= text@.len(),
        result == start + position_of(text@.skip(start as int), wanted),
{
    let mut at: usize = start;
    while at < text.len() && text[at] != wanted
        invariant
            start <= at <= text@.len(),
            start + position_of(text@.skip(start as int), wanted) == at + position_of(
                text@.skip(at as int),
                wanted,
            ),
        decreases text@.len() - at,
    {
        assert(text@.skip(at as int).skip(1) == text@.skip(at + 1));
        at = at + 1;
    }
    at
}

/// The two sides of the first `separator` in a text.
pub open spec fn split_once(text: Seq<char>, separator: char) -> Option<(Seq<char>, Seq<char>)> {
    let at = position_of(text, separator);
    if at < text.len() {
        Some((text.take(at), text.skip(at + 1)))
    } else {
        None
    }
}

/// Splits a text at its first `separator`.
pub fn split_at_char(text: &[char], separator: char) -> (result: Option<(Vec<char>, Vec<char>)>)
    ensures
        match result {
            Some(sides) => split_once(text@, separator) == Some((sides.0@, sides.1@)),
            None => split_once(text@, separator) is None,
        },
{
    let at = find_char(text, 0, separator);
    assert(text@.skip(0) == text@);
    if at < text.len() {
        let left = copy_chars(text, 0, at);
        let right = copy_chars(text, at + 1, text.len());
        assert(left@ == text@.take(at as int));
        assert(right@ == text@.skip(at + 1));
        Some((left, right))
    } else {
        None
    }
}

/// A line without the carriage return that ends it.
pub open spec fn without_return(line: Seq<char>) -> Seq<char> {
    if line.len() > 0 && line.last() == '\r' {
        line.drop_last()
    } else {
        line
    }
}

/// The lines of a text. A line ends at a newline, with or without a carriage
/// return before it; the last line needs no ending.
pub open spec fn lines(text: Seq<char>) -> Seq<Seq<char>>
    decreases text.len(),
    via lines_shrink
{
    if text.len() == 0 {
        Seq::empty()
    } else {
        let at = position_of(text, '\n');
        if at < text.len() {
            seq![without_return(text.take(at))] + lines(text.skip(at + 1))
        } else {
            seq![text]
        }
    }
}

#[via_fn]
proof fn lines_shrink(text: Seq<char>) {
    position_of_bounds(text, '\n');
}

/// The views of a list of character runs.
pub open spec fn runs(list: Seq<Vec<char>>) -> Seq<Seq<char>> {
    Seq::new(list.len(), |i: int| list[i]@)
}

/// Splits a text into its lines.
pub fn lines_of(text: &[char]) -> (result: Vec<Vec<char>>)
    ensures
        runs(result@) == lines(text@),
{
    let mut result: Vec<Vec<char>> = Vec::new();
    let mut at: usize = 0;
    assert(text@.skip(0) == text@);
    assert(runs(result@) + lines(text@) =~= lines(text@));
    while at < text.len()
        invariant
            at <= text@.len(),
            runs(result@) + lines(text@.skip(at as int)) == lines(text@),
        decreases text@.len() - at,
    {
        let ghost rest = text@.skip(at as int);
        let ghost before = runs(result@);
        let end = find_char(text, at, '\n');
        proof {
            position_of_bounds(rest, '\n');
        }
        if end < text.len() {
            let stop: usize = if end > at && text[end - 1] == '\r' {
                end - 1
            } else {
                end
            };
            let line = copy_chars(text, at, stop);
            proof {
                assert(rest.take(end - at) == text@.subrange(at as int, end as int));
                assert(line@ =~= without_return(rest.take(end - at)));
                assert(rest.skip(end - at + 1) == text@.skip(end + 1));
            }
            result.push(line);
            assert(runs(result@) =~= before + seq![line@]);
            at = end + 1;
        } else {
            let line = copy_chars(text, at, end);
            assert(line@ =~= rest);
            result.push(line);
            assert(runs(result@) =~= before + seq![line@]);
            at = end;
            assert(text@.skip(at as int).len() == 0);
        }
        assert(runs(result@) + lines(text@.skip(at as int)) =~= lines(text@));
    }
    assert(runs(result@) =~= lines(text@));
    result
}

/// The digits of a number in base ten.
pub open spec fn decimal_digits(number: nat) -> Seq<char>
    decreases number,
{
    let last = (('0' as int) + (number % 10)) as char;
    if number < 10 {
        seq![last]
    } else {
        decimal_digits(number / 10).push(last)
    }
}

fn digit_char(digit: u8) -> (result: char)
    requires
        digit < 10,
    ensures
        result as int == '0' as int + digit,
{
    (digit + 48) as char
}

/// Appends a number in base ten.
pub fn push_decimal(text: &mut String, number: u64)
    ensures
        final(text)@ == old(text)@ + decimal_digits(number as nat),
    decreases number,
{
    let last = digit_char((number % 10) as u8);
    if number >= 10 {
        push_decimal(text, number / 10);
    }
    text.push(last);
    assert(text@ =~= old(text)@ + decimal_digits(number as nat));
}

/// The number of a character.
pub fn code_point(c: char) -> (result: u32)
    ensures
        result as int == c as int,
{
    c as u32
}

/// Whether bytes spell a word, byte for code point.
pub open spec fn spells(bytes: Seq<u8>, word: Seq<char>) -> bool {
    bytes.len() == word.len() && forall|i: int|
        0 <= i < word.len() ==> bytes[i] as int == #[trigger] word[i] as int
}

pub fn bytes_spell(bytes: &[u8], word: &str) -> (result: bool)
    ensures
        result == spells(bytes@, word@),
{
    let chars = chars_of(word);
    if bytes.len() != chars.len() {
        return false;
    }
    for i in 0..bytes.len()
        invariant
            bytes@.len() == chars@.len(),
            chars@ == word@,
            forall|j: int| 0 <= j < i ==> bytes@[j] as int == #[trigger] word@[j] as int,
    {
        let found: u32 = bytes[i] as u32;
        let wanted: u32 = code_point(chars[i]);
        if found != wanted {
            return false;
        }
    }
    true
}

/// Whether a text starts with another.
pub open spec fn starts_with(text: Seq<char>, prefix: Seq<char>) -> bool {
    prefix.len() <= text.len() && text.take(prefix.len() as int) == prefix
}

pub fn has_prefix(text: &str, prefix: &str) -> (result: bool)
    ensures
        result == starts_with(text@, prefix@),
{
    let t = chars_of(text);
    let p = chars_of(prefix);
    if p.len() > t.len() {
        return false;
    }
    for i in 0..p.len()
        invariant
            p@.len() <= t@.len(),
            t@ == text@,
            p@ == prefix@,
            forall|j: int| 0 <= j < i ==> t@[j] == p@[j],
    {
        if t[i] != p[i] {
            assert(text@.take(prefix@.len() as int)[i as int] != prefix@[i as int]);
            return false;
        }
    }
    assert(text@.take(prefix@.len() as int) =~= prefix@);
    true
}

/// Where a character is found is where it stands first.
pub proof fn first_position(text: Seq<char>, wanted: char, at: int)
    requires
        0 <= at < text.len(),
        text[at] == wanted,
        forall|i: int| 0 <= i < at ==> text[i] != wanted,
    ensures
        position_of(text, wanted) == at,
{
    position_of_bounds(text, wanted);
    let found = position_of(text, wanted);
    if found < at {
        assert(text[found] != wanted);
    } else if at < found {
        assert(text[at] != wanted);
    }
}

/// A character that a text does not hold is found nowhere in it.
pub proof fn absent_position(text: Seq<char>, wanted: char)
    requires
        !text.contains(wanted),
    ensures
        position_of(text, wanted) == text.len(),
{
    position_of_bounds(text, wanted);
    if position_of(text, wanted) < text.len() {
        assert(text[position_of(text, wanted)] == wanted);
    }
}

/// Trimming takes off white space alone: what is left starts and ends with something
/// else, and is the middle of the text, with nothing but white space around it.
pub proof fn trimming_takes_white_space(text: Seq<char>) -> (span: (int, int))
    ensures
        0 <= span.0 <= span.1 <= text.len(),
        trimmed(text) == text.subrange(span.0, span.1),
        forall|i: int| 0 <= i < span.0 ==> is_white_space(#[trigger] text[i]),
        forall|i: int| span.1 <= i < text.len() ==> is_white_space(#[trigger] text[i]),
        span.0 < span.1 ==> !is_white_space(text[span.0]) && !is_white_space(text[span.1 - 1]),
{
    let start = start_of(text);
    let rest = text.skip(start);
    let end = end_of(rest);
    if start + end == start {
        assert(trimmed(text) =~= text.subrange(start, start));
    } else {
        assert(rest[end - 1] == text[start + end - 1]);
        assert(rest[0] == text[start]);
    }
    assert(trimmed(text) =~= text.subrange(start, start + end));
    assert forall|i: int| start + end <= i < text.len() implies is_white_space(
        #[trigger] text[i],
    ) by {
        assert(rest[i - start] == text[i]);
    }
    (start, start + end)
}

proof fn start_of(text: Seq<char>) -> (start: int)
    ensures
        0 <= start <= text.len(),
        trimmed_start(text) == text.skip(start),
        forall|i: int| 0 <= i < start ==> is_white_space(#[trigger] text[i]),
        start < text.len() ==> !is_white_space(text[start]),
    decreases text.len(),
{
    if text.len() > 0 && is_white_space(text[0]) {
        let rest = text.skip(1);
        let start = start_of(rest);
        assert(rest.skip(start) =~= text.skip(start + 1));
        assert forall|i: int| 0 <= i < start + 1 implies is_white_space(#[trigger] text[i]) by {
            if i > 0 {
                assert(rest[i - 1] == text[i]);
            }
        }
        if start + 1 < text.len() {
            assert(rest[start] == text[start + 1]);
        }
        start + 1
    } else {
        assert(text.skip(0) =~= text);
        0
    }
}

proof fn end_of(text: Seq<char>) -> (end: int)
    ensures
        0 <= end <= text.len(),
        trimmed_end(text) == text.take(end),
        forall|i: int| end <= i < text.len() ==> is_white_space(#[trigger] text[i]),
        end > 0 ==> !is_white_space(text[end - 1]),
    decreases text.len(),
{
    if text.len() > 0 && is_white_space(text.last()) {
        let rest = text.drop_last();
        let end = end_of(rest);
        assert(rest.take(end) =~= text.take(end));
        assert forall|i: int| end <= i < text.len() implies is_white_space(#[trigger] text[i]) by {
            if i < rest.len() {
                assert(rest[i] == text[i]);
            }
        }
        end
    } else {
        assert(text.take(text.len() as int) =~= text);
        text.len() as int
    }
}

/// A text that ends a line with a newline has that line first and then the lines of the
/// rest; one without a newline is a line of its own.
pub proof fn lines_end_at_newlines(line: Seq<char>, rest: Seq<char>)
    requires
        !line.contains('\n'),
    ensures
        line.len() > 0 ==> lines(line) == seq![line],
        (line.len() == 0 || line.last() != '\r') ==> lines(line.push('\n') + rest) == seq![line]
            + lines(rest),
        lines(line.push('\r').push('\n') + rest) == seq![line] + lines(rest),
        lines(Seq::<char>::empty()).len() == 0,
{
    absent_position(line, '\n');
    let plain = line.push('\n') + rest;
    assert forall|i: int| 0 <= i < line.len() implies plain[i] != '\n' by {
        assert(plain[i] == line[i]);
    }
    first_position(plain, '\n', line.len() as int);
    assert(plain.take(line.len() as int) =~= line);
    assert(plain.skip(line.len() as int + 1) =~= rest);
    let returned = line.push('\r').push('\n') + rest;
    assert forall|i: int| 0 <= i < line.len() + 1 implies returned[i] != '\n' by {
        if i < line.len() {
            assert(returned[i] == line[i]);
        }
    }
    first_position(returned, '\n', line.len() as int + 1);
    assert(returned.take(line.len() as int + 1) =~= line.push('\r'));
    assert(line.push('\r').drop_last() =~= line);
    assert(returned.skip(line.len() as int + 2) =~= rest);
}

/// The digits of a number are written from the highest down: a number of several digits
/// is written as its tenth part and then its last digit.
pub proof fn numbers_are_written_in_tens(tens: nat, ones: nat)
    requires
        ones < 10,
    ensures
        tens > 0 ==> decimal_digits(tens * 10 + ones) == decimal_digits(tens) + decimal_digits(
            ones,
        ),
        decimal_digits(ones).len() == 1,
        decimal_digits(ones)[0] as int == 48 + ones,
{
    assert((tens * 10 + ones) / 10 == tens);
    assert((tens * 10 + ones) % 10 == ones);
    assert(decimal_digits(ones) =~= seq![(('0' as int) + ones) as char]);
    if tens > 0 {
        assert(decimal_digits(tens * 10 + ones) =~= decimal_digits(tens) + decimal_digits(ones));
    }
}

}
