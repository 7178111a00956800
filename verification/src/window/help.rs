//! The cheat sheet of keys.
use vstd::prelude::*;

use crate::text::{chars_of, code_point, starts_with};
use crate::window::action::{configurable_list, Action};

verus! {

/// The digits of a number in base sixteen.
pub open spec fn hex_digits(number: nat) -> Seq<char>
    decreases number,
{
    let digit = number % 16;
    let last = if digit < 10 {
        (('0' as int) + digit) as char
    } else {
        (('a' as int) + digit - 10) as char
    };
    if number < 16 {
        seq![last]
    } else {
        hex_digits(number / 16).push(last)
    }
}

fn push_hex(text: &mut String, number: u32)
    ensures
        final(text)@ == old(text)@ + hex_digits(number as nat),
    decreases number,
{
    if number >= 16 {
        push_hex(text, number / 16);
    }
    let digit: u8 = (number % 16) as u8;
    let last: u8 = if digit < 10 {
        digit + 48
    } else {
        digit - 10 + 97
    };
    text.push(last as char);
    assert(text@ =~= old(text)@ + hex_digits(number as nat));
}

/// Whether markup cannot hold a character as it is though it has no special meaning.
pub open spec fn is_control(c: char) -> bool {
    let code = c as int;
    ||| 0x1 <= code <= 0x8
    ||| 0xb <= code <= 0xc
    ||| 0xe <= code <= 0x1f
    ||| 0x7f <= code <= 0x84
    ||| 0x86 <= code <= 0x9f
}

/// A character as markup that shows it.
pub open spec fn escape(c: char) -> Seq<char> {
    if c == '&' {
        "&amp;"@
    } else if c == '<' {
        "&lt;"@
    } else if c == '>' {
        "&gt;"@
    } else if c == '\'' {
        "&#39;"@
    } else if c == '"' {
        "&quot;"@
    } else if is_control(c) {
        "&#x"@ + hex_digits(c as nat) + ";"@
    } else {
        seq![c]
    }
}

/// A text as markup that shows it.
pub open spec fn escaped(text: Seq<char>) -> Seq<char>
    decreases text.len(),
{
    if text.len() == 0 {
        Seq::empty()
    } else {
        escaped(text.drop_last()) + escape(text.last())
    }
}

fn push_escape(out: &mut String, c: char)
    ensures
        final(out)@ == old(out)@ + escape(c),
{
    let code: u32 = code_point(c);
    if c == '&' {
        out.append("&amp;");
    } else if c == '<' {
        out.append("&lt;");
    } else if c == '>' {
        out.append("&gt;");
    } else if c == '\'' {
        out.append("&#39;");
    } else if c == '"' {
        out.append("&quot;");
    } else if (0x1 <= code && code <= 0x8) || (0xb <= code && code <= 0xc) || (0xe <= code && code
        <= 0x1f) || (0x7f <= code && code <= 0x84) || (0x86 <= code && code <= 0x9f) {
        out.append("&#x");
        push_hex(out, code);
        out.append(";");
        assert(out@ =~= old(out)@ + escape(c));
    } else {
        out.push(c);
        assert(out@ =~= old(out)@ + escape(c));
    }
}

/// A text followed by the spaces that fill a column.
pub open spec fn padded(text: Seq<char>, width: nat) -> Seq<char> {
    if text.len() < width {
        text + Seq::new((width - text.len()) as nat, |i: int| ' ')
    } else {
        text
    }
}

/// One row, padded to a width. The keys are padded before escaping, so that markup
/// never counts toward the column.
pub open spec fn row_text(keys: Seq<char>, description: Seq<char>, width: nat) -> Seq<char> {
    "<tt>"@ + escaped(padded(keys, width)) + "</tt> "@ + description
}

pub fn help_line(keys: &str, description: &str, width: usize) -> (result: String)
    ensures
        result@ == row_text(keys@, description@, width as nat),
{
    let mut column = chars_of(keys);
    let length: usize = column.len();
    assert(column@ =~= padded(keys@, length as nat));
    while column.len() < width
        invariant
            length == keys@.len(),
            length <= column@.len(),
            length < width ==> column@.len() <= width,
            length >= width ==> column@ == keys@,
            column@ == padded(keys@, column@.len()),
        decreases width - column@.len(),
    {
        column.push(' ');
        assert(column@ =~= padded(keys@, column@.len()));
    }
    let ghost filled = padded(keys@, width as nat);
    assert(column@ == filled);
    let mut result = "<tt>".to_owned();
    assert(filled.take(0) =~= Seq::empty());
    assert(result@ + escaped(filled.take(0)) =~= result@);
    for i in 0..column.len()
        invariant
            column@ == filled,
            result@ == "<tt>"@ + escaped(filled.take(i as int)),
    {
        assert(filled.take(i + 1).drop_last() =~= filled.take(i as int));
        push_escape(&mut result, column[i]);
        assert(result@ =~= "<tt>"@ + escaped(filled.take(i + 1)));
    }
    assert(filled.take(filled.len() as int) =~= filled);
    result.concat("</tt> ").concat(description)
}

/// A row of the sheet: its keys and what they do.
#[derive(Debug, Clone, PartialEq, Eq)]
pub struct HelpRow {
    pub keys: String,
    pub description: String,
}

/// A row as a value.
#[verifier::ext_equal]
pub struct Row {
    pub keys: Seq<char>,
    pub description: Seq<char>,
}

impl View for HelpRow {
    type V = Row;

    open spec fn view(&self) -> Row {
        Row { keys: self.keys@, description: self.description@ }
    }
}

pub open spec fn row_views(rows: Seq<HelpRow>) -> Seq<Row> {
    Seq::new(rows.len(), |i: int| rows[i]@)
}

/// Labels with commas between them.
pub open spec fn listed(labels: Seq<String>) -> Seq<char>
    decreases labels.len(),
{
    if labels.len() == 0 {
        Seq::empty()
    } else if labels.len() == 1 {
        labels[0]@
    } else {
        listed(labels.drop_last()) + ", "@ + labels.last()@
    }
}

fn list(labels: &Vec<String>) -> (result: String)
    ensures
        result@ == listed(labels@),
{
    let mut result = String::new();
    assert(labels@.take(0) =~= Seq::empty());
    for i in 0..labels.len()
        invariant
            result@ == listed(labels@.take(i as int)),
    {
        let ghost next = labels@.take(i + 1);
        assert(next.drop_last() =~= labels@.take(i as int));
        if i > 0 {
            result.append(", ");
        }
        result.append(labels[i].as_str());
        assert(result@ =~= listed(next));
    }
    assert(labels@.take(labels@.len() as int) =~= labels@);
    result
}

/// The rows of the sheet, given the labels of the keys of each configurable action: an
/// action without keys, or with nothing to say of it, has none.
pub open spec fn rows(labels: Seq<Vec<String>>, count: int) -> Seq<Row>
    decreases count,
{
    if count <= 0 {
        Seq::empty()
    } else {
        let before = rows(labels, count - 1);
        let description = configurable_list()[count - 1].1;
        if description.len() == 0 || labels[count - 1]@.len() == 0 {
            before
        } else {
            before.push(Row { keys: listed(labels[count - 1]@), description })
        }
    }
}

pub fn help_rows(labels: &Vec<Vec<String>>) -> (result: Vec<HelpRow>)
    requires
        labels@.len() == configurable_list().len(),
    ensures
        row_views(result@) == rows(labels@, labels@.len() as int),
{
    let actions = Action::configurable();
    let mut result: Vec<HelpRow> = Vec::new();
    assert(row_views(result@) =~= rows(labels@, 0));
    for i in 0..labels.len()
        invariant
            labels@.len() == configurable_list().len(),
            actions@.len() == configurable_list().len(),
            forall|k: int|
                0 <= k < actions@.len() ==> (#[trigger] actions@[k]).1@ == configurable_list()[k].1,
            row_views(result@) == rows(labels@, i as int),
    {
        let ghost before = row_views(result@);
        let description = chars_of(actions[i].1);
        if description.len() > 0 && labels[i].len() > 0 {
            let row = HelpRow { keys: list(&labels[i]), description: actions[i].1.to_owned() };
            result.push(row);
            assert(row_views(result@) =~= before.push(row@));
        }
    }
    result
}

/// The width of the widest keys.
pub open spec fn widest(rows: Seq<Row>) -> nat
    decreases rows.len(),
{
    if rows.len() == 0 {
        0
    } else {
        let before = widest(rows.drop_last());
        if rows.last().keys.len() > before {
            rows.last().keys.len()
        } else {
            before
        }
    }
}

/// The rows, each on a line of its own.
pub open spec fn row_lines(rows: Seq<Row>, width: nat) -> Seq<char>
    decreases rows.len(),
{
    if rows.len() == 0 {
        Seq::empty()
    } else {
        row_lines(rows.drop_last(), width) + "\n"@ + row_text(
            rows.last().keys,
            rows.last().description,
            width,
        )
    }
}

/// The whole sheet as markup.
pub open spec fn sheet(rows: Seq<Row>) -> Seq<char> {
    "<b>Keys</b>\n"@ + row_lines(rows, widest(rows))
        + "\n\n<tt>Escape</tt> cancels Quick Markup, leaves fullscreen, then closes"@
        + "\nScroll: zoom · horizontal scroll: navigate"@
        + "\nDrag: pan (zoomed) · middle-drag: move window · double-click: fullscreen"@
        + "\nDrag an edge or corner: resize the window"@
}

pub fn help_text(rows: &Vec<HelpRow>) -> (result: String)
    ensures
        result@ == sheet(row_views(rows@)),
{
    let ghost all = row_views(rows@);
    let mut width: usize = 0;
    assert(all.take(0) =~= Seq::empty());
    for i in 0..rows.len()
        invariant
            all == row_views(rows@),
            width == widest(all.take(i as int)),
    {
        assert(all.take(i + 1).drop_last() =~= all.take(i as int));
        let length: usize = chars_of(rows[i].keys.as_str()).len();
        if length > width {
            width = length;
        }
    }
    assert(all.take(all.len() as int) =~= all);
    let mut result = "<b>Keys</b>\n".to_owned();
    assert(result@ + row_lines(all.take(0), width as nat) =~= result@);
    for i in 0..rows.len()
        invariant
            all == row_views(rows@),
            result@ == "<b>Keys</b>\n"@ + row_lines(all.take(i as int), width as nat),
    {
        assert(all.take(i + 1).drop_last() =~= all.take(i as int));
        result.append("\n");
        result.append(
            help_line(rows[i].keys.as_str(), rows[i].description.as_str(), width).as_str(),
        );
        assert(result@ =~= "<b>Keys</b>\n"@ + row_lines(all.take(i + 1), width as nat));
    }
    result.append("\n\n<tt>Escape</tt> cancels Quick Markup, leaves fullscreen, then closes");
    result.append("\nScroll: zoom · horizontal scroll: navigate");
    result.append("\nDrag: pan (zoomed) · middle-drag: move window · double-click: fullscreen");
    result.append("\nDrag an edge or corner: resize the window");
    result
}

/// Every row's column has the same width on screen, so that the descriptions align.
pub proof fn rows_align(rows: Seq<Row>, at: int)
    requires
        0 <= at < rows.len(),
    ensures
        padded(rows[at].keys, widest(rows)).len() == widest(rows),
    decreases rows.len(),
{
    if at < rows.len() - 1 {
        let shorter = rows.drop_last();
        rows_align(shorter, at);
        assert(shorter[at] == rows[at]);
    }
}

/// The mark-up characters never stand for themselves; every character that markup can
/// hold does.
pub proof fn special_characters_are_escaped(c: char)
    ensures
        escape('&') == "&amp;"@,
        escape('<') == "&lt;"@,
        escape('>') == "&gt;"@,
        escape('\'') == "&#39;"@,
        escape('"') == "&quot;"@,
        ' ' as int <= c as int <= '~' as int && c != '&' && c != '<' && c != '>' && c != '\'' && c
            != '"' ==> escape(c) == seq![c],
        c as int >= 0xa0 ==> escape(c) == seq![c],
        c == '\t' || c == '\n' || c == '\r' ==> escape(c) == seq![c],
        1 <= c as int <= 8 || 0xe <= c as int <= 0x1f || c as int == 0x7f ==> escape(c) == "&#x"@
            + hex_digits(c as nat) + ";"@,
{
}

/// Texts are escaped character by character, in their order.
pub proof fn texts_are_escaped_in_parts(left: Seq<char>, right: Seq<char>)
    ensures
        escaped(left + right) == escaped(left) + escaped(right),
        escaped(Seq::empty()) == Seq::<char>::empty(),
    decreases right.len(),
{
    if right.len() == 0 {
        assert(left + right =~= left);
        assert(escaped(left) + Seq::<char>::empty() =~= escaped(left));
    } else {
        texts_are_escaped_in_parts(left, right.drop_last());
        assert((left + right).drop_last() =~= left + right.drop_last());
        assert((left + right).last() == right.last());
        assert(escaped(left) + (escaped(right.drop_last()) + escape(right.last())) =~= (escaped(
            left,
        ) + escaped(right.drop_last())) + escape(right.last()));
    }
}

/// In base sixteen each further figure counts sixteen times the ones before it.
pub proof fn figures_count_sixteenfold(above: nat, digit: nat)
    requires
        digit < 16,
    ensures
        digit < 10 ==> hex_digits(digit) == seq![(('0' as int) + digit) as char],
        digit >= 10 ==> hex_digits(digit) == seq![(('a' as int) + digit - 10) as char],
        above > 0 ==> hex_digits(16 * above + digit) == hex_digits(above) + hex_digits(digit),
{
    if above > 0 {
        let number = 16 * above + digit;
        assert(number / 16 == above && number % 16 == digit) by (nonlinear_arith)
            requires
                number == 16 * above + digit,
                digit < 16,
        ;
        assert(hex_digits(above) + hex_digits(digit) =~= hex_digits(number));
    }
}

/// A column is filled up with spaces on the right; what is wider stays as it is.
pub proof fn columns_are_filled_on_the_right(text: Seq<char>, width: nat, at: int)
    ensures
        padded(text, width).len() == if text.len() < width {
            width
        } else {
            text.len()
        },
        0 <= at < text.len() ==> padded(text, width)[at] == text[at],
        text.len() <= at < width ==> padded(text, width)[at] == ' ',
{
}

/// Labels are listed in their order with commas between them.
pub proof fn labels_are_listed_with_commas(labels: Seq<String>, next: String)
    ensures
        listed(seq![next]) == next@,
        labels.len() > 0 ==> listed(labels.push(next)) == listed(labels) + ", "@ + next@,
        listed(Seq::empty()) == Seq::<char>::empty(),
{
    assert(labels.push(next).drop_last() =~= labels);
    assert(labels.push(next).last() == next);
}

/// The sheet has a row for an action exactly where the action has keys and something
/// to say.
pub proof fn actions_with_keys_have_rows(labels: Seq<Vec<String>>, count: int)
    requires
        count > 0,
    ensures
        labels[count - 1]@.len() > 0 && configurable_list()[count - 1].1.len() > 0 ==> rows(
            labels,
            count,
        ) == rows(labels, count - 1).push(
            Row {
                keys: listed(labels[count - 1]@),
                description: configurable_list()[count - 1].1,
            },
        ),
        labels[count - 1]@.len() == 0 ==> rows(labels, count) == rows(labels, count - 1),
        configurable_list()[count - 1].1.len() == 0 ==> rows(labels, count) == rows(
            labels,
            count - 1,
        ),
        rows(labels, 0) == Seq::<Row>::empty(),
{
}

/// The column is as wide as the widest keys and no wider.
pub proof fn the_widest_keys_set_the_column(rows: Seq<Row>, at: int)
    ensures
        0 <= at < rows.len() ==> rows[at].keys.len() <= widest(rows),
        rows.len() > 0 ==> exists|i: int|
            0 <= i < rows.len() && (#[trigger] rows[i]).keys.len() == widest(rows),
        rows.len() == 0 ==> widest(rows) == 0,
    decreases rows.len(),
{
    if rows.len() > 0 {
        let before = rows.drop_last();
        the_widest_keys_set_the_column(before, at);
        if before.len() > 0 {
            let i = choose|i: int|
                0 <= i < before.len() && (#[trigger] before[i]).keys.len() == widest(before);
            assert(rows[i] == before[i]);
            assert(rows[i].keys.len() == widest(before));
        }
        assert(rows[rows.len() - 1] == rows.last());
        if 0 <= at < before.len() {
            assert(before[at] == rows[at]);
        }
        if before.len() == 0 {
            assert(rows[0].keys.len() == widest(rows));
        }
    }
}

/// Each row has a line of its own: its keys, escaped, then what they do.
pub proof fn each_row_has_a_line(rows: Seq<Row>, row: Row, width: nat)
    ensures
        row_lines(rows.push(row), width) == row_lines(rows, width) + "\n"@ + row_text(
            row.keys,
            row.description,
            width,
        ),
        row_text(row.keys, row.description, width) == "<tt>"@ + escaped(padded(row.keys, width))
            + "</tt> "@ + row.description,
        row_lines(Seq::empty(), width) == Seq::<char>::empty(),
{
    assert(rows.push(row).drop_last() =~= rows);
    assert(rows.push(row).last() == row);
}

/// The sheet begins with its heading and goes on with its rows, aligned at the widest
/// keys; what the mouse does comes last.
pub proof fn the_sheet_shows_keys_first(rows: Seq<Row>)
    ensures
        starts_with(sheet(rows), "<b>Keys</b>\n"@ + row_lines(rows, widest(rows))),
        sheet(rows).len() > ("<b>Keys</b>\n"@ + row_lines(rows, widest(rows))).len(),
{
    reveal_strlit("\nDrag an edge or corner: resize the window");
    let front = "<b>Keys</b>\n"@ + row_lines(rows, widest(rows));
    assert(sheet(rows).take(front.len() as int) =~= front);
}

}
