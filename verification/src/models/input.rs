//! What the input popups hold, and how their text is read.

use ratatui_textarea::Key as K;
use vstd::prelude::*;

use crate::text::{chars_of, push_char, trim, trim_chars};

use super::creature::CreatureId;

verus! {

/// Whether `c` is one of `0`..=`9`.
pub open spec fn is_ascii_digit(c: char) -> bool {
    '0' <= c && c <= '9'
}

/// A non-empty run of ASCII digits.
pub open spec fn all_digits(s: Seq<char>) -> bool {
    s.len() > 0 && forall|i: int| 0 <= i < s.len() ==> is_ascii_digit(#[trigger] s[i])
}

/// The decimal value of a run of digits.
pub open spec fn digits_value(s: Seq<char>) -> int
    decreases s.len(),
{
    if s.len() == 0 {
        0
    } else {
        digits_value(s.drop_last()) * 10 + (s.last() as int - '0' as int)
    }
}

/// The number `str::parse::<i32>` reads: an optional `+` or `-`, then decimal
/// digits, in range.
pub open spec fn parse_i32_chars(s: Seq<char>) -> Option<i32> {
    let negative = s.len() > 0 && s[0] == '-';
    let digits = if s.len() > 0 && (s[0] == '-' || s[0] == '+') { s.drop_first() } else { s };
    let value = if negative { -digits_value(digits) } else { digits_value(digits) };
    if all_digits(digits) && i32::MIN <= value <= i32::MAX {
        Some(value as i32)
    } else {
        None
    }
}

/// The number `str::parse::<usize>` reads: an optional `+`, then decimal
/// digits, in range.
pub open spec fn parse_usize_chars(s: Seq<char>) -> Option<usize> {
    let digits = if s.len() > 0 && s[0] == '+' { s.drop_first() } else { s };
    if all_digits(digits) && digits_value(digits) <= usize::MAX {
        Some(digits_value(digits) as usize)
    } else {
        None
    }
}

proof fn lemma_digits_value_nonneg(s: Seq<char>)
    requires
        forall|i: int| 0 <= i < s.len() ==> is_ascii_digit(#[trigger] s[i]),
    ensures
        digits_value(s) >= 0,
    decreases s.len(),
{
    if s.len() > 0 {
        lemma_digits_value_nonneg(s.drop_last());
    }
}

proof fn lemma_digits_value_prefix(s: Seq<char>, k: int)
    requires
        forall|i: int| 0 <= i < s.len() ==> is_ascii_digit(#[trigger] s[i]),
        0 <= k <= s.len(),
    ensures
        digits_value(s) >= digits_value(s.take(k)),
    decreases s.len(),
{
    if k < s.len() {
        let r = s.drop_last();
        lemma_digits_value_prefix(r, k);
        lemma_digits_value_nonneg(r);
        assert(r.take(k) =~= s.take(k));
    } else {
        assert(s.take(k) =~= s);
    }
}

/// The value of the digits `v[start..]` when they are all digits and the value
/// is at most `limit`.
fn digits_upto(v: &Vec<char>, start: usize, limit: u64) -> (r: Option<u64>)
    requires
        start <= v.len(),
    ensures
        r == (if all_digits(v@.skip(start as int)) && digits_value(v@.skip(start as int)) <= limit {
            Some(digits_value(v@.skip(start as int)) as u64)
        } else {
            None::<u64>
        }),
        r matches Some(m) ==> m <= limit && m as int == digits_value(v@.skip(start as int)),
{
    let ghost d = v@.skip(start as int);
    if start == v.len() {
        return None;
    }
    let mut acc: u64 = 0;
    let mut i: usize = start;
    while i < v.len()
        invariant
            start <= i <= v.len(),
            d == v@.skip(start as int),
            forall|j: int| 0 <= j < i - start ==> is_ascii_digit(#[trigger] d[j]),
            acc == digits_value(d.take(i - start)),
            acc <= limit,
        decreases v.len() - i,
    {
        let c = v[i];
        if !('0' <= c && c <= '9') {
            assert(d[i - start] == c);
            assert(!is_ascii_digit(d[i - start]));
            return None;
        }
        let digit = (c as u32 - '0' as u32) as u64;
        assert(digit == c as int - '0' as int);
        assert(d[i - start] == c);
        assert(d.take(i - start + 1).drop_last() =~= d.take(i - start));
        if acc > limit / 10 || (acc == limit / 10 && digit > limit % 10) {
            proof {
                assert forall|j: int| 0 <= j < i - start + 1 implies is_ascii_digit(#[trigger] d[j]) by {}
                if all_digits(d) {
                    lemma_digits_value_prefix(d, i - start + 1);
                }
            }
            return None;
        }
        acc = acc * 10 + digit;
        i = i + 1;
    }
    assert(d.take(i - start) =~= d);
    Some(acc)
}


/// The number `str::parse::<i32>` reads from `v`.
fn parse_i32_vec(v: &Vec<char>) -> (r: Option<i32>)
    ensures
        r == parse_i32_chars(v@),
{
    if v.len() > 0 && (v[0] == '-' || v[0] == '+') {
        assert(v@.skip(1) =~= v@.drop_first());
        if v[0] == '-' {
            match digits_upto(v, 1, 2147483648) {
                Some(m) => Some((0 - (m as i64)) as i32),
                None => None,
            }
        } else {
            match digits_upto(v, 1, 2147483647) {
                Some(m) => Some(m as i32),
                None => None,
            }
        }
    } else {
        assert(v@.skip(0) =~= v@);
        match digits_upto(v, 0, 2147483647) {
            Some(m) => Some(m as i32),
            None => None,
        }
    }
}

/// The number `str::parse::<usize>` reads from `v`.
fn parse_usize_vec(v: &Vec<char>) -> (r: Option<usize>)
    ensures
        r == parse_usize_chars(v@),
{
    let start: usize = if v.len() > 0 && v[0] == '+' { 1 } else { 0 };
    if v.len() > 0 {
        assert(v@.skip(1) =~= v@.drop_first());
    }
    assert(v@.skip(0) =~= v@);
    match digits_upto(v, start, usize::MAX as u64) {
        Some(m) => Some(m as usize),
        None => None,
    }
}

/// A result with its error message taken by its characters.
pub open spec fn err_view<T>(r: Result<T, String>) -> Result<T, Seq<char>> {
    match r {
        Ok(v) => Ok(v),
        Err(e) => Err(e@),
    }
}

/// "<label> must be a number"
pub open spec fn number_error(label: Seq<char>) -> Seq<char> {
    label + " must be a number"@
}

/// "<label> must be positive"
pub open spec fn positive_error(label: Seq<char>) -> Seq<char> {
    label + " must be positive"@
}

/// "<label> must be a positive number"
pub open spec fn positive_number_error(label: Seq<char>) -> Seq<char> {
    label + " must be a positive number"@
}

fn message(label: &str, suffix: &str) -> (m: String)
    ensures
        m@ == label@ + suffix@,
{
    let mut m = label.to_owned();
    m.append(suffix);
    m
}

/// A trimmed number, or the message that it must be a number.
pub open spec fn spec_parse_i32(value: Seq<char>, label: Seq<char>) -> Result<i32, Seq<char>> {
    match parse_i32_chars(trim_chars(value)) {
        Some(v) => Ok(v),
        None => Err(number_error(label)),
    }
}

/// A trimmed number above zero, or the message saying what is wrong.
pub open spec fn spec_parse_positive_i32(value: Seq<char>, label: Seq<char>) -> Result<i32, Seq<char>> {
    match spec_parse_i32(value, label) {
        Ok(v) => if v <= 0 { Err(positive_error(label)) } else { Ok(v) },
        Err(e) => Err(e),
    }
}

/// Nothing for blank text, else a trimmed number.
pub open spec fn spec_parse_optional_i32(value: Seq<char>, label: Seq<char>) -> Result<Option<i32>, Seq<char>> {
    let t = trim_chars(value);
    if t.len() == 0 {
        Ok(None)
    } else {
        match parse_i32_chars(t) {
            Some(v) => Ok(Some(v)),
            None => Err(number_error(label)),
        }
    }
}

/// Nothing for blank text, else a trimmed number above zero.
pub open spec fn spec_parse_optional_positive_i32(value: Seq<char>, label: Seq<char>) -> Result<Option<i32>, Seq<char>> {
    match spec_parse_optional_i32(value, label) {
        Ok(Some(v)) => if v <= 0 { Err(positive_error(label)) } else { Ok(Some(v)) },
        other => other,
    }
}

/// Nothing for blank text, else a trimmed count above zero.
pub open spec fn spec_parse_optional_positive_usize(value: Seq<char>, label: Seq<char>) -> Result<Option<usize>, Seq<char>> {
    let t = trim_chars(value);
    if t.len() == 0 {
        Ok(None)
    } else {
        match parse_usize_chars(t) {
            None => Err(positive_number_error(label)),
            Some(n) => if n == 0 { Err(positive_error(label)) } else { Ok(Some(n)) },
        }
    }
}

pub fn parse_i32(value: String, label: &str) -> (r: Result<i32, String>)
    ensures
        err_view(r) == spec_parse_i32(value@, label@),
{
    let v = chars_of(trim(value.as_str()).as_str());
    match parse_i32_vec(&v) {
        Some(n) => Ok(n),
        None => Err(message(label, " must be a number")),
    }
}

pub fn parse_positive_i32(value: String, label: &str) -> (r: Result<i32, String>)
    ensures
        err_view(r) == spec_parse_positive_i32(value@, label@),
{
    let parsed = parse_i32(value, label)?;
    if parsed <= 0 {
        return Err(message(label, " must be positive"));
    }
    Ok(parsed)
}

fn parse_optional_i32(value: String, label: &str) -> (r: Result<Option<i32>, String>)
    ensures
        err_view(r) == spec_parse_optional_i32(value@, label@),
{
    let v = chars_of(trim(value.as_str()).as_str());
    if v.len() == 0 {
        return Ok(None);
    }
    match parse_i32_vec(&v) {
        Some(n) => Ok(Some(n)),
        None => Err(message(label, " must be a number")),
    }
}

fn parse_optional_positive_i32(value: String, label: &str) -> (r: Result<Option<i32>, String>)
    ensures
        err_view(r) == spec_parse_optional_positive_i32(value@, label@),
{
    let parsed = parse_optional_i32(value, label)?;
    match parsed {
        None => Ok(None),
        Some(n) => {
            if n <= 0 {
                return Err(message(label, " must be positive"));
            }
            Ok(Some(n))
        },
    }
}

fn parse_optional_positive_usize(value: String, label: &str) -> (r: Result<Option<usize>, String>)
    ensures
        err_view(r) == spec_parse_optional_positive_usize(value@, label@),
{
    let v = chars_of(trim(value.as_str()).as_str());
    if v.len() == 0 {
        return Ok(None);
    }
    match parse_usize_vec(&v) {
        None => Err(message(label, " must be a positive number")),
        Some(n) => {
            if n == 0 {
                return Err(message(label, " must be positive"));
            }
            Ok(Some(n))
        },
    }
}

/// The letter for `index % 26`: `A` for 0 through `Z` for 25.
pub open spec fn suffix_letter(index: nat) -> char {
    (65 + index % 26) as char
}

/// Spreadsheet-style letters: `A`..`Z`, then `AA`, `AB`, and so on.
pub open spec fn letter_suffix_chars(index: nat) -> Seq<char>
    decreases index,
{
    if index < 26 {
        seq![suffix_letter(index)]
    } else {
        letter_suffix_chars((index / 26 - 1) as nat).push(suffix_letter(index))
    }
}

fn push_letter_suffix(index: usize, out: &mut String)
    ensures
        final(out)@ == old(out)@ + letter_suffix_chars(index as nat),
    decreases index,
{
    if index >= 26 {
        push_letter_suffix(index / 26 - 1, out);
    }
    let letter = ((65 + index % 26) as u8) as char;
    assert(letter == suffix_letter(index as nat));
    push_char(out, letter);
}

/// The letters that tell apart the creatures of a batch: `A` for 0, `Z` for
/// 25, `AA` for 26.
pub fn letter_suffix(index: usize) -> (s: String)
    ensures
        s@ == letter_suffix_chars(index as nat),
{
    let mut s = String::new();
    push_letter_suffix(index, &mut s);
    assert(s@ =~= letter_suffix_chars(index as nat));
    s
}

proof fn lemma_letter_suffix_len(index: nat)
    ensures
        letter_suffix_chars(index).len() >= 1,
        index >= 26 ==> letter_suffix_chars(index).len() >= 2,
    decreases index,
{
    if index >= 26 {
        lemma_letter_suffix_len((index / 26 - 1) as nat);
    }
}

/// The value of a bijective base-26 numeral written with `A` = 1 to `Z` =
/// 26, most significant letter first.
pub open spec fn bijective_value(s: Seq<char>) -> int
    decreases s.len(),
{
    if s.len() == 0 {
        0
    } else {
        bijective_value(s.drop_last()) * 26 + (s.last() as int - 'A' as int + 1)
    }
}

/// The suffix for `index` is the bijective base-26 numeral of `index + 1`,
/// in capital letters only.
pub proof fn lemma_letter_suffix_numeral(index: nat)
    ensures
        bijective_value(letter_suffix_chars(index)) == index + 1,
        forall|k: int|
            0 <= k < letter_suffix_chars(index).len() ==> 'A' <= #[trigger] letter_suffix_chars(index)[k] <= 'Z',
    decreases index,
{
    assert(suffix_letter(index) as int == 65 + index % 26);
    assert('A' as int == 65);
    if index < 26 {
        let s = letter_suffix_chars(index);
        assert(s.drop_last() =~= Seq::<char>::empty());
        assert(bijective_value(s.drop_last()) == 0);
        assert(s.last() == suffix_letter(index));
        assert(index % 26 == index);
    } else {
        let prefix = (index / 26 - 1) as nat;
        lemma_letter_suffix_numeral(prefix);
        let s = letter_suffix_chars(index);
        assert(s.drop_last() =~= letter_suffix_chars(prefix));
        assert(s.last() == suffix_letter(index));
        assert(index / 26 * 26 + index % 26 == index) by {
            vstd::arithmetic::div_mod::lemma_fundamental_div_mod(index as int, 26);
        }
        assert(bijective_value(s) == (prefix + 1) * 26 + index % 26 + 1);
        assert forall|k: int| 0 <= k < s.len() implies 'A' <= #[trigger] s[k] <= 'Z' by {
            if k < s.len() - 1 {
                assert(s[k] == letter_suffix_chars(prefix)[k]);
            }
        }
    }
}

/// Different indices get different suffixes, so a batch of creatures never
/// shares a name.
pub proof fn lemma_letter_suffix_injective(a: nat, b: nat)
    requires
        letter_suffix_chars(a) == letter_suffix_chars(b),
    ensures
        a == b,
    decreases a,
{
    lemma_letter_suffix_len(a);
    lemma_letter_suffix_len(b);
    let sa = letter_suffix_chars(a);
    let sb = letter_suffix_chars(b);
    assert(sa.last() == suffix_letter(a));
    assert(sb.last() == suffix_letter(b));
    assert(a % 26 == b % 26);
    if a >= 26 && b >= 26 {
        assert(sa.drop_last() =~= letter_suffix_chars((a / 26 - 1) as nat));
        assert(sb.drop_last() =~= letter_suffix_chars((b / 26 - 1) as nat));
        lemma_letter_suffix_injective((a / 26 - 1) as nat, (b / 26 - 1) as nat);
    }
}


/// A key as the text fields see it.
#[derive(Clone, Copy, Debug, Eq, PartialEq, Structural)]
pub enum TextKey {
    Char(char),
    F(u8),
    Backspace,
    Enter,
    Left,
    Right,
    Up,
    Down,
    Tab,
    BackTab,
    Delete,
    Home,
    End,
    PageUp,
    PageDown,
    Esc,
    Null,
}

/// A key press with its modifiers.
#[derive(Clone, Copy, Debug, Eq, PartialEq, Structural)]
pub struct TextInput {
    pub key: TextKey,
    pub ctrl: bool,
    pub alt: bool,
    pub shift: bool,
}

/// An editable line of text (a `ratatui_textarea::TextArea`). The text area
/// is public so the interface can draw it; its contents are `text_field_lines`.
#[verifier::external_body]
pub struct TextField {
    pub textarea: ratatui_textarea::TextArea<'static>,
}

/// The lines a text field holds.
pub uninterp spec fn text_field_lines(field: TextField) -> Seq<Seq<char>>;

/// The cursor of a text field as `(row, column)`, counted in characters.
pub uninterp spec fn text_field_cursor(field: TextField) -> (usize, usize);

/// Where the selection of a text field began, if one is being made; its
/// other end is the cursor.
pub uninterp spec fn text_field_anchor(field: TextField) -> Option<(usize, usize)>;

/// The lines of the text a field's yank buffer holds: one line for a piece
/// of a line, several for text that spanned line breaks.
pub uninterp spec fn text_field_yank(field: TextField) -> Seq<Seq<char>>;

/// The lines a field holds after `TextArea::undo` reverts its last change,
/// from its edit history.
pub uninterp spec fn text_field_undo_lines(field: TextField) -> Seq<Seq<char>>;

/// The lines a field holds after `TextArea::redo` applies the last undone
/// change again, from its edit history.
pub uninterp spec fn text_field_redo_lines(field: TextField) -> Seq<Seq<char>>;

/// Whether position `a` comes before `b`: an earlier row, or the same row and
/// an earlier column.
pub open spec fn pos_before(a: (usize, usize), b: (usize, usize)) -> bool {
    a.0 < b.0 || (a.0 == b.0 && a.1 < b.1)
}

/// The selection between `anchor` and `cursor`, earlier end first.
pub open spec fn selection_between(anchor: Option<(usize, usize)>, cursor: (usize, usize)) -> Option<
    ((usize, usize), (usize, usize)),
> {
    match anchor {
        None => None,
        Some(a) => if pos_before(cursor, a) {
            Some((cursor, a))
        } else {
            Some((a, cursor))
        },
    }
}

/// The selection of a text field from its earlier to its later end, if one
/// is being made.
pub open spec fn text_field_selection(field: TextField) -> Option<((usize, usize), (usize, usize))> {
    selection_between(text_field_anchor(field), text_field_cursor(field))
}

/// Whether `p` is a position in `lines`: on a line, at most at its end (the
/// lines, held in a `Vec` of `String`s, number at most `usize::MAX`, and so
/// do the characters of a line).
pub open spec fn valid_pos(lines: Seq<Seq<char>>, p: (usize, usize)) -> bool {
    &&& p.0 < lines.len() <= usize::MAX
    &&& p.1 <= lines[p.0 as int].len()
    &&& lines[p.0 as int].len() <= usize::MAX
}

/// Whether the cursor and the start of the selection lie within the text.
pub open spec fn in_text(field: TextField) -> bool {
    &&& valid_pos(text_field_lines(field), text_field_cursor(field))
    &&& text_field_anchor(field) matches Some(a) ==> valid_pos(text_field_lines(field), a)
}

/// `lines` with the text from `s` up to `e` removed (`s` before `e`).
pub open spec fn remove_span(lines: Seq<Seq<char>>, s: (usize, usize), e: (usize, usize)) -> Seq<Seq<char>> {
    let joined = lines[s.0 as int].take(s.1 as int) + lines[e.0 as int].skip(e.1 as int);
    lines.take(s.0 as int) + seq![joined] + lines.skip(e.0 + 1)
}

/// The lines and cursor after the selected text, if any, is deleted, as
/// every edit does first: the cursor goes to the start of the selection. A
/// selection whose ends meet deletes nothing.
pub open spec fn strip_selection(lines: Seq<Seq<char>>, anchor: Option<(usize, usize)>, cursor: (usize, usize)) -> (
    Seq<Seq<char>>,
    (usize, usize),
) {
    match selection_between(anchor, cursor) {
        Some((s, e)) => if s == e {
            (lines, cursor)
        } else {
            (remove_span(lines, s, e), s)
        },
        None => (lines, cursor),
    }
}

/// Whether something is selected: the ends of the selection differ.
pub open spec fn has_selection(field: TextField) -> bool {
    text_field_selection(field) matches Some((s, e)) && s != e
}

/// The lines and cursor of `field` once its selection is deleted.
pub open spec fn without_selection(field: TextField) -> (Seq<Seq<char>>, (usize, usize)) {
    strip_selection(text_field_lines(field), text_field_anchor(field), text_field_cursor(field))
}

/// `lines` with `c` inserted at `p`.
pub open spec fn insert_char_at(lines: Seq<Seq<char>>, p: (usize, usize), c: char) -> Seq<Seq<char>> {
    lines.update(p.0 as int, lines[p.0 as int].insert(p.1 as int, c))
}

/// `lines` with line `p.0` broken in two at column `p.1`.
pub open spec fn split_line_at(lines: Seq<Seq<char>>, p: (usize, usize)) -> Seq<Seq<char>> {
    let line = lines[p.0 as int];
    lines.take(p.0 as int) + seq![line.take(p.1 as int), line.skip(p.1 as int)] + lines.skip(p.0 + 1)
}

/// `lines` with line `r` and the next one joined, `between` in the middle.
pub open spec fn join_lines_at(lines: Seq<Seq<char>>, r: int, between: Seq<char>) -> Seq<Seq<char>> {
    lines.take(r) + seq![lines[r] + between + lines[r + 1]] + lines.skip(r + 2)
}

/// The lines and cursor after deleting the character before `p`: at the
/// start of a line, the line joins the one above; at the very start, nothing.
pub open spec fn delete_before(lines: Seq<Seq<char>>, p: (usize, usize)) -> (Seq<Seq<char>>, (usize, usize)) {
    if p.1 > 0 {
        (lines.update(p.0 as int, lines[p.0 as int].remove(p.1 - 1)), (p.0, (p.1 - 1) as usize))
    } else if p.0 > 0 {
        (join_lines_at(lines, p.0 - 1, Seq::empty()), ((p.0 - 1) as usize, lines[p.0 - 1].len() as usize))
    } else {
        (lines, p)
    }
}

/// The lines after deleting the character at `p`: at the end of a line, the
/// next line joins it; at the very end, nothing.
pub open spec fn delete_after(lines: Seq<Seq<char>>, p: (usize, usize)) -> Seq<Seq<char>> {
    if p.1 < lines[p.0 as int].len() {
        lines.update(p.0 as int, lines[p.0 as int].remove(p.1 as int))
    } else if p.0 + 1 < lines.len() {
        join_lines_at(lines, p.0 as int, Seq::empty())
    } else {
        lines
    }
}

/// A character the text area draws at least one cell wide: printable ASCII
/// or a tab.
pub open spec fn visible(c: char) -> bool {
    (' ' <= c && c <= '~') || c == '\t'
}

/// Whether a step forward from `p` is one character: `p` is at the end of
/// its line, or before a visible character. (Before a character drawn zero
/// cells wide, the text area measures on screen and may leave the line.)
pub open spec fn steps_forward(lines: Seq<Seq<char>>, p: (usize, usize)) -> bool {
    p.1 >= lines[p.0 as int].len() || visible(lines[p.0 as int][p.1 as int])
}

/// The position one step forward from `p`: the next character, else the
/// start of the next line, else `p` itself.
pub open spec fn forward_of(lines: Seq<Seq<char>>, p: (usize, usize)) -> (usize, usize) {
    if p.1 < lines[p.0 as int].len() {
        (p.0, (p.1 + 1) as usize)
    } else if p.0 + 1 < lines.len() {
        ((p.0 + 1) as usize, 0usize)
    } else {
        p
    }
}

/// `new` is `old` after its selection is deleted and a line break is
/// inserted where it was.
pub open spec fn newline_inserted(old: TextField, new: TextField) -> bool {
    let (lines, p) = without_selection(old);
    &&& text_field_lines(new) == split_line_at(lines, p)
    &&& text_field_cursor(new) == ((p.0 + 1) as usize, 0usize)
    &&& text_field_anchor(new) is None
}

/// `new` is `old` after the character at the cursor is deleted, or the
/// selection when there is one.
pub open spec fn next_char_deleted(old: TextField, new: TextField) -> bool {
    let (lines, p) = without_selection(old);
    &&& text_field_lines(new) == if has_selection(old) {
        lines
    } else {
        delete_after(text_field_lines(old), text_field_cursor(old))
    }
    &&& text_field_cursor(new) == p
    &&& text_field_anchor(new) is None
}

/// What a key other than a typed character does to a field whose cursor and
/// selection lie in the text, as far as it is stated: Enter breaks the line,
/// Backspace and Delete delete a character (or the selection); the arrow
/// keys, Home and End without Shift move the cursor and end the selection
/// (Left and Right past a visible character, Up and Down from the head of a
/// line).
pub open spec fn key_edited(old: TextField, new: TextField, key: TextInput) -> bool {
    let lines = text_field_lines(old);
    let cursor = text_field_cursor(old);
    if key.key == TextKey::Enter {
        newline_inserted(old, new)
    } else if key.key == TextKey::Backspace && !key.ctrl && !key.alt {
        let (l, p) = if has_selection(old) { without_selection(old) } else { delete_before(lines, cursor) };
        text_field_lines(new) == l && text_field_cursor(new) == p && text_field_anchor(new) is None
    } else if key.key == TextKey::Delete && !key.ctrl && !key.alt {
        has_selection(old) || steps_forward(lines, cursor) ==> next_char_deleted(old, new)
    } else if key.key == TextKey::Right && !key.ctrl && !key.alt && !key.shift {
        steps_forward(lines, cursor) ==> {
            &&& text_field_lines(new) == lines
            &&& text_field_cursor(new) == forward_of(lines, cursor)
            &&& text_field_anchor(new) == if forward_of(lines, cursor) == cursor {
                text_field_anchor(old)
            } else {
                None
            }
        }
    } else if key.key == TextKey::Left && !key.ctrl && !key.alt && !key.shift {
        cursor.1 > 0 && visible(lines[cursor.0 as int][cursor.1 - 1]) ==> {
            &&& text_field_lines(new) == lines
            &&& text_field_cursor(new) == (cursor.0, (cursor.1 - 1) as usize)
            &&& text_field_anchor(new) is None
        }
    } else if (key.key == TextKey::Up || key.key == TextKey::Down) && !key.ctrl && !key.alt && !key.shift {
        let target = if key.key == TextKey::Down {
            if cursor.0 + 1 < lines.len() {
                ((cursor.0 + 1) as usize, 0usize)
            } else {
                cursor
            }
        } else if cursor.0 > 0 {
            ((cursor.0 - 1) as usize, 0usize)
        } else {
            cursor
        };
        cursor.1 == 0 ==> {
            &&& text_field_lines(new) == lines
            &&& text_field_cursor(new) == target
            &&& text_field_anchor(new) == if target == cursor {
                text_field_anchor(old)
            } else {
                None
            }
        }
    } else if (key.key == TextKey::Home || key.key == TextKey::End) && !key.shift {
        &&& text_field_lines(new) == lines
        &&& text_field_cursor(new) == if key.key == TextKey::Home {
            (cursor.0, 0usize)
        } else {
            (cursor.0, lines[cursor.0 as int].len() as usize)
        }
        &&& text_field_anchor(new) is None
    } else {
        true
    }
}

/// The text a field shows while it is empty (`TextArea::placeholder_text`);
/// the empty text means that no placeholder is shown.
pub uninterp spec fn text_field_placeholder(field: TextField) -> Seq<char>;

/// Whether `text` holds no line break, so that it stands as one line.
pub open spec fn one_line(text: Seq<char>) -> bool {
    !text.contains('\n') && !text.contains('\r')
}

/// Whether a key types a character: a character other than a line break,
/// without Ctrl or Alt.
pub open spec fn types_char(key: TextInput) -> bool {
    key.key matches TextKey::Char(c) && c != '\n' && c != '\r' && !key.ctrl && !key.alt
}

/// Whether typing into `field` is described by `char_typed`: nothing is
/// selected and the cursor is on a line.
pub open spec fn plain_cursor(field: TextField) -> bool {
    &&& text_field_selection(field) is None
    &&& text_field_cursor(field).0 < text_field_lines(field).len()
    &&& text_field_cursor(field).1 < usize::MAX
}

/// `new` is `old` after typing `c`: the character is inserted at the cursor
/// (at the end of the line when the cursor is past it) and the cursor moves
/// one character on.
pub open spec fn char_typed(old: TextField, new: TextField, c: char) -> bool {
    let (row, col) = text_field_cursor(old);
    let line = text_field_lines(old)[row as int];
    let at = if col <= line.len() { col as int } else { line.len() as int };
    &&& text_field_lines(new) == text_field_lines(old).update(row as int, line.insert(at, c))
    &&& text_field_cursor(new) == (row, (col + 1) as usize)
    &&& text_field_selection(new) is None
}

/// What a key does to a field, as far as it is stated: a typed character
/// is inserted at the cursor.
pub open spec fn key_typed(old: TextField, new: TextField, key: TextInput) -> bool {
    &&& types_char(key) && plain_cursor(old) ==> char_typed(old, new, key.key->Char_0)
    &&& in_text(old) ==> key_edited(old, new, key)
}

/// The lines of a text field joined by newlines.
pub open spec fn join_lines(lines: Seq<Seq<char>>) -> Seq<char>
    decreases lines.len(),
{
    if lines.len() == 0 {
        Seq::empty()
    } else if lines.len() == 1 {
        lines[0]
    } else {
        join_lines(lines.drop_last()) + seq!['\n'] + lines.last()
    }
}

/// The text of a field: its lines joined by newlines.
pub open spec fn field_text(field: TextField) -> Seq<char> {
    join_lines(text_field_lines(field))
}

impl TextField {
    /// An empty field (`TextArea::default`): a single empty line, the cursor
    /// at its start, nothing selected, no placeholder, an empty yank buffer.
    #[verifier::external_body]
    pub(crate) fn new() -> (field: Self)
        ensures
            text_field_lines(field) == seq![Seq::<char>::empty()],
            text_field_cursor(field) == (0usize, 0usize),
            text_field_anchor(field) is None,
            text_field_placeholder(field) == Seq::<char>::empty(),
            text_field_yank(field) == seq![Seq::<char>::empty()],
    {
        TextField { textarea: ratatui_textarea::TextArea::default() }
    }

    /// The lines of the field (`TextArea::lines`).
    #[verifier::external_body]
    pub(crate) fn lines(&self) -> (lines: Vec<String>)
        ensures
            lines@.map_values(|line: String| line@) == text_field_lines(*self),
    {
        self.textarea.lines().to_vec()
    }

    /// Inserts text at the cursor (`TextArea::insert_str`). Into an empty
    /// field, text without line breaks and without a trailing carriage
    /// return becomes the single line, with the cursor after it and nothing
    /// selected; other cases are not stated.
    #[verifier::external_body]
    pub(crate) fn insert_str(&mut self, text: &str) -> (modified: bool)
        ensures
            text_field_lines(*old(self)) == seq![Seq::<char>::empty()] && !text@.contains('\n') && (
            text@.len() == 0 || text@.last() != '\r') ==> text_field_lines(*final(self)) == seq![
                text@,
            ] && text_field_cursor(*final(self)) == (0usize, text@.len() as usize) && text_field_anchor(
                *final(self),
            ) is None,
    {
        self.textarea.insert_str(text)
    }

    /// Hands a key press to the text area (`TextArea::input`). A character
    /// other than a line break, without Ctrl or Alt, is inserted at the
    /// cursor when nothing is selected; Enter, Backspace, Delete, the arrow
    /// keys, Home and End do what `key_edited` says. Other keys, a step over a
    /// character drawn zero cells wide, and Up or Down away from the head of
    /// a line are not stated.
    #[verifier::external_body]
    pub(crate) fn input(&mut self, input: TextInput) -> (modified: bool)
        ensures
            key_typed(*old(self), *final(self), input),
    {
        let key = match input.key {
            TextKey::Char(c) => K::Char(c), TextKey::F(n) => K::F(n),
            TextKey::Backspace => K::Backspace, TextKey::Enter => K::Enter,
            TextKey::Left => K::Left, TextKey::Right => K::Right,
            TextKey::Up => K::Up, TextKey::Down => K::Down,
            TextKey::Tab | TextKey::BackTab => K::Tab, TextKey::Delete => K::Delete,
            TextKey::Home => K::Home, TextKey::End => K::End,
            TextKey::PageUp => K::PageUp, TextKey::PageDown => K::PageDown,
            TextKey::Esc => K::Esc, TextKey::Null => K::Null,
        };
        self.textarea.input(ratatui_textarea::Input { key, ctrl: input.ctrl, alt: input.alt, shift: input.shift })
    }
}

impl TextField {
    /// The cursor (`TextArea::cursor`), named `text_field_cursor`; the text
    /// area keeps it on a line, at most at the line's end.
    #[verifier::external_body]
    pub(crate) fn cursor(&self) -> (cursor: (usize, usize))
        ensures
            cursor == text_field_cursor(*self),
            valid_pos(text_field_lines(*self), cursor),
    {
        let ratatui_textarea::DataCursor(row, col) = self.textarea.cursor();
        (row, col)
    }

    /// The selection (`TextArea::selection_range`), named `text_field_selection`;
    /// the text area puts its earlier end first.
    #[verifier::external_body]
    pub(crate) fn selection_range(&self) -> (range: Option<((usize, usize), (usize, usize))>)
        ensures
            range == text_field_selection(*self),
            range matches Some((s, e)) ==> s.0 <= e.0,
    {
        self.textarea.selection_range()
    }

    /// Sets the text shown while the field is empty
    /// (`TextArea::set_placeholder_text`); the lines, cursor and selection do
    /// not change. The placeholder becomes `placeholder` when that is empty or
    /// a single line; of a text with line breaks the field keeps only its
    /// first line, which is left unstated here.
    #[verifier::external_body]
    pub(crate) fn set_placeholder(&mut self, placeholder: &str)
        ensures
            text_field_lines(*final(self)) == text_field_lines(*old(self)),
            text_field_cursor(*final(self)) == text_field_cursor(*old(self)),
            text_field_anchor(*final(self)) == text_field_anchor(*old(self)),
            one_line(placeholder@) ==> text_field_placeholder(*final(self)) == placeholder@,
    {
        self.textarea.set_placeholder_text(placeholder)
    }
}

/// An empty one-line field showing `placeholder` while empty.
pub fn single_line_textarea(placeholder: &str) -> (field: TextField)
    ensures
        text_field_lines(field) == seq![Seq::<char>::empty()],
        text_field_cursor(field) == (0usize, 0usize),
        text_field_selection(field) is None,
        one_line(placeholder@) ==> text_field_placeholder(field) == placeholder@,
{
    let mut field = TextField::new();
    field.set_placeholder(placeholder);
    field
}

/// The text of a field: its lines joined by newlines.
pub fn textarea_value(field: &TextField) -> (text: String)
    ensures
        text@ == field_text(*field),
{
    let lines = field.lines();
    let ghost ls = lines@.map_values(|line: String| line@);
    let mut text = String::new();
    let mut i: usize = 0;
    while i < lines.len()
        invariant
            i <= lines.len(),
            ls == lines@.map_values(|line: String| line@),
            text@ == join_lines(ls.take(i as int)),
        decreases lines.len() - i,
    {
        assert(ls.take(i + 1).drop_last() =~= ls.take(i as int));
        if i > 0 {
            push_char(&mut text, '\n');
        } else {
            assert(ls.take(0) =~= Seq::<Seq<char>>::empty());
        }
        text.append(lines[i].as_str());
        i = i + 1;
    }
    assert(ls.take(i as int) =~= ls);
    text
}

#[derive(Clone, Copy, Debug, Eq, PartialEq, Structural)]
pub enum HealthOperation {
    Add,
    Subtract,
}

#[derive(Clone, Copy, Debug, Eq, PartialEq, Structural)]
pub enum NewCreatureField {
    Name,
    Initiative,
    Ac,
    Health,
    Count,
}

impl NewCreatureField {
    /// The field after this one, wrapping from the last to the first.
    pub open spec fn spec_next(self) -> NewCreatureField {
        match self {
            NewCreatureField::Name => NewCreatureField::Initiative,
            NewCreatureField::Initiative => NewCreatureField::Ac,
            NewCreatureField::Ac => NewCreatureField::Health,
            NewCreatureField::Health => NewCreatureField::Count,
            NewCreatureField::Count => NewCreatureField::Name,
        }
    }

    /// The field before this one, wrapping from the first to the last.
    pub open spec fn spec_previous(self) -> NewCreatureField {
        match self {
            NewCreatureField::Name => NewCreatureField::Count,
            NewCreatureField::Initiative => NewCreatureField::Name,
            NewCreatureField::Ac => NewCreatureField::Initiative,
            NewCreatureField::Health => NewCreatureField::Ac,
            NewCreatureField::Count => NewCreatureField::Health,
        }
    }

    pub fn next(self) -> (field: Self)
        ensures
            field == self.spec_next(),
    {
        match self {
            Self::Name => Self::Initiative,
            Self::Initiative => Self::Ac,
            Self::Ac => Self::Health,
            Self::Health => Self::Count,
            Self::Count => Self::Name,
        }
    }

    pub fn previous(self) -> (field: Self)
        ensures
            field == self.spec_previous(),
    {
        match self {
            Self::Name => Self::Count,
            Self::Initiative => Self::Name,
            Self::Ac => Self::Initiative,
            Self::Health => Self::Ac,
            Self::Count => Self::Health,
        }
    }
}

/// Moving to the next field and back, or back and then on, returns to the
/// same field; five steps forward go all the way round.
pub proof fn lemma_field_focus_cycle(field: NewCreatureField)
    ensures
        field.spec_next().spec_previous() == field,
        field.spec_previous().spec_next() == field,
        field.spec_next().spec_next().spec_next().spec_next().spec_next() == field,
{
}


/// Health to add to or take from the targets.
pub struct HealthInput {
    pub operation: HealthOperation,
    pub target_ids: Vec<CreatureId>,
    pub textarea: TextField,
    pub error: Option<String>,
}

/// A new initiative for the targets.
pub struct InitiativeInput {
    pub target_ids: Vec<CreatureId>,
    pub textarea: TextField,
    pub error: Option<String>,
}

/// A new name for one creature.
pub struct RenameInput {
    pub target_id: CreatureId,
    pub textarea: TextField,
    pub error: Option<String>,
}

/// The five fields of the new-creature form.
pub struct NewCreatureFields {
    pub name: TextField,
    pub initiative: TextField,
    pub ac: TextField,
    pub health: TextField,
    pub count: TextField,
}

/// The new-creature form: its fields, the focused one, and the last error.
pub struct NewCreatureForm {
    pub fields: NewCreatureFields,
    pub active_field: NewCreatureField,
    pub error: Option<String>,
}

/// What the form asks to create.
pub struct ParsedNewCreature {
    pub name: String,
    pub initiative: Option<i32>,
    pub ac: Option<i32>,
    pub health: i32,
    pub count: usize,
}

/// Which popup, if any, is open.
pub enum AppMode {
    Normal,
    HealthInput(HealthInput),
    InitiativeInput(InitiativeInput),
    RenameInput(RenameInput),
    NewCreature(NewCreatureForm),
}

/// A field holding one empty line, with the cursor at its start and nothing
/// selected.
pub open spec fn empty_field(field: TextField) -> bool {
    &&& text_field_lines(field) == seq![Seq::<char>::empty()]
    &&& text_field_cursor(field) == (0usize, 0usize)
    &&& text_field_selection(field) is None
}

impl HealthInput {
    pub fn new(operation: HealthOperation, target_ids: Vec<CreatureId>) -> (input: Self)
        ensures
            input.operation == operation,
            input.target_ids == target_ids,
            empty_field(input.textarea),
            input.error is None,
    {
        Self { operation, target_ids, textarea: single_line_textarea(""), error: None }
    }
}

impl InitiativeInput {
    pub fn new(target_ids: Vec<CreatureId>) -> (input: Self)
        ensures
            input.target_ids == target_ids,
            empty_field(input.textarea),
            input.error is None,
    {
        Self { target_ids, textarea: single_line_textarea("Initiative"), error: None }
    }
}

impl RenameInput {
    /// A rename popup holding the current name.
    pub fn new(target_id: CreatureId, current_name: &str) -> (input: Self)
        ensures
            input.target_id == target_id,
            !current_name@.contains('\n') && (current_name@.len() == 0 || current_name@.last() != '\r')
                ==> text_field_lines(input.textarea) == seq![current_name@] && text_field_cursor(input.textarea)
                == (0usize, current_name@.len() as usize) && text_field_selection(input.textarea) is None,
            input.error is None,
    {
        let mut textarea = single_line_textarea("Name");
        textarea.insert_str(current_name);
        Self { target_id, textarea, error: None }
    }
}

/// The field of the form that `field` names.
pub open spec fn field_of(fields: NewCreatureFields, field: NewCreatureField) -> TextField {
    match field {
        NewCreatureField::Name => fields.name,
        NewCreatureField::Initiative => fields.initiative,
        NewCreatureField::Ac => fields.ac,
        NewCreatureField::Health => fields.health,
        NewCreatureField::Count => fields.count,
    }
}

/// The fields with the one that `field` names replaced.
pub open spec fn with_field(fields: NewCreatureFields, field: NewCreatureField, t: TextField) -> NewCreatureFields {
    match field {
        NewCreatureField::Name => NewCreatureFields { name: t, ..fields },
        NewCreatureField::Initiative => NewCreatureFields { initiative: t, ..fields },
        NewCreatureField::Ac => NewCreatureFields { ac: t, ..fields },
        NewCreatureField::Health => NewCreatureFields { health: t, ..fields },
        NewCreatureField::Count => NewCreatureFields { count: t, ..fields },
    }
}

/// What the form's texts ask for: a trimmed, non-empty name; an optional
/// initiative; an optional positive AC; a positive health; an optional
/// positive count, one when blank. The first problem found, in that order,
/// is the error.
pub open spec fn spec_parse_new_creature(
    name: Seq<char>,
    initiative: Seq<char>,
    ac: Seq<char>,
    health: Seq<char>,
    count: Seq<char>,
) -> Result<(Seq<char>, Option<i32>, Option<i32>, i32, usize), Seq<char>> {
    let n = trim_chars(name);
    if n.len() == 0 {
        Err("name is required"@)
    } else {
        match spec_parse_optional_i32(initiative, "initiative"@) {
            Err(e) => Err(e),
            Ok(i) => match spec_parse_optional_positive_i32(ac, "AC"@) {
                Err(e) => Err(e),
                Ok(a) => match spec_parse_positive_i32(health, "health"@) {
                    Err(e) => Err(e),
                    Ok(h) => match spec_parse_optional_positive_usize(count, "count"@) {
                        Err(e) => Err(e),
                        Ok(c) => Ok((n, i, a, h, if c is Some { c->0 } else { 1 })),
                    },
                },
            },
        }
    }
}

/// The parts of a parsed new creature.
pub open spec fn parsed_view(p: ParsedNewCreature) -> (Seq<char>, Option<i32>, Option<i32>, i32, usize) {
    (p.name@, p.initiative, p.ac, p.health, p.count)
}

/// What the form's fields ask for.
pub open spec fn form_request(fields: NewCreatureFields) -> Result<(Seq<char>, Option<i32>, Option<i32>, i32, usize), Seq<char>> {
    spec_parse_new_creature(
        field_text(fields.name),
        field_text(fields.initiative),
        field_text(fields.ac),
        field_text(fields.health),
        field_text(fields.count),
    )
}

/// Every field of a form has its cursor at the start and nothing selected.
pub open spec fn form_fields_at_start(fields: NewCreatureFields) -> bool {
    &&& text_field_cursor(fields.name) == (0usize, 0usize) && text_field_selection(fields.name) is None
    &&& text_field_cursor(fields.initiative) == (0usize, 0usize) && text_field_selection(fields.initiative) is None
    &&& text_field_cursor(fields.ac) == (0usize, 0usize) && text_field_selection(fields.ac) is None
    &&& text_field_cursor(fields.health) == (0usize, 0usize) && text_field_selection(fields.health) is None
    &&& text_field_cursor(fields.count) == (0usize, 0usize) && text_field_selection(fields.count) is None
}

impl NewCreatureForm {
    /// An empty form with the name field focused, each field showing what it
    /// asks for while empty.
    pub fn new() -> (form: Self)
        ensures
            text_field_lines(form.fields.name) == seq![Seq::<char>::empty()],
            text_field_lines(form.fields.initiative) == seq![Seq::<char>::empty()],
            text_field_lines(form.fields.ac) == seq![Seq::<char>::empty()],
            text_field_lines(form.fields.health) == seq![Seq::<char>::empty()],
            text_field_lines(form.fields.count) == seq![Seq::<char>::empty()],
            form.active_field == NewCreatureField::Name,
            form.error is None,
            text_field_placeholder(form.fields.name) == "Name"@,
            text_field_placeholder(form.fields.initiative) == "Initiative (optional)"@,
            text_field_placeholder(form.fields.ac) == "AC (optional)"@,
            text_field_placeholder(form.fields.health) == "Health"@,
            text_field_placeholder(form.fields.count) == "Count (optional)"@,
            form_fields_at_start(form.fields),
    {
        proof {
            reveal_strlit("Name");
            reveal_strlit("Initiative (optional)");
            reveal_strlit("AC (optional)");
            reveal_strlit("Health");
            reveal_strlit("Count (optional)");
        }
        Self {
            fields: NewCreatureFields {
                name: single_line_textarea("Name"),
                initiative: single_line_textarea("Initiative (optional)"),
                ac: single_line_textarea("AC (optional)"),
                health: single_line_textarea("Health"),
                count: single_line_textarea("Count (optional)"),
            },
            active_field: NewCreatureField::Name,
            error: None,
        }
    }

    /// The focused field, for editing.
    pub fn active_textarea_mut(&mut self) -> (field: &mut TextField)
        ensures
            *field == field_of(old(self).fields, old(self).active_field),
            *final(self) == (NewCreatureForm {
                fields: with_field(old(self).fields, old(self).active_field, *final(field)),
                ..*old(self)
            }),
    {
        match self.active_field {
            NewCreatureField::Name => &mut self.fields.name,
            NewCreatureField::Initiative => &mut self.fields.initiative,
            NewCreatureField::Ac => &mut self.fields.ac,
            NewCreatureField::Health => &mut self.fields.health,
            NewCreatureField::Count => &mut self.fields.count,
        }
    }

    /// Reads the form.
    pub fn parse(&self) -> (parsed: Result<ParsedNewCreature, String>)
        ensures
            match parsed {
                Ok(p) => form_request(self.fields) == Ok::<_, Seq<char>>(parsed_view(p)),
                Err(e) => form_request(self.fields) == Err::<(Seq<char>, Option<i32>, Option<i32>, i32, usize), _>(e@),
            },
    {
        let name = trim(textarea_value(&self.fields.name).as_str());
        if name.as_str().is_empty() {
            proof {
                reveal_strlit("name is required");
            }
            return Err(String::from_str("name is required"));
        }
        proof {
            reveal_strlit("initiative");
            reveal_strlit("AC");
            reveal_strlit("health");
            reveal_strlit("count");
        }
        let initiative = match parse_optional_i32(textarea_value(&self.fields.initiative), "initiative") {
            Ok(v) => v,
            Err(e) => return Err(e),
        };
        let ac = match parse_optional_positive_i32(textarea_value(&self.fields.ac), "AC") {
            Ok(v) => v,
            Err(e) => return Err(e),
        };
        let health = match parse_positive_i32(textarea_value(&self.fields.health), "health") {
            Ok(v) => v,
            Err(e) => return Err(e),
        };
        let count = match parse_optional_positive_usize(textarea_value(&self.fields.count), "count") {
            Ok(Some(c)) => c,
            Ok(None) => 1,
            Err(e) => return Err(e),
        };
        Ok(ParsedNewCreature { name, initiative, ac, health, count })
    }
}

impl Default for NewCreatureForm {
    fn default() -> (form: Self)
        ensures
            text_field_lines(form.fields.name) == seq![Seq::<char>::empty()],
            text_field_lines(form.fields.initiative) == seq![Seq::<char>::empty()],
            text_field_lines(form.fields.ac) == seq![Seq::<char>::empty()],
            text_field_lines(form.fields.health) == seq![Seq::<char>::empty()],
            text_field_lines(form.fields.count) == seq![Seq::<char>::empty()],
            form.active_field == NewCreatureField::Name,
            form.error is None,
            text_field_placeholder(form.fields.name) == "Name"@,
            text_field_placeholder(form.fields.initiative) == "Initiative (optional)"@,
            text_field_placeholder(form.fields.ac) == "AC (optional)"@,
            text_field_placeholder(form.fields.health) == "Health"@,
            text_field_placeholder(form.fields.count) == "Count (optional)"@,
            form_fields_at_start(form.fields),
    {
        Self::new()
    }
}

} // verus!
