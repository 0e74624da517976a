//! Operations on text that the rest of the library shares, over the characters of a string.

use vstd::prelude::*;

verus! {

/// `String::push`: appends one character.
pub assume_specification[ String::push ](text: &mut String, character: char)
    ensures
        final(text)@ == old(text)@.push(character),
;

/// The characters of each text of a list.
pub open spec fn texts(list: Seq<String>) -> Seq<Seq<char>> {
    list.map_values(|text: String| text@)
}

/// The characters of a text that may be missing.
pub open spec fn optional_text(text: Option<String>) -> Option<Seq<char>> {
    match text {
        Some(text) => Some(text@),
        None => None,
    }
}

/// The characters of `text`.
pub fn characters(text: &str) -> (list: Vec<char>)
    ensures
        list@ == text@,
{
    let mut list: Vec<char> = Vec::new();
    for character in iter: text.chars()
        invariant
            iter.seq() == text@,
            list@ == text@.take(iter.index()),
    {
        list.push(character);
        proof {
            assert(text@.take(iter.index() + 1) =~= text@.take(iter.index()).push(character));
        }
    }
    proof {
        assert(text@.take(text@.len() as int) =~= text@);
    }
    list
}

/// The text of the characters of `list` from `start` up to `end`.
pub fn text_of(list: &[char], start: usize, end: usize) -> (text: String)
    requires
        start <= end <= list@.len(),
    ensures
        text@ == list@.subrange(start as int, end as int),
{
    let mut text = String::new();
    let mut i: usize = start;
    while i < end
        invariant
            start <= i <= end <= list@.len(),
            text@ == list@.subrange(start as int, i as int),
        decreases end - i,
    {
        text.push(list[i]);
        proof {
            assert(list@.subrange(start as int, i + 1) =~= list@.subrange(
                start as int,
                i as int,
            ).push(list@[i as int]));
        }
        i = i + 1;
    }
    text
}

/// The decimal digit of a number below ten.
pub open spec fn digit(value: nat) -> char {
    (48 + value) as char
}

/// The decimal digits of `value`, without leading zeros.
pub open spec fn decimal_digits(value: nat) -> Seq<char>
    decreases value,
{
    if value < 10 {
        seq![digit(value)]
    } else {
        decimal_digits(value / 10).push(digit(value % 10))
    }
}

/// `value` written in decimal.
pub fn decimal(value: u64) -> (text: String)
    ensures
        text@ == decimal_digits(value as nat),
    decreases value,
{
    let last: char = (48u8 + (value % 10) as u8) as char;
    if value < 10 {
        let mut text = String::new();
        text.push(last);
        proof {
            assert(text@ =~= seq![digit(value as nat)]);
        }
        text
    } else {
        let mut text = decimal(value / 10);
        text.push(last);
        text
    }
}

/// Whether a character is a decimal digit.
pub open spec fn is_digit(character: char) -> bool {
    '0' <= character && character <= '9'
}

/// The number that decimal digits write.
pub open spec fn digits_value(digits: Seq<char>) -> nat
    decreases digits.len(),
{
    if digits.len() == 0 {
        0
    } else {
        10 * digits_value(digits.drop_last()) + (digits.last() as nat - 48) as nat
    }
}

/// The decimal digits of a number are digits, at least one, and read back as the number.
pub proof fn a_number_reads_back(value: nat)
    ensures
        decimal_digits(value).len() > 0,
        forall|i: int|
            0 <= i < decimal_digits(value).len() ==> is_digit(#[trigger] decimal_digits(value)[i]),
        digits_value(decimal_digits(value)) == value,
    decreases value,
{
    let digits = decimal_digits(value);
    if value < 10 {
        assert(digits.drop_last() =~= Seq::empty());
        assert(digits_value(digits.drop_last()) == 0);
    } else {
        a_number_reads_back(value / 10);
        assert(digits.drop_last() =~= decimal_digits(value / 10));
    }
}

/// `text` without a leading plus sign.
pub open spec fn unsigned_part(text: Seq<char>) -> Seq<char> {
    if text.len() > 0 && text[0] == '+' {
        text.drop_first()
    } else {
        text
    }
}

/// The number of 64 bits that a text writes: decimal digits, which a plus sign may come before.
pub open spec fn number_of(text: Seq<char>) -> Option<u64> {
    let digits = unsigned_part(text);
    if digits.len() > 0 && (forall|i: int| 0 <= i < digits.len() ==> is_digit(#[trigger] digits[i]))
        && digits_value(digits) <= u64::MAX {
        Some(digits_value(digits) as u64)
    } else {
        None
    }
}

/// More digits write no smaller number.
proof fn lemma_digits_grow(digits: Seq<char>, length: int)
    requires
        0 <= length <= digits.len(),
        forall|i: int| 0 <= i < digits.len() ==> is_digit(#[trigger] digits[i]),
    ensures
        digits_value(digits.take(length)) <= digits_value(digits),
    decreases digits.len(),
{
    if length < digits.len() {
        lemma_digits_grow(digits.drop_last(), length);
        assert(digits.drop_last().take(length) =~= digits.take(length));
    } else {
        assert(digits.take(length) =~= digits);
    }
}

/// The number of 64 bits that `text` writes, if it writes one.
pub fn parse_number(text: &str) -> (number: Option<u64>)
    ensures
        number == number_of(text@),
{
    let list = characters(text);
    let length: usize = list.len();
    let start: usize = if length > 0 && list[0] == '+' {
        1
    } else {
        0
    };
    let ghost digits = unsigned_part(text@);
    if start == length {
        return None;
    }
    let mut number: u64 = 0;
    let mut i: usize = start;
    proof {
        assert(digits.take(0) =~= Seq::empty());
    }
    while i < length
        invariant
            start <= i <= length == list@.len(),
            start <= 1,
            list@ == text@,
            digits == text@.skip(start as int),
            digits == unsigned_part(text@),
            forall|j: int| 0 <= j < i - start ==> is_digit(#[trigger] digits[j]),
            number == digits_value(digits.take(i - start)),
        decreases length - i,
    {
        let character: char = list[i];
        assert(character == digits[i - start]);
        if !('0' <= character && character <= '9') {
            return None;
        }
        let value: u64 = (character as u8 - 48) as u64;
        proof {
            assert(digits.take(i - start + 1).drop_last() =~= digits.take(i - start));
            if forall|j: int| 0 <= j < digits.len() ==> is_digit(#[trigger] digits[j]) {
                lemma_digits_grow(digits, i - start + 1);
            }
        }
        if number > u64::MAX / 10 || number * 10 > u64::MAX - value {
            return None;
        }
        number = number * 10 + value;
        i = i + 1;
    }
    proof {
        assert(digits.take(length - start) =~= digits);
    }
    Some(number)
}

/// The decimal digits of `value`, behind a minus sign if it is negative.
pub open spec fn signed_digits(value: int) -> Seq<char> {
    if value < 0 {
        "-"@ + decimal_digits((-value) as nat)
    } else {
        decimal_digits(value as nat)
    }
}

/// `value` written in decimal.
pub fn decimal_signed(value: i32) -> (text: String)
    ensures
        text@ == signed_digits(value as int),
{
    if value < 0 {
        "-".to_owned().concat(decimal((-(value as i64)) as u64).as_str())
    } else {
        decimal(value as u64)
    }
}

/// The texts of `list` one after the other, with `separator` between two of them.
pub open spec fn joined_texts(list: Seq<Seq<char>>, separator: Seq<char>) -> Seq<char>
    decreases list.len(),
{
    if list.len() == 0 {
        Seq::empty()
    } else if list.len() == 1 {
        list[0]
    } else {
        joined_texts(list.drop_last(), separator) + separator + list.last()
    }
}

/// The texts of `list` one after the other, with `separator` between two of them.
pub fn join_texts(list: &Vec<String>, separator: &str) -> (text: String)
    ensures
        text@ == joined_texts(texts(list@), separator@),
{
    let count: usize = list.len();
    if count == 0 {
        return String::new();
    }
    let mut text = list[0].clone();
    let mut i: usize = 1;
    while i < count
        invariant
            1 <= i <= count == list@.len(),
            text@ == joined_texts(texts(list@).take(i as int), separator@),
        decreases count - i,
    {
        text.append(separator);
        text.append(list[i].as_str());
        proof {
            assert(texts(list@).take(i + 1).drop_last() =~= texts(list@).take(i as int));
        }
        i = i + 1;
    }
    proof {
        assert(texts(list@).take(count as int) =~= texts(list@));
    }
    text
}

/// An ASCII capital as a small letter, any other character as it is.
pub open spec fn ascii_small(character: char) -> char {
    if 'A' <= character && character <= 'Z' {
        (character as u32 + 32) as char
    } else {
        character
    }
}

/// `text` with its ASCII capitals as small letters.
pub open spec fn ascii_lower(text: Seq<char>) -> Seq<char> {
    text.map_values(|character: char| ascii_small(character))
}

/// A small ASCII letter as a capital, any other character as it is.
pub open spec fn ascii_capital(character: char) -> char {
    if 'a' <= character && character <= 'z' {
        (character as u32 - 32) as char
    } else {
        character
    }
}

/// `text` with its small ASCII letters as capitals.
pub open spec fn ascii_upper(text: Seq<char>) -> Seq<char> {
    text.map_values(|character: char| ascii_capital(character))
}

/// `text` with its ASCII capitals as small letters.
pub fn ascii_lowercase(text: &str) -> (lower: String)
    ensures
        lower@ == ascii_lower(text@),
{
    let mut lower = String::new();
    for character in iter: text.chars()
        invariant
            iter.seq() == text@,
            lower@ == ascii_lower(text@).take(iter.index()),
    {
        if 'A' <= character && character <= 'Z' {
            lower.push((character as u8 + 32) as char);
        } else {
            lower.push(character);
        }
        proof {
            assert(ascii_lower(text@).take(iter.index() + 1) =~= ascii_lower(text@).take(
                iter.index(),
            ).push(ascii_small(character)));
        }
    }
    proof {
        assert(ascii_lower(text@).take(text@.len() as int) =~= ascii_lower(text@));
    }
    lower
}

/// Whether a character has the Unicode `White_Space` property: tab to carriage return, space, next
/// line, the spaces without a break, the spaces of typography, and the separators of lines and
/// paragraphs.
pub open spec fn is_white_space(character: char) -> bool {
    ||| '\u{9}' <= character && character <= '\u{d}'
    ||| character == ' ' || character == '\u{85}' || character == '\u{a0}'
    ||| character == '\u{1680}'
    ||| '\u{2000}' <= character && character <= '\u{200a}'
    ||| character == '\u{2028}' || character == '\u{2029}' || character == '\u{202f}'
    ||| character == '\u{205f}' || character == '\u{3000}'
}

/// Calls `char::is_whitespace`. Claimed of it: it answers whether the character has the Unicode
/// `White_Space` property.
#[verifier::external_body]
fn white_space(character: char) -> (answer: bool)
    ensures
        answer == is_white_space(character),
{
    character.is_whitespace()
}

/// `text` without the white space at its start.
pub open spec fn trimmed_start(text: Seq<char>) -> Seq<char>
    decreases text.len(),
{
    if text.len() > 0 && is_white_space(text[0]) {
        trimmed_start(text.drop_first())
    } else {
        text
    }
}

/// `text` without the white space at its end.
pub open spec fn trimmed_end(text: Seq<char>) -> Seq<char>
    decreases text.len(),
{
    if text.len() > 0 && is_white_space(text.last()) {
        trimmed_end(text.drop_last())
    } else {
        text
    }
}

/// `text` without the white space at its start and at its end.
pub open spec fn trimmed(text: Seq<char>) -> Seq<char> {
    trimmed_end(trimmed_start(text))
}

/// A text without white space at its start and at its end starts and ends with another character, if
/// anything is left of it. One that does so is left as it is.
pub proof fn lemma_trimmed(text: Seq<char>)
    ensures
        trimmed(text).len() > 0 ==> !is_white_space(trimmed(text)[0]) && !is_white_space(
            trimmed(text).last(),
        ),
        text.len() > 0 && !is_white_space(text[0]) && !is_white_space(text.last()) ==> trimmed(text)
            == text,
{
    lemma_trimmed_start(text);
    lemma_trimmed_end(trimmed_start(text));
}

/// A text without white space at its start starts with another character.
proof fn lemma_trimmed_start(text: Seq<char>)
    ensures
        trimmed_start(text).len() > 0 ==> !is_white_space(trimmed_start(text)[0]),
    decreases text.len(),
{
    if text.len() > 0 && is_white_space(text[0]) {
        lemma_trimmed_start(text.drop_first());
    }
}

/// A text without white space at its end ends with another character, and starts as it did.
proof fn lemma_trimmed_end(text: Seq<char>)
    ensures
        trimmed_end(text).len() > 0 ==> !is_white_space(trimmed_end(text).last()) && text.len() > 0
            && trimmed_end(text)[0] == text[0],
    decreases text.len(),
{
    if text.len() > 0 && is_white_space(text.last()) {
        lemma_trimmed_end(text.drop_last());
    }
}

/// `text` without the white space at its start and at its end.
pub fn trim(text: &str) -> (part: String)
    ensures
        part@ == trimmed(text@),
{
    let list = characters(text);
    let length: usize = list.len();
    let mut start: usize = 0;
    proof {
        assert(text@.skip(0) =~= text@);
    }
    while start < length && white_space(list[start])
        invariant
            start <= length == list@.len(),
            list@ == text@,
            trimmed_start(text@) == trimmed_start(text@.skip(start as int)),
        ensures
            start <= length,
            trimmed_start(text@) == text@.skip(start as int),
        decreases length - start,
    {
        proof {
            assert(text@.skip(start as int).drop_first() =~= text@.skip(start + 1));
        }
        start = start + 1;
    }
    let mut end: usize = length;
    proof {
        assert(text@.subrange(start as int, end as int) =~= text@.skip(start as int));
    }
    while start < end && white_space(list[end - 1])
        invariant
            start <= end <= length == list@.len(),
            list@ == text@,
            trimmed(text@) == trimmed_end(text@.subrange(start as int, end as int)),
        ensures
            start <= end <= length,
            trimmed(text@) == text@.subrange(start as int, end as int),
        decreases end,
    {
        proof {
            assert(text@.subrange(start as int, end as int).drop_last() =~= text@.subrange(
                start as int,
                end - 1,
            ));
        }
        end = end - 1;
    }
    text_of(list.as_slice(), start, end)
}

/// What formatting a text with `{:?}` gives: the text in double quotes, with escapes.
pub uninterp spec fn debug_text(text: Seq<char>) -> Seq<char>;

/// Formats `text` with the `Debug` implementation of `str`. Claimed of it: the result depends on
/// the characters of the text alone.
#[verifier::external_body]
pub(crate) fn quoted(text: &str) -> (quote: String)
    ensures
        quote@ == debug_text(text@),
{
    format!("{:?}", text)
}

/// Whether `part` stands in `text` at `offset`.
pub open spec fn part_at(text: Seq<char>, part: Seq<char>, offset: int) -> bool {
    0 <= offset <= text.len() - part.len() && text.subrange(offset, offset + part.len()) == part
}

/// Whether `part` stands anywhere in `text`.
pub open spec fn holds_part(text: Seq<char>, part: Seq<char>) -> bool {
    exists|offset: int| part_at(text, part, offset)
}

/// Whether the characters of `part` stand in `list` at `offset`.
pub fn stands_at(list: &[char], part: &[char], offset: usize) -> (found: bool)
    ensures
        found == part_at(list@, part@, offset as int),
{
    let length: usize = list.len();
    let width: usize = part.len();
    if width > length || offset > length - width {
        return false;
    }
    let mut i: usize = 0;
    while i < width
        invariant
            i <= width == part@.len(),
            offset + width <= length == list@.len(),
            list@.subrange(offset as int, offset + i) == part@.take(i as int),
        decreases width - i,
    {
        if list[offset + i] != part[i] {
            proof {
                let ghost there = list@.subrange(offset as int, offset + width);
                assert(there[i as int] == list@[offset + i]);
            }
            return false;
        }
        proof {
            assert(list@.subrange(offset as int, offset + i + 1) =~= list@.subrange(
                offset as int,
                offset + i,
            ).push(list@[offset + i]));
            assert(part@.take(i + 1) =~= part@.take(i as int).push(part@[i as int]));
        }
        i = i + 1;
    }
    proof {
        assert(part@.take(width as int) =~= part@);
    }
    true
}

/// Whether two texts hold the same characters.
pub fn same_text(left: &str, right: &str) -> (same: bool)
    ensures
        same == (left@ == right@),
{
    let list = characters(left);
    let other = characters(right);
    if list.len() != other.len() {
        return false;
    }
    proof {
        assert(left@.subrange(0, left@.len() as int) =~= left@);
    }
    stands_at(list.as_slice(), other.as_slice(), 0)
}

/// Whether `text` starts with `part`.
pub fn starts_with(text: &str, part: &str) -> (found: bool)
    ensures
        found == part_at(text@, part@, 0),
{
    stands_at(characters(text).as_slice(), characters(part).as_slice(), 0)
}

/// Whether `part` stands anywhere in `text`.
pub fn contains_text(text: &str, part: &str) -> (found: bool)
    ensures
        found == holds_part(text@, part@),
{
    let list = characters(text);
    let wanted = characters(part);
    let length: usize = list.len();
    let width: usize = wanted.len();
    if width > length {
        return false;
    }
    let mut offset: usize = 0;
    while offset <= length - width
        invariant
            offset <= length - width + 1,
            width <= length,
            width == wanted@.len() == part@.len(),
            length == list@.len(),
            list@ == text@,
            wanted@ == part@,
            forall|i: int| 0 <= i < offset ==> !part_at(text@, part@, i),
        decreases length - offset,
    {
        if stands_at(list.as_slice(), wanted.as_slice(), offset) {
            return true;
        }
        if offset == length - width {
            return false;
        }
        offset = offset + 1;
    }
    false
}

/// Whether one of the lines of `text` that starts at `start` is `line`, a text that is not empty and
/// holds no line break. A line ends with the text, or with a line feed that a carriage return may
/// come before.
pub open spec fn line_at(text: Seq<char>, line: Seq<char>, start: int) -> bool {
    let end = start + line.len();
    &&& part_at(text, line, start)
    &&& start == 0 || text[start - 1] == '\n'
    &&& end == text.len() || text[end] == '\n' || (end + 1 < text.len() && text[end] == '\r'
        && text[end + 1] == '\n')
}

/// Whether one of the lines of `text` is `line`.
pub open spec fn holds_line(text: Seq<char>, line: Seq<char>) -> bool {
    exists|start: int| line_at(text, line, start)
}

/// Whether one of the lines of `text` is `line`, a text that is not empty and holds no line break.
pub fn has_line(text: &str, line: &str) -> (found: bool)
    ensures
        found == holds_line(text@, line@),
{
    let list = characters(text);
    let wanted = characters(line);
    let length: usize = list.len();
    let width: usize = wanted.len();
    let mut start: usize = 0;
    while start <= length && width <= length - start
        invariant
            start <= length + 1,
            width == wanted@.len() == line@.len(),
            length == list@.len(),
            list@ == text@,
            wanted@ == line@,
            forall|i: int| 0 <= i < start ==> !line_at(text@, line@, i),
        decreases length + 1 - start,
    {
        if (start == 0 || list[start - 1] == '\n') && stands_at(
            list.as_slice(),
            wanted.as_slice(),
            start,
        ) {
            let end: usize = start + width;
            if end == length || list[end] == '\n' || (list[end] == '\r' && length - end >= 2
                && list[end + 1] == '\n') {
                proof {
                    assert(line_at(text@, line@, start as int));
                }
                return true;
            }
        }
        if start == length {
            return false;
        }
        start = start + 1;
    }
    false
}

} // verus!
