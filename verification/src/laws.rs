//! What the texts of the library are.

use vstd::prelude::*;

use crate::command::{arms_of, conversions_of, expansion, is_first_bad, CommandVariant};
use crate::profile::{is_last_build, PathPart};
use crate::text::{
    a_number_reads_back, ascii_lower, ascii_upper, decimal_digits, holds_line, holds_part, is_digit,
    is_white_space, joined_texts, line_at, number_of, part_at, signed_digits, trimmed, trimmed_end,
    trimmed_start, unsigned_part,
};
use crate::types::{
    hex_digit, hex_digits, Address, BranchId, ContentHash, Context, RepositoryId,
};

verus! {

/// A number that is written down is read as that number, with a plus sign before it too, up to the
/// largest of 64 bits; a larger one is not read, nor is a text that holds anything but digits.
pub proof fn a_number_that_is_written_is_read(value: nat, text: Seq<char>, at: int)
    ensures
        value <= u64::MAX ==> number_of(decimal_digits(value)) == Some(value as u64),
        value <= u64::MAX ==> number_of(seq!['+'] + decimal_digits(value)) == Some(value as u64),
        value > u64::MAX ==> number_of(decimal_digits(value)) is None,
        text.len() == 0 ==> number_of(text) is None,
        0 < at < text.len() && !('0' <= text[at] <= '9') ==> number_of(text) is None,
        text.len() > 0 && !('0' <= text[0] <= '9') && text[0] != '+' ==> number_of(text) is None,
        text == seq!['+'] ==> number_of(text) is None,
{
    let digits = decimal_digits(value);
    a_number_reads_back(value);
    assert(is_digit(digits[0]));
    assert(unsigned_part(digits) == digits);
    assert((seq!['+'] + digits).drop_first() =~= digits);
    let rest = unsigned_part(text);
    if 0 < at < text.len() && !('0' <= text[at] <= '9') {
        if text[0] == '+' {
            assert(rest[at - 1] == text[at]);
        } else {
            assert(rest[at] == text[at]);
        }
    }
    if text.len() > 0 && !('0' <= text[0] <= '9') && text[0] != '+' {
        assert(rest[0] == text[0]);
    }
}

/// A number below zero is written with a sign before its digits, and another without one.
pub proof fn a_sign_is_written_below_zero(value: int)
    ensures
        value >= 0 ==> signed_digits(value) == decimal_digits(value as nat),
        value < 0 ==> signed_digits(value).len() > 0 && signed_digits(value)[0] == '-'
            && signed_digits(value).drop_first() == decimal_digits((-value) as nat),
{
    reveal_strlit("-");
    if value < 0 {
        assert(signed_digits(value).drop_first() =~= decimal_digits((-value) as nat));
    }
}

/// Texts are joined in order, with the separator between each two of them and nowhere else.
pub proof fn texts_are_joined_in_order(
    front: Seq<Seq<char>>,
    back: Seq<Seq<char>>,
    separator: Seq<char>,
)
    ensures
        front.len() == 0 ==> joined_texts(front, separator).len() == 0,
        front.len() == 1 ==> joined_texts(front, separator) == front[0],
        front.len() > 0 && back.len() > 0 ==> joined_texts(front + back, separator) == joined_texts(
            front,
            separator,
        ) + separator + joined_texts(back, separator),
    decreases back.len(),
{
    if front.len() > 0 && back.len() > 0 {
        let all = front + back;
        assert(all.drop_last() =~= front + back.drop_last());
        if back.len() == 1 {
            assert(all.drop_last() =~= front);
        } else {
            texts_are_joined_in_order(front, back.drop_last(), separator);
            assert(joined_texts(front, separator) + separator + joined_texts(
                back.drop_last(),
                separator,
            ) + separator + back.last() =~= joined_texts(front, separator) + separator + (
            joined_texts(back.drop_last(), separator) + separator + back.last()));
        }
    }
}

/// Writing in small letters changes the letters from A to Z alone, each to the small letter that is 32
/// places on, and writing in capitals those from a to z, each to the one 32 places back.
pub proof fn only_letters_change_their_case(text: Seq<char>, at: int)
    requires
        0 <= at < text.len(),
    ensures
        ascii_lower(text).len() == text.len() && ascii_upper(text).len() == text.len(),
        'A' <= text[at] <= 'Z' ==> ascii_lower(text)[at] as int == text[at] as int + 32,
        !('A' <= text[at] <= 'Z') ==> ascii_lower(text)[at] == text[at],
        'a' <= text[at] <= 'z' ==> ascii_upper(text)[at] as int == text[at] as int - 32,
        !('a' <= text[at] <= 'z') ==> ascii_upper(text)[at] == text[at],
{
}

/// White space is what Unicode counts as such.
pub proof fn white_space_is_what_unicode_counts(character: char)
    ensures
        is_white_space(character) <==> {
            let point = character as u32;
            9 <= point <= 13 || point == 32 || point == 133 || point == 160 || point == 5760 || 8192
                <= point <= 8202 || point == 8232 || point == 8233 || point == 8239 || point == 8287
                || point == 12288
        },
{
}

/// Trimming takes white space off both ends, and nothing else.
pub proof fn trimming_takes_white_space_off_both_ends(
    before: Seq<char>,
    text: Seq<char>,
    after: Seq<char>,
)
    requires
        forall|i: int| 0 <= i < before.len() ==> is_white_space(#[trigger] before[i]),
        forall|i: int| 0 <= i < after.len() ==> is_white_space(#[trigger] after[i]),
        text.len() == 0 || (!is_white_space(text[0]) && !is_white_space(text.last())),
    ensures
        trimmed(before + text + after) == text,
{
    let whole = before + text + after;
    assert(whole =~= before + (text + after));
    lemma_start_is_taken_off(before, text + after);
    if text.len() > 0 {
        assert((text + after)[0] == text[0]);
        assert(trimmed_start(text + after) == text + after);
        lemma_end_is_taken_off(text, after);
        assert(trimmed_end(text) == text);
    } else {
        assert(text + after =~= after + Seq::empty());
        lemma_start_is_taken_off(after, Seq::empty());
        assert(trimmed_start(Seq::<char>::empty()) =~= Seq::empty());
        assert(trimmed_end(Seq::<char>::empty()) =~= Seq::empty());
        assert(text =~= Seq::empty());
    }
}

proof fn lemma_start_is_taken_off(before: Seq<char>, text: Seq<char>)
    requires
        forall|i: int| 0 <= i < before.len() ==> is_white_space(#[trigger] before[i]),
    ensures
        trimmed_start(before + text) == trimmed_start(text),
    decreases before.len(),
{
    if before.len() > 0 {
        assert((before + text)[0] == before[0]);
        assert((before + text).drop_first() =~= before.drop_first() + text);
        lemma_start_is_taken_off(before.drop_first(), text);
    } else {
        assert(before + text =~= text);
    }
}

proof fn lemma_end_is_taken_off(text: Seq<char>, after: Seq<char>)
    requires
        forall|i: int| 0 <= i < after.len() ==> is_white_space(#[trigger] after[i]),
    ensures
        trimmed_end(text + after) == trimmed_end(text),
    decreases after.len(),
{
    if after.len() > 0 {
        assert((text + after).last() == after.last());
        assert((text + after).drop_last() =~= text + after.drop_last());
        lemma_end_is_taken_off(text, after.drop_last());
    } else {
        assert(text + after =~= text);
    }
}

/// A text holds each of its parts, wherever the part stands, and no longer text.
pub proof fn a_text_holds_its_parts(before: Seq<char>, part: Seq<char>, after: Seq<char>)
    ensures
        holds_part(before + part + after, part),
        part_at(before + part + after, part, before.len() as int),
        before.len() > 0 ==> !holds_part(part, before + part),
{
    let text = before + part + after;
    assert(text.subrange(before.len() as int, before.len() as int + part.len()) =~= part);
    assert(part_at(text, part, before.len() as int));
}

/// A text holds a line that stands between two ends of a line, or at its own ends. A line may end with a
/// carriage return before the line feed; it is not held by a text that has no room for it.
pub proof fn a_text_holds_its_lines(before: Seq<char>, line: Seq<char>, after: Seq<char>)
    ensures
        holds_line(line, line),
        holds_line(before + seq!['\n'] + line + seq!['\n'] + after, line),
        holds_line(before + seq!['\n'] + line + seq!['\r', '\n'] + after, line),
        holds_line(line + seq!['\n'] + after, line),
        holds_line(before + seq!['\n'] + line, line),
        before.len() > 0 && before.last() != '\n' ==> !line_at(
            before + line,
            line,
            before.len() as int,
        ),
        after.len() > 0 && after[0] != '\n' && after[0] != '\r' ==> !line_at(line + after, line, 0),
{
    assert(line.subrange(0, line.len() as int) =~= line);
    assert(line_at(line, line, 0));
    let start = before.len() + 1;
    let end = start + line.len();
    let first = before + seq!['\n'] + line + seq!['\n'] + after;
    assert(first.subrange(start as int, end as int) =~= line);
    assert(line_at(first, line, start as int));
    let second = before + seq!['\n'] + line + seq!['\r', '\n'] + after;
    assert(second.subrange(start as int, end as int) =~= line);
    assert(line_at(second, line, start as int));
    let third = line + seq!['\n'] + after;
    assert(third.subrange(0, line.len() as int) =~= line);
    assert(line_at(third, line, 0));
    let fourth = before + seq!['\n'] + line;
    assert(fourth.subrange(start as int, end as int) =~= line);
    assert(line_at(fourth, line, start as int));
}

/// The value of a hexadecimal digit.
pub open spec fn hex_value(digit: char) -> int {
    if '0' <= digit <= '9' {
        digit as int - '0' as int
    } else {
        digit as int - 'a' as int + 10
    }
}

/// Bytes are written as two small hexadecimal digits each, the higher first, in order: so the text of an
/// identity tells the identity.
pub proof fn bytes_are_written_in_hex(bytes: Seq<u8>, at: int)
    requires
        0 <= at < bytes.len(),
    ensures
        hex_digits(bytes).len() == 2 * bytes.len(),
        16 * hex_value(hex_digits(bytes)[2 * at]) + hex_value(hex_digits(bytes)[2 * at + 1])
            == bytes[at],
        0 <= hex_value(hex_digits(bytes)[2 * at]) < 16,
        0 <= hex_value(hex_digits(bytes)[2 * at + 1]) < 16,
    decreases bytes.len(),
{
    lemma_hex_length(bytes);
    let front = bytes.drop_last();
    lemma_hex_length(front);
    let last = bytes.last();
    assert(hex_digits(bytes) == hex_digits(front).push(hex_digit(last / 16)).push(
        hex_digit(last % 16),
    ));
    if at < front.len() {
        bytes_are_written_in_hex(front, at);
        assert(front[at] == bytes[at]);
    }
}

proof fn lemma_hex_length(bytes: Seq<u8>)
    ensures
        hex_digits(bytes).len() == 2 * bytes.len(),
    decreases bytes.len(),
{
    if bytes.len() > 0 {
        lemma_hex_length(bytes.drop_last());
    }
}

/// Two addresses that are written alike are the same bytes: the hash, a dash and the context.
pub proof fn an_address_is_told_by_its_text(first: Address, second: Address)
    requires
        first.text() == second.text(),
    ensures
        first.hash.data@ == second.hash.data@,
        first.context.data@ == second.context.data@,
        first.text().len() == 97 && first.text()[64] == '-',
{
    reveal_strlit("-");
    lemma_hex_length(first.hash.data@);
    lemma_hex_length(first.context.data@);
    lemma_hex_length(second.hash.data@);
    lemma_hex_length(second.context.data@);
    assert(first.hash.text() =~= first.text().take(64));
    assert(second.hash.text() =~= second.text().take(64));
    assert(first.context.text() =~= first.text().skip(65));
    assert(second.context.text() =~= second.text().skip(65));
    assert forall|i: int| 0 <= i < 32 implies first.hash.data@[i] == second.hash.data@[i] by {
        bytes_are_written_in_hex(first.hash.data@, i);
        bytes_are_written_in_hex(second.hash.data@, i);
    }
    assert forall|i: int| 0 <= i < 16 implies first.context.data@[i] == second.context.data@[i] by {
        bytes_are_written_in_hex(first.context.data@, i);
        bytes_are_written_in_hex(second.context.data@, i);
    }
    assert(first.hash.data@ =~= second.hash.data@);
    assert(first.context.data@ =~= second.context.data@);
}

/// An identity is zero where each of its bytes is.
pub proof fn zero_is_every_byte_zero(
    hash: ContentHash,
    context: Context,
    repository: RepositoryId,
    branch: BranchId,
    at: int,
)
    ensures
        hash.is_zero() && 0 <= at < 32 ==> hash.data@[at] == 0,
        0 <= at < 32 && hash.data@[at] != 0 ==> !hash.is_zero(),
        context.is_zero() && 0 <= at < 16 ==> context.data@[at] == 0,
        0 <= at < 16 && context.data@[at] != 0 ==> !context.is_zero(),
        0 <= at < 16 && repository.is_zero() ==> repository.data@[at] == 0,
        0 <= at < 16 && branch.is_zero() ==> branch.data@[at] == 0,
        repository.data@ == Seq::new(16, |i: int| 0u8) ==> repository.is_zero(),
        branch.data@ == Seq::new(16, |i: int| 0u8) ==> branch.is_zero(),
        hash.data@ == Seq::new(32, |i: int| 0u8) ==> hash.is_zero(),
        context.data@ == Seq::new(16, |i: int| 0u8) ==> context.is_zero(),
{
}

/// What is written for a command is an arm and a conversion for each of its variants, in order: each
/// further variant adds its own behind those before it.
pub proof fn each_variant_is_written(
    name: Seq<char>,
    variants: Seq<CommandVariant>,
    variant: CommandVariant,
)
    ensures
        arms_of(name, variants.push(variant)) == arms_of(name, variants) + (name + "::"@
            + variant.ident@
            + "(args) => { crate::args::invoke_args(args, globals, callback).await }\n"@),
        variant.args_type matches Some(args_type) ==> conversions_of(name, variants.push(variant))
            == conversions_of(name, variants) + ("impl From<"@ + args_type@ + "> for "@ + name
            + " { fn from(args: "@ + args_type@ + ") -> Self { "@ + name + "::"@ + variant.ident@
            + "(args) } }\n"@),
        arms_of(name, Seq::empty()).len() == 0,
        conversions_of(name, Seq::empty()).len() == 0,
        holds_part(expansion(name, variants), arms_of(name, variants)),
        part_at(
            expansion(name, variants),
            conversions_of(name, variants),
            expansion(name, variants).len() - conversions_of(name, variants).len(),
        ),
        part_at(expansion(name, variants), "impl "@ + name, 0),
{
    assert(variants.push(variant).drop_last() =~= variants);
    let before = "impl "@ + name
        + " { pub async fn invoke_local(self, globals: crate::interface::LoreGlobalArgs, callback: crate::interface::LoreEventCallback) -> i32 { match self {\n"@;
    let arms = arms_of(name, variants);
    let after = "} } }\n"@ + conversions_of(name, variants);
    assert(expansion(name, variants) =~= before + arms + after);
    a_text_holds_its_parts(before, arms, after);
    let front = before + arms + "} } }\n"@;
    let end = conversions_of(name, variants);
    assert(expansion(name, variants) =~= front + end + Seq::empty());
    a_text_holds_its_parts(front, end, Seq::empty());
    let opening = "impl "@ + name;
    let rest = expansion(name, variants).skip(opening.len() as int);
    assert(expansion(name, variants) =~= Seq::empty() + opening + rest);
    a_text_holds_its_parts(Seq::empty(), opening, rest);
}

/// Of the parts of a path one at most is the last that is named `build`, with names alone behind it.
pub proof fn one_part_is_the_last_build(parts: Seq<PathPart>, first: int, second: int)
    requires
        is_last_build(parts, first),
        is_last_build(parts, second),
    ensures
        first == second,
        parts[first] matches PathPart::Name(name) && name@ == "build"@,
        forall|i: int|
            first < i < parts.len() ==> ((#[trigger] parts[i]) matches PathPart::Name(name)
                && name@ != "build"@),
{
    if first < second {
        assert(parts[second] is Name);
    } else if second < first {
        assert(parts[first] is Name);
    }
}

/// A number is written in tens, the highest first: one more digit at the end is ten times the number and
/// the digit.
pub proof fn a_number_is_written_in_tens(value: nat, unit: nat)
    requires
        unit < 10,
    ensures
        value > 0 ==> decimal_digits(10 * value + unit).len() == decimal_digits(value).len() + 1
            && decimal_digits(10 * value + unit).drop_last() == decimal_digits(value),
        decimal_digits(10 * value + unit).last() as int == '0' as int + unit,
        decimal_digits(unit).len() == 1,
{
    let whole = 10 * value + unit;
    assert(whole / 10 == value && whole % 10 == unit);
    if value > 0 {
        assert(decimal_digits(whole).drop_last() =~= decimal_digits(value));
    }
}

/// Each identity is written as its bytes.
pub proof fn an_identity_is_written_as_its_bytes(
    hash: ContentHash,
    context: Context,
    repository: RepositoryId,
    branch: BranchId,
)
    ensures
        hash.text() == hex_digits(hash.data@),
        context.text() == hex_digits(context.data@),
        repository.text() == hex_digits(repository.data@),
        branch.text() == hex_digits(branch.data@),
{
}

/// A command is refused for the first of its variants that has not the one argument it needs.
pub proof fn one_variant_is_the_first_bad(variants: Seq<CommandVariant>, first: int, second: int)
    requires
        is_first_bad(variants, first),
        is_first_bad(variants, second),
    ensures
        first == second,
        variants[first].args_type is None,
        forall|i: int| 0 <= i < first ==> (#[trigger] variants[i]).args_type is Some,
{
    if first < second {
        assert(variants[first].args_type is Some);
    } else if second < first {
        assert(variants[second].args_type is Some);
    }
}

} // verus!
