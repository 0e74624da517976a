//! What the properties of a node are.

use vstd::bytes::{
    lemma_auto_spec_u32_to_from_le_bytes, spec_u32_from_le_bytes, spec_u32_to_le_bytes,
};
use vstd::prelude::*;
use vstd::utf8::{encode_utf8, is_ascii_chars, is_ascii_chars_encode_utf8};

use super::map::{holds_key, in_order, map_of, precedes};
use super::{
    blake3_hash, framed, holds_control, is_control, key_bytes, is_found, lowered, prop_problem, props_in, props_preimage, PropsBlob,
    PROPS_KEY_PREFIX,
};
use crate::text::{a_number_reads_back, ascii_lower, decimal_digits, holds_part, is_digit};

verus! {

/// A property can be set where its key is not empty and has at most 256 bytes, its value has at most
/// 4096, neither holds a control character, and the node has it or has fewer than 256. The first of
/// these that does not hold is told.
pub proof fn a_property_is_set_within_its_limits(
    key: Seq<char>,
    value: Seq<char>,
    existing: Map<Seq<char>, Seq<char>>,
)
    ensures
        ({
            let problem = prop_problem(key, value, existing);
            let empty = key.len() == 0;
            let long_key = encode_utf8(key).len() > 256;
            let long_value = encode_utf8(value).len() > 4096;
            let control = holds_control(key) || holds_control(value);
            let full = !existing.dom().contains(key) && existing.len() >= 256;
            &&& problem is None <==> !empty && !long_key && !long_value && !control && !full
            &&& empty ==> problem == Some("property key must not be empty"@)
            &&& !empty && long_key ==> problem == Some("property key exceeds 256 bytes"@)
            &&& !empty && !long_key && long_value ==> problem == Some(
                "property value exceeds 4096 bytes"@,
            )
            &&& !empty && !long_key && !long_value && control ==> problem == Some(
                "property keys and values must not contain control characters"@,
            )
            &&& !empty && !long_key && !long_value && !control && full ==> problem == Some(
                "a node holds at most 256 properties"@,
            )
        }),
{
}

/// Control characters are those below the space, and those from the delete character up to the end of
/// the second block of controls.
pub proof fn control_characters_are_two_blocks(text: Seq<char>, at: int)
    ensures
        0 <= at < text.len() ==> (is_control(text[at]) <==> (text[at] as int) < 32 || 127 <= (
        text[at] as int) <= 159),
        0 <= at < text.len() && is_control(text[at]) ==> holds_control(text),
        (forall|i: int| 0 <= i < text.len() ==> !is_control(#[trigger] text[i])) ==> !holds_control(
            text,
        ),
{
}

/// A blob holds the properties of a node where it has the layout that is known and names that node, and
/// else none.
pub proof fn a_blob_holds_the_properties_of_its_node(node_id: u32, blob: PropsBlob)
    ensures
        blob.v == 1 && blob.node_id == node_id ==> props_in(node_id, Some(blob)) == Some(blob.props@),
        blob.v != 1 ==> props_in(node_id, Some(blob)) is None,
        blob.node_id != node_id ==> props_in(node_id, Some(blob)) is None,
        props_in(node_id, None) is None,
{
}

/// What the key of a node is made of: twenty bytes that are the same for all nodes, and the four bytes of
/// its number, the lowest first.
pub proof fn a_key_is_made_of_the_number(node_id: u32)
    ensures
        key_bytes(node_id) == blake3_hash(props_preimage(node_id)),
        props_preimage(node_id).len() == 24,
        props_preimage(node_id).take(20) == PROPS_KEY_PREFIX@,
        spec_u32_from_le_bytes(props_preimage(node_id).skip(20)) == node_id,
{
    lemma_auto_spec_u32_to_from_le_bytes();
    assert(props_preimage(node_id).take(20) =~= PROPS_KEY_PREFIX@);
    assert(props_preimage(node_id).skip(20) =~= spec_u32_to_le_bytes(node_id));
}

/// Keys are in the order of their first different characters, and one comes before what it is the start
/// of.
pub proof fn keys_are_ordered_by_their_first_difference(
    start: Seq<char>,
    first: char,
    one: Seq<char>,
    second: char,
    two: Seq<char>,
)
    ensures
        first < second ==> precedes(start + seq![first] + one, start + seq![second] + two),
        first < second ==> !precedes(start + seq![second] + two, start + seq![first] + one),
        precedes(start, start + seq![first] + one),
        !precedes(start + seq![first] + one, start),
        !precedes(start, start),
    decreases start.len(),
{
    let left = start + seq![first] + one;
    let right = start + seq![second] + two;
    if start.len() > 0 {
        keys_are_ordered_by_their_first_difference(start.drop_first(), first, one, second, two);
        assert(left.drop_first() =~= start.drop_first() + seq![first] + one);
        assert(right.drop_first() =~= start.drop_first() + seq![second] + two);
        assert(left[0] == start[0] && right[0] == start[0]);
    } else {
        assert(left[0] == first && right[0] == second);
    }
}

/// A search finds what the text holds once it is in small letters, and finds nothing for nothing.
pub proof fn a_search_finds_what_is_there(
    haystack: Seq<char>,
    before: Seq<char>,
    needle: Seq<char>,
    after: Seq<char>,
)
    ensures
        needle.len() > 0 && lowered(haystack) == before + needle + after ==> is_found(
            haystack,
            needle,
        ),
        needle.len() == 0 ==> !is_found(haystack, needle),
        is_found(haystack, needle) ==> holds_part(lowered(haystack), needle),
        is_ascii_chars(haystack) ==> lowered(haystack) == ascii_lower(haystack),
{
    crate::laws::a_text_holds_its_parts(before, needle, after);
}

/// The text that stands before the properties in a blob.
pub open spec fn blob_opening(node_id: u32) -> Seq<char> {
    "{\"v\":1,\"node_id\":"@ + decimal_digits(node_id as nat) + ",\"props\":"@
}

/// A blob is a text: the layout, the number of its node in digits, and the properties, in braces.
pub proof fn a_blob_names_its_node_before_its_properties(node_id: u32, json: Seq<u8>)
    ensures
        framed(node_id, json).len() == blob_opening(node_id).len() + json.len() + 1,
        framed(node_id, json).take(blob_opening(node_id).len() as int) == blob_opening(
            node_id,
        ).map_values(|character: char| character as u8),
        framed(node_id, json).skip(blob_opening(node_id).len() as int) == json + seq![125u8],
{
    reveal_strlit("{\"v\":1,\"node_id\":");
    reveal_strlit(",\"props\":");
    reveal_strlit("}");
    let digits = decimal_digits(node_id as nat);
    a_number_reads_back(node_id as nat);
    assert(is_ascii_chars(digits)) by {
        assert forall|i: int| 0 <= i < digits.len() implies is_digit(#[trigger] digits[i]) by {}
    }
    let first = "{\"v\":1,\"node_id\":"@;
    let second = ",\"props\":"@;
    assert(is_ascii_chars(first) && is_ascii_chars(second) && is_ascii_chars("}"@));
    is_ascii_chars_encode_utf8(first);
    is_ascii_chars_encode_utf8(second);
    is_ascii_chars_encode_utf8("}"@);
    is_ascii_chars_encode_utf8(digits);
    let opening = blob_opening(node_id);
    let blob = framed(node_id, json);
    assert(blob.take(opening.len() as int) =~= opening.map_values(
        |character: char| character as u8,
    ));
    assert(encode_utf8("}"@) =~= seq![125u8]);
    assert(blob.skip(opening.len() as int) =~= json + seq![125u8]);
}

/// A list of properties in order is a map: each key is mapped to the value beside it, and no other key is
/// mapped.
pub proof fn a_list_in_order_is_a_map(
    entries: Seq<(Seq<char>, Seq<char>)>,
    at: int,
    key: Seq<char>,
)
    requires
        in_order(entries),
    ensures
        0 <= at < entries.len() ==> map_of(entries).dom().contains(entries[at].0) && map_of(
            entries,
        )[entries[at].0] == entries[at].1,
        (forall|i: int| 0 <= i < entries.len() ==> (#[trigger] entries[i]).0 != key) ==> !map_of(
            entries,
        ).dom().contains(key),
{
    if 0 <= at < entries.len() {
        assert(holds_key(entries, entries[at].0));
        let i = choose|i: int|
            0 <= i < entries.len() && (#[trigger] entries[i]).0 == entries[at].0;
        keys_are_ordered_by_their_first_difference(
            entries[at].0,
            'a',
            Seq::empty(),
            'b',
            Seq::empty(),
        );
        assert(i == at) by {
            if i < at {
                assert(precedes(entries[i].0, entries[at].0));
            } else if at < i {
                assert(precedes(entries[at].0, entries[i].0));
            }
        }
    }
}

} // verus!
