//! Custom properties of nodes: a text under a text key, set by users.
//!
//! The properties of a node are one blob of JSON in the immutable store,
//! `{"v":1,"node_id":N,"props":{…}}`. A key of the mutable store, derived from the node id, points
//! to it. A blob says which node it belongs to and which layout it has, so that no other content is
//! ever taken for it. Equal properties make equal bytes, which are stored once.

pub mod laws;
pub mod map;

use std::collections::BTreeMap;
use vstd::bytes::{
    lemma_auto_spec_u32_to_from_le_bytes, spec_u32_from_le_bytes, spec_u32_to_le_bytes,
    u32_to_le_bytes,
};
use vstd::prelude::*;
use vstd::utf8::{encode_utf8, is_ascii_chars, is_ascii_chars_encode_utf8};

use crate::text::{
    a_number_reads_back, ascii_lower, ascii_upper, characters, contains_text, decimal,
    decimal_digits, holds_part, is_digit, part_at,
};
use crate::types::{ContentHash, Context};
use map::{in_order, map_of, pairs, Prop, Props};

verus! {

/// What every property key starts with before it is hashed: `lore-drive:props:v1:`. The layout has
/// its version in it, so that another layout can be told apart.
pub const PROPS_KEY_PREFIX: [u8; 20] = [
    0x6c, 0x6f, 0x72, 0x65, 0x2d, 0x64, 0x72, 0x69, 0x76, 0x65, 0x3a, 0x70, 0x72, 0x6f, 0x70, 0x73,
    0x3a, 0x76, 0x31, 0x3a,
];

/// The layout of blobs.
pub const PROPS_BLOB_VERSION: u32 = 1;

/// How many bytes a key may have.
pub const MAX_PROP_KEY_LEN: usize = 256;

/// How many bytes a value may have.
pub const MAX_PROP_VALUE_LEN: usize = 4096;

/// How many properties a node may have.
pub const MAX_PROPS_PER_NODE: usize = 256;

/// The properties of a node, as they are stored.
#[derive(Debug, PartialEq, Eq)]
pub struct PropsBlob {
    /// The layout.
    pub v: u32,
    /// The node that the properties belong to.
    pub node_id: u32,
    pub props: Props,
}

impl Clone for PropsBlob {
    fn clone(&self) -> (same: PropsBlob)
        ensures
            same.v == self.v,
            same.node_id == self.node_id,
            same.props@ == self.props@,
    {
        PropsBlob { v: self.v, node_id: self.node_id, props: self.props.clone() }
    }
}

/// What `blake3::hash` makes of bytes.
pub uninterp spec fn blake3_hash(bytes: Seq<u8>) -> Seq<u8>;

/// Calls `blake3::hash`. Claimed of it: the hash depends on the bytes alone, and has 32 bytes.
#[verifier::external_body]
fn hash_buffer(bytes: &[u8]) -> (hash: [u8; 32])
    ensures
        hash@ == blake3_hash(bytes@),
{
    *blake3::hash(bytes).as_bytes()
}

/// What is hashed for the key of the properties of a node.
pub open spec fn props_preimage(node_id: u32) -> Seq<u8> {
    PROPS_KEY_PREFIX@ + spec_u32_to_le_bytes(node_id)
}

/// What is hashed differs from node to node.
pub proof fn preimages_are_distinct(first: u32, second: u32)
    requires
        props_preimage(first) == props_preimage(second),
    ensures
        first == second,
{
    lemma_auto_spec_u32_to_from_le_bytes();
    assert(props_preimage(first).skip(20) =~= spec_u32_to_le_bytes(first));
    assert(props_preimage(second).skip(20) =~= spec_u32_to_le_bytes(second));
    assert(spec_u32_from_le_bytes(spec_u32_to_le_bytes(first)) == first);
    assert(spec_u32_from_le_bytes(spec_u32_to_le_bytes(second)) == second);
}

/// The bytes of the key that the properties of a node are found under.
pub open spec fn key_bytes(node_id: u32) -> Seq<u8> {
    blake3_hash(props_preimage(node_id))
}

/// The key of the mutable store that the properties of a node are found under.
pub fn props_key(node_id: u32) -> (key: ContentHash)
    ensures
        key.data@ == key_bytes(node_id),
{
    let mut buffer: Vec<u8> = Vec::new();
    buffer.extend_from_slice(PROPS_KEY_PREFIX.as_slice());
    let number: Vec<u8> = u32_to_le_bytes(node_id);
    buffer.extend_from_slice(number.as_slice());
    proof {
        assert(buffer@ =~= props_preimage(node_id));
    }
    ContentHash { data: hash_buffer(buffer.as_slice()) }
}

/// The context that the blob of a node is stored for: the first half of its key, so that the address
/// of the blob follows from the node id and the hash of the blob.
pub fn props_context(node_id: u32) -> (context: Context)
    ensures
        context.data@ == key_bytes(node_id).take(16),
{
    let key = props_key(node_id);
    let mut data: [u8; 16] = [0u8; 16];
    let mut i: usize = 0;
    while i < 16
        invariant
            i <= 16,
            forall|j: int| 0 <= j < i ==> data@[j] == key.data@[j],
        decreases 16 - i,
    {
        data[i] = key.data[i];
        i = i + 1;
    }
    proof {
        assert(data@ =~= key.data@.take(16));
    }
    Context { data }
}

/// What `serde_json::to_vec` makes of a map from texts to texts: a JSON object.
pub uninterp spec fn json_object(props: Map<Seq<char>, Seq<char>>) -> Seq<u8>;

/// Calls `serde_json::to_vec` on a `BTreeMap` of the properties, no key of which comes twice. Claimed
/// of it: the result depends on the map alone, and no other map of texts has the same result, since a
/// quote, a backslash or a control character in a text is escaped.
#[verifier::external_body]
fn to_json(entries: &Vec<Prop>) -> (json: Vec<u8>)
    requires
        in_order(pairs(entries@)),
    ensures
        json@ == json_object(map_of(pairs(entries@))),
        forall|other: Map<Seq<char>, Seq<char>>|
            other.dom().finite() && #[trigger] json_object(other) == json@ ==> other == map_of(
                pairs(entries@),
            ),
{
    let props: BTreeMap<&str, &str> = entries.iter().map(
        |entry| (entry.key.as_str(), entry.value.as_str()),
    ).collect();
    serde_json::to_vec(&props).expect("a map of texts is serialized without failure")
}

/// The bytes of a blob whose properties are given as JSON.
pub open spec fn framed(node_id: u32, json: Seq<u8>) -> Seq<u8> {
    encode_utf8("{\"v\":1,\"node_id\":"@) + encode_utf8(decimal_digits(node_id as nat))
        + encode_utf8(",\"props\":"@) + json + encode_utf8("}"@)
}

/// The bytes of a blob.
pub open spec fn blob_bytes(node_id: u32, props: Map<Seq<char>, Seq<char>>) -> Seq<u8> {
    framed(node_id, json_object(props))
}

/// The bytes of a blob say which node it belongs to, and hold the JSON of its properties.
proof fn lemma_framed(first: u32, one: Seq<u8>, second: u32, two: Seq<u8>)
    requires
        framed(first, one) == framed(second, two),
    ensures
        first == second,
        one == two,
{
    let head = encode_utf8("{\"v\":1,\"node_id\":"@);
    let comma = encode_utf8(",\"props\":"@);
    let tail = encode_utf8("}"@);
    let digits = decimal_digits(first as nat);
    let others = decimal_digits(second as nat);
    reveal_strlit(",\"props\":");
    a_number_reads_back(first as nat);
    a_number_reads_back(second as nat);
    is_ascii_chars_encode_utf8(digits);
    is_ascii_chars_encode_utf8(others);
    is_ascii_chars_encode_utf8(",\"props\":"@);
    let left = framed(first, one);
    let right = framed(second, two);
    let start = head.len() as int;
    let width = digits.len() as int;
    let other_width = others.len() as int;
    assert forall|i: int| 0 <= i < width implies left[start + i] == digits[i] as u8 by {}
    assert forall|i: int| 0 <= i < other_width implies right[start + i] == others[i] as u8 by {}
    assert(left[start + width] == comma[0]);
    assert(right[start + other_width] == comma[0]);
    assert(comma[0] == 44);
    if width < other_width {
        assert(is_digit(others[width]));
    }
    if other_width < width {
        assert(is_digit(digits[other_width]));
    }
    assert forall|i: int| 0 <= i < width implies digits[i] == others[i] by {
        assert(left[start + i] == right[start + i]);
        assert(is_digit(digits[i]) && is_digit(others[i]));
    }
    assert(digits =~= others);
    let offset = start + width + comma.len();
    assert(left.subrange(offset, left.len() - tail.len()) =~= one);
    assert(right.subrange(offset, right.len() - tail.len()) =~= two);
}

/// The bytes of the blob with the properties of a node. They say which node that is and which
/// properties it has: no other node and no other properties have the same bytes.
pub fn encode_blob(node_id: u32, props: &Props) -> (bytes: Vec<u8>)
    ensures
        bytes@ == blob_bytes(node_id, props@),
        forall|other: u32, others: Map<Seq<char>, Seq<char>>|
            others.dom().finite() && #[trigger] blob_bytes(other, others) == bytes@ ==> other
                == node_id && others == props@,
{
    let json: Vec<u8> = to_json(props.entries());
    let mut bytes: Vec<u8> = Vec::new();
    bytes.extend_from_slice("{\"v\":1,\"node_id\":".as_bytes());
    bytes.extend_from_slice(decimal(node_id as u64).as_str().as_bytes());
    bytes.extend_from_slice(",\"props\":".as_bytes());
    bytes.extend_from_slice(json.as_slice());
    bytes.extend_from_slice("}".as_bytes());
    proof {
        assert(bytes@ =~= framed(node_id, json@));
        assert forall|other: u32, others: Map<Seq<char>, Seq<char>>|
            others.dom().finite() && #[trigger] blob_bytes(other, others)
                == bytes@ implies other == node_id && others == props@ by {
            lemma_framed(other, json_object(others), node_id, json@);
        }
    }
    bytes
}

/// The properties that a blob holds for a node: none if it is no blob, belongs to another node, or
/// has another layout.
pub open spec fn props_in(node_id: u32, blob: Option<PropsBlob>) -> Option<
    Map<Seq<char>, Seq<char>>,
> {
    match blob {
        Some(blob) => if blob.v == PROPS_BLOB_VERSION && blob.node_id == node_id {
            Some(blob.props@)
        } else {
            None
        },
        None => None,
    }
}

/// The properties that were stored for a node. `blob` is what the stored bytes were taken for, `None`
/// if they were no blob at all. Whatever does not belong to the node counts as no properties.
pub fn decode_blob(node_id: u32, blob: Option<PropsBlob>) -> (props: Option<Props>)
    ensures
        match props {
            Some(props) => props_in(node_id, blob) == Some(props@),
            None => props_in(node_id, blob) is None,
        },
{
    match blob {
        Some(blob) => if blob.v != PROPS_BLOB_VERSION || blob.node_id != node_id {
            None
        } else {
            Some(blob.props)
        },
        None => None,
    }
}

/// The blob that is stored for a node gives its properties back, to that node and to no other, and
/// one of another layout gives nothing.
pub proof fn a_blob_belongs_to_its_node(node_id: u32, other: u32, version: u32, props: Props)
    requires
        other != node_id,
        version != PROPS_BLOB_VERSION,
    ensures
        props_in(node_id, Some(PropsBlob { v: PROPS_BLOB_VERSION, node_id, props })) == Some(props@),
        props_in(other, Some(PropsBlob { v: PROPS_BLOB_VERSION, node_id, props })) is None,
        props_in(node_id, Some(PropsBlob { v: version, node_id, props })) is None,
        props_in(node_id, None) is None,
{
}

/// Whether a character is a control character.
pub open spec fn is_control(character: char) -> bool {
    character <= '\u{1f}' || ('\u{7f}' <= character && character <= '\u{9f}')
}

/// Whether a text holds a control character.
pub open spec fn holds_control(text: Seq<char>) -> bool {
    exists|i: int| 0 <= i < text.len() && is_control(#[trigger] text[i])
}

/// Whether a text holds a control character.
fn has_control(text: &str) -> (found: bool)
    ensures
        found == holds_control(text@),
{
    let list = characters(text);
    let mut i: usize = 0;
    while i < list.len()
        invariant
            i <= list@.len(),
            list@ == text@,
            forall|j: int| 0 <= j < i ==> !is_control(#[trigger] list@[j]),
        decreases list@.len() - i,
    {
        let character: char = list[i];
        if character <= '\u{1f}' || ('\u{7f}' <= character && character <= '\u{9f}') {
            proof {
                assert(is_control(text@[i as int]));
            }
            return true;
        }
        i = i + 1;
    }
    false
}

/// What is wrong with setting a property of a node that has given ones, if anything is.
pub open spec fn prop_problem(
    key: Seq<char>,
    value: Seq<char>,
    existing: Map<Seq<char>, Seq<char>>,
) -> Option<Seq<char>> {
    if key.len() == 0 {
        Some("property key must not be empty"@)
    } else if encode_utf8(key).len() > MAX_PROP_KEY_LEN {
        Some("property key exceeds 256 bytes"@)
    } else if encode_utf8(value).len() > MAX_PROP_VALUE_LEN {
        Some("property value exceeds 4096 bytes"@)
    } else if holds_control(key) || holds_control(value) {
        Some("property keys and values must not contain control characters"@)
    } else if !existing.dom().contains(key) && existing.len() >= MAX_PROPS_PER_NODE {
        Some("a node holds at most 256 properties"@)
    } else {
        None
    }
}

/// Checks that a property may be set on a node that has given ones. What is wrong with it comes back.
pub fn validate_prop(key: &str, value: &str, existing: &Props) -> (checked: Result<(), String>)
    ensures
        match checked {
            Ok(()) => prop_problem(key@, value@, existing@) is None,
            Err(reason) => prop_problem(key@, value@, existing@) == Some(reason@),
        },
{
    if key.is_empty() {
        return Err("property key must not be empty".to_owned());
    }
    if key.as_bytes().len() > MAX_PROP_KEY_LEN {
        return Err("property key exceeds 256 bytes".to_owned());
    }
    if value.as_bytes().len() > MAX_PROP_VALUE_LEN {
        return Err("property value exceeds 4096 bytes".to_owned());
    }
    if has_control(key) || has_control(value) {
        return Err("property keys and values must not contain control characters".to_owned());
    }
    if !existing.contains_key(key) && existing.len() >= MAX_PROPS_PER_NODE {
        return Err("a node holds at most 256 properties".to_owned());
    }
    Ok(())
}

/// Setting properties that are valid never takes a node over the limit, and a property that exists
/// can always be given another valid value.
pub proof fn valid_properties_stay_within_the_limit(
    key: Seq<char>,
    value: Seq<char>,
    other: Seq<char>,
    existing: Map<Seq<char>, Seq<char>>,
)
    requires
        existing.dom().finite(),
        existing.len() <= MAX_PROPS_PER_NODE,
        prop_problem(key, value, existing) is None,
        encode_utf8(other).len() <= MAX_PROP_VALUE_LEN,
        !holds_control(other),
    ensures
        existing.insert(key, value).len() <= MAX_PROPS_PER_NODE,
        prop_problem(key, other, existing.insert(key, value)) is None,
{
    assert(existing.insert(key, value).dom() =~= existing.dom().insert(key));
}

/// What `str::to_lowercase` makes of a text that is not ASCII.
pub uninterp spec fn lower_text(text: Seq<char>) -> Seq<char>;

/// A text in small letters.
pub open spec fn lowered(text: Seq<char>) -> Seq<char> {
    if is_ascii_chars(text) {
        ascii_lower(text)
    } else {
        lower_text(text)
    }
}

/// Calls `str::to_lowercase`. Claimed of it: of an ASCII text the capitals come out as small letters
/// and all else as it is, and the result for any other text depends on its characters alone.
#[verifier::external_body]
fn lowercase(text: &str) -> (lower: String)
    ensures
        lower@ == if is_ascii_chars(text@) {
            ascii_lower(text@)
        } else {
            lower_text(text@)
        },
{
    text.to_lowercase()
}

/// Whether a text in small letters holds a needle in small letters. An empty needle is held by
/// nothing.
pub fn lowercase_matches(lower: &str, needle: &str) -> (matched: bool)
    ensures
        matched == (needle@.len() > 0 && holds_part(lower@, needle@)),
{
    !needle.is_empty() && contains_text(lower, needle)
}

/// Whether a text holds a needle in small letters, whatever the case of its own letters.
pub open spec fn is_found(haystack: Seq<char>, needle: Seq<char>) -> bool {
    needle.len() > 0 && holds_part(lowered(haystack), needle)
}

/// Whether a text holds a needle in small letters, whatever the case of its own letters.
pub fn search_matches(haystack: &str, needle_lower: &str) -> (matched: bool)
    ensures
        matched == is_found(haystack@, needle_lower@),
{
    lowercase_matches(lowercase(haystack).as_str(), needle_lower)
}

/// What is found in an ASCII text does not depend on the case of its letters.
pub proof fn a_search_ignores_the_case_of_letters(haystack: Seq<char>, needle: Seq<char>)
    requires
        is_ascii_chars(haystack),
    ensures
        is_found(ascii_upper(haystack), needle) == is_found(haystack, needle),
        is_found(ascii_lower(haystack), needle) == is_found(haystack, needle),
{
    assert(is_ascii_chars(ascii_upper(haystack)));
    assert(is_ascii_chars(ascii_lower(haystack)));
    assert(ascii_lower(ascii_upper(haystack)) =~= ascii_lower(haystack));
    assert(ascii_lower(ascii_lower(haystack)) =~= ascii_lower(haystack));
}

/// What is found in an ASCII text is found in every longer one that holds it.
pub proof fn a_search_finds_in_longer_texts(
    before: Seq<char>,
    haystack: Seq<char>,
    behind: Seq<char>,
    needle: Seq<char>,
)
    requires
        is_ascii_chars(before),
        is_ascii_chars(haystack),
        is_ascii_chars(behind),
        is_found(haystack, needle),
    ensures
        is_found(before + haystack + behind, needle),
{
    let whole = before + haystack + behind;
    let offset = choose|offset: int| part_at(lowered(haystack), needle, offset);
    assert(is_ascii_chars(whole));
    assert(lowered(whole) =~= lowered(before) + lowered(haystack) + lowered(behind));
    assert(lowered(whole).subrange(
        before.len() + offset,
        before.len() + offset + needle.len(),
    ) =~= lowered(haystack).subrange(offset, offset + needle.len()));
    assert(part_at(lowered(whole), needle, before.len() + offset));
}

/// Whether `parse` takes the bytes of every blob for what they say.
pub open spec fn reads_blobs(parse: spec_fn(Seq<u8>) -> Option<PropsBlob>) -> bool {
    forall|node_id: u32, props: Map<Seq<char>, Seq<char>>|
        props.dom().finite() ==> (parse(#[trigger] blob_bytes(node_id, props)) matches Some(blob)
            && blob.v == PROPS_BLOB_VERSION && blob.node_id == node_id && blob.props@ == props)
}

/// What is stored for a node reads back, for that node and for no other, whatever takes the bytes of
/// blobs for what they say. So no two nodes, and no two maps of properties, have the same bytes.
pub proof fn a_stored_blob_reads_back(
    parse: spec_fn(Seq<u8>) -> Option<PropsBlob>,
    node_id: u32,
    props: Map<Seq<char>, Seq<char>>,
    other: u32,
    others: Map<Seq<char>, Seq<char>>,
)
    requires
        reads_blobs(parse),
        props.dom().finite(),
        others.dom().finite(),
    ensures
        props_in(other, parse(blob_bytes(node_id, props))) == if other == node_id {
            Some(props)
        } else {
            None
        },
        blob_bytes(node_id, props) == blob_bytes(other, others) ==> node_id == other && props
            == others,
{
    let bytes = blob_bytes(node_id, props);
    let same = blob_bytes(other, others);
    assert(parse(bytes) is Some && parse(same) is Some);
}

} // verus!
