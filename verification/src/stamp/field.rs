//! The build name and the field of an artifact that holds it.

use vstd::prelude::*;
use vstd::utf8::{encode_utf8, encode_utf8_decode_utf8, encode_utf8_valid_utf8};

use super::slot::{is_located, slot_at, slot_offsets};
use super::StampError;
use crate::version::{
    build_name_of, lemma_before_nul, STAMP_BUILD_CAPACITY, STAMP_MARKER, STAMP_MARKER_LEN,
};

verus! {

/// Whether `byte` is an ASCII letter or digit.
pub open spec fn is_alphanumeric(byte: u8) -> bool {
    48 <= byte <= 57 || 65 <= byte <= 90 || 97 <= byte <= 122
}

/// Whether `byte` is one of the characters of an RFC 9110 token: a letter, a digit, or one of
/// ``!#$%&'*+-.^_`|~``.
pub open spec fn is_token(byte: u8) -> bool {
    is_alphanumeric(byte) || seq![
        33u8,
        35u8,
        36u8,
        37u8,
        38u8,
        39u8,
        42u8,
        43u8,
        45u8,
        46u8,
        94u8,
        95u8,
        96u8,
        124u8,
        126u8,
    ].contains(byte)
}

/// Whether `name` is a token: at least one character, each of them a token character.
pub open spec fn is_token_name(name: Seq<u8>) -> bool {
    name.len() > 0 && forall|i: int| 0 <= i < name.len() ==> is_token(#[trigger] name[i])
}

/// Whether the bytes of `name` can be stamped: a token that leaves room for a terminating NUL.
pub open spec fn is_build_name(name: Seq<u8>) -> bool {
    is_token_name(name) && name.len() < STAMP_BUILD_CAPACITY
}

/// The build name field that holds `name`, padded with NULs.
pub open spec fn field_of(name: Seq<u8>) -> Seq<u8> {
    Seq::new(
        STAMP_BUILD_CAPACITY as nat,
        |i: int|
            if i < name.len() {
                name[i]
            } else {
                0
            },
    )
}

/// What `artifact` holds once `field` is written over the bytes that start at `offset`.
pub open spec fn overwritten(artifact: Seq<u8>, offset: int, field: Seq<u8>) -> Seq<u8> {
    artifact.take(offset) + field + artifact.skip(offset + field.len())
}

/// Whether `byte` is one of the characters of an RFC 9110 token.
pub fn is_token_byte(byte: u8) -> (answer: bool)
    ensures
        answer == is_token(byte),
{
    proof {
        let marks = seq![
            33u8,
            35u8,
            36u8,
            37u8,
            38u8,
            39u8,
            42u8,
            43u8,
            45u8,
            46u8,
            94u8,
            95u8,
            96u8,
            124u8,
            126u8,
        ];
        assert(marks[0] == 33 && marks[1] == 35 && marks[2] == 36 && marks[3] == 37 && marks[4]
            == 38 && marks[5] == 39 && marks[6] == 42 && marks[7] == 43 && marks[8] == 45
            && marks[9] == 46 && marks[10] == 94 && marks[11] == 95 && marks[12] == 96 && marks[13]
            == 124 && marks[14] == 126);
    }
    (48 <= byte && byte <= 57) || (65 <= byte && byte <= 90) || (97 <= byte && byte <= 122) || byte
        == 33 || (35 <= byte && byte <= 39) || byte == 42 || byte == 43 || byte == 45 || byte == 46
        || (94 <= byte && byte <= 96) || byte == 124 || byte == 126
}

/// Checks that `build` is a token that fits the build name field with its terminating NUL.
///
/// The version is the product version in the user agent, so the build name is held to the
/// characters of an RFC 9110 token.
pub fn check_build_name(build: &str) -> (checked: Result<(), StampError>)
    ensures
        match checked {
            Ok(()) => is_build_name(encode_utf8(build@)),
            Err(StampError::InvalidBuildName(name)) => name@ == build@ && !is_token_name(
                encode_utf8(build@),
            ),
            Err(StampError::BuildNameTooLong(name)) => name@ == build@ && is_token_name(
                encode_utf8(build@),
            ) && encode_utf8(build@).len() >= STAMP_BUILD_CAPACITY,
            Err(_) => false,
        },
{
    let bytes: &[u8] = build.as_bytes();
    let length: usize = bytes.len();
    if length == 0 {
        return Err(StampError::InvalidBuildName(build.to_owned()));
    }
    let mut i: usize = 0;
    while i < length
        invariant
            i <= length == bytes@.len(),
            bytes@ == encode_utf8(build@),
            forall|j: int| 0 <= j < i ==> is_token(#[trigger] bytes@[j]),
        decreases length - i,
    {
        if !is_token_byte(bytes[i]) {
            return Err(StampError::InvalidBuildName(build.to_owned()));
        }
        i = i + 1;
    }
    if length >= STAMP_BUILD_CAPACITY {
        return Err(StampError::BuildNameTooLong(build.to_owned()));
    }
    Ok(())
}

/// The build name field holding `build`, padded with NULs. `build` must fit the field.
pub fn build_field(build: &str) -> (field: [u8; 96])
    requires
        encode_utf8(build@).len() <= STAMP_BUILD_CAPACITY,
    ensures
        field@ == field_of(encode_utf8(build@)),
{
    let bytes: &[u8] = build.as_bytes();
    let length: usize = bytes.len();
    let mut field: [u8; 96] = [0u8; 96];
    let mut i: usize = 0;
    while i < length
        invariant
            i <= length == bytes@.len(),
            length <= STAMP_BUILD_CAPACITY == field@.len(),
            forall|j: int| 0 <= j < i ==> field@[j] == bytes@[j],
            forall|j: int| i <= j < STAMP_BUILD_CAPACITY ==> field@[j] == 0,
        decreases length - i,
    {
        field[i] = bytes[i];
        i = i + 1;
    }
    proof {
        assert(field@ =~= field_of(encode_utf8(build@)));
    }
    field
}

/// Whether `magic` is one of the magics of a Mach-O file: 32-bit, 64-bit, or universal.
pub open spec fn opens_mach_o(magic: Seq<u8>) -> bool {
    ||| magic == seq![0xceu8, 0xfau8, 0xedu8, 0xfeu8]
    ||| magic == seq![0xcfu8, 0xfau8, 0xedu8, 0xfeu8]
    ||| magic == seq![0xcau8, 0xfeu8, 0xbau8, 0xbeu8]
    ||| magic == seq![0xcau8, 0xfeu8, 0xbau8, 0xbfu8]
}

/// Whether `magic` opens a Mach-O file: 32-bit, 64-bit, or universal.
pub fn is_mach_o(magic: &[u8; 4]) -> (answer: bool)
    ensures
        answer == opens_mach_o(magic@),
{
    let answer: bool = ((magic[0] == 0xce || magic[0] == 0xcf) && magic[1] == 0xfa && magic[2]
        == 0xed && magic[3] == 0xfe) || (magic[0] == 0xca && magic[1] == 0xfe && magic[2] == 0xba
        && (magic[3] == 0xbe || magic[3] == 0xbf));
    proof {
        if answer {
            if magic@[0] == 0xce {
                assert(magic@ =~= seq![0xceu8, 0xfau8, 0xedu8, 0xfeu8]);
            } else if magic@[0] == 0xcf {
                assert(magic@ =~= seq![0xcfu8, 0xfau8, 0xedu8, 0xfeu8]);
            } else if magic@[3] == 0xbe {
                assert(magic@ =~= seq![0xcau8, 0xfeu8, 0xbau8, 0xbeu8]);
            } else {
                assert(magic@ =~= seq![0xcau8, 0xfeu8, 0xbau8, 0xbfu8]);
            }
        }
    }
    answer
}

/// Stamping an artifact keeps its size and changes no byte outside the build name field, which
/// then holds the field that was written.
pub proof fn stamping_changes_only_the_field(artifact: Seq<u8>, offset: u64, name: Seq<u8>)
    requires
        is_located(artifact, Ok(offset)),
    ensures
        overwritten(artifact, offset as int, field_of(name)).len() == artifact.len(),
        forall|i: int|
            0 <= i < artifact.len() && !(offset <= i < offset + STAMP_BUILD_CAPACITY)
                ==> #[trigger] overwritten(artifact, offset as int, field_of(name))[i]
                == artifact[i],
        overwritten(artifact, offset as int, field_of(name)).subrange(
            offset as int,
            offset + STAMP_BUILD_CAPACITY,
        ) == field_of(name),
{
    lemma_located_bounds(artifact, offset);
    assert(overwritten(artifact, offset as int, field_of(name)).subrange(
        offset as int,
        offset + STAMP_BUILD_CAPACITY,
    ) =~= field_of(name));
}

/// A located field lies behind its marker and inside the artifact.
proof fn lemma_located_bounds(artifact: Seq<u8>, offset: u64)
    requires
        is_located(artifact, Ok(offset)),
    ensures
        slot_at(artifact, offset - STAMP_MARKER_LEN),
        slot_offsets(artifact) == set![offset - STAMP_MARKER_LEN],
        STAMP_MARKER_LEN <= offset,
        offset + STAMP_BUILD_CAPACITY <= artifact.len(),
{
    assert(slot_offsets(artifact).contains(offset - STAMP_MARKER_LEN));
}

/// A stamped artifact still holds exactly one version slot, where it was, so it can be stamped
/// again.
pub proof fn stamping_keeps_the_one_slot(artifact: Seq<u8>, offset: u64, name: Seq<u8>)
    requires
        is_located(artifact, Ok(offset)),
        is_build_name(name),
    ensures
        is_located(overwritten(artifact, offset as int, field_of(name)), Ok(offset)),
{
    lemma_located_bounds(artifact, offset);
    let stamped = overwritten(artifact, offset as int, field_of(name));
    let slot = offset - STAMP_MARKER_LEN;
    assert forall|i: int| #[trigger] slot_offsets(stamped).contains(i) == (i == slot) by {
        lemma_slot_after_stamping(artifact, offset, name, i);
    }
    assert(slot_offsets(stamped) =~= set![slot]);
}

/// A marker stands in a stamped artifact where it stood before, and nowhere else.
proof fn lemma_slot_after_stamping(artifact: Seq<u8>, offset: u64, name: Seq<u8>, start: int)
    requires
        is_located(artifact, Ok(offset)),
        is_build_name(name),
    ensures
        slot_at(overwritten(artifact, offset as int, field_of(name)), start) == (start == offset
            - STAMP_MARKER_LEN),
{
    lemma_located_bounds(artifact, offset);
    let stamped = overwritten(artifact, offset as int, field_of(name));
    let slot = offset - STAMP_MARKER_LEN;
    if 0 <= start && start + STAMP_MARKER_LEN <= artifact.len() {
        let window = stamped.subrange(start, start + STAMP_MARKER_LEN);
        if start + STAMP_MARKER_LEN <= offset || offset + STAMP_BUILD_CAPACITY <= start {
            assert(artifact.subrange(start, start + STAMP_MARKER_LEN) =~= window);
            assert(slot_offsets(artifact).contains(start) == slot_at(artifact, start));
        } else {
            assert(stamped.subrange(slot, offset as int) =~= artifact.subrange(slot, offset as int));
            assert(stamped.subrange(offset as int, offset + STAMP_BUILD_CAPACITY) =~= field_of(
                name,
            ));
            lemma_no_marker_over_field(stamped, offset as int, name, start);
        }
    }
}

/// No marker stands over any part of a build name field that holds a build name, but the one before
/// the field: the marker holds a `/`, which is no token character and comes in it only once.
proof fn lemma_no_marker_over_field(stamped: Seq<u8>, offset: int, name: Seq<u8>, start: int)
    requires
        is_build_name(name),
        STAMP_MARKER_LEN <= offset <= offset + STAMP_BUILD_CAPACITY <= stamped.len(),
        stamped.subrange(offset, offset + STAMP_BUILD_CAPACITY) == field_of(name),
        stamped.subrange(offset - STAMP_MARKER_LEN, offset) == STAMP_MARKER@,
        offset - STAMP_MARKER_LEN < start < offset + STAMP_BUILD_CAPACITY,
        start + STAMP_MARKER_LEN <= stamped.len(),
    ensures
        stamped.subrange(start, start + STAMP_MARKER_LEN) != STAMP_MARKER@,
{
    let field = field_of(name);
    let window = stamped.subrange(start, start + STAMP_MARKER_LEN);
    let distance = start - offset;
    assert(STAMP_MARKER@[23] == 0x2f);
    assert(window[23] == stamped[start + 23]);
    if distance < -23 {
        let before = stamped.subrange(offset - STAMP_MARKER_LEN, offset);
        let index = STAMP_MARKER_LEN + distance + 23;
        assert(before[index] == stamped[start + 23]);
        assert(STAMP_MARKER@[24] == 0x76 && STAMP_MARKER@[25] == 0x31 && STAMP_MARKER@[26] == 0x3a
            && STAMP_MARKER@[27] == 0x38 && STAMP_MARKER@[28] == 0x65 && STAMP_MARKER@[29] == 0x34
            && STAMP_MARKER@[30] == 0x31 && STAMP_MARKER@[31] == 0x66);
    } else if distance + 23 < STAMP_BUILD_CAPACITY {
        assert(stamped.subrange(offset, offset + STAMP_BUILD_CAPACITY)[distance + 23]
            == stamped[start + 23]);
        assert(field[distance + 23] == 0 || is_token(field[distance + 23]));
        assert(!is_token(0x2f));
    } else {
        let last = STAMP_BUILD_CAPACITY - 1;
        assert(stamped.subrange(offset, offset + STAMP_BUILD_CAPACITY)[last] == stamped[offset
            + last]);
        assert(window[last - distance] == stamped[offset + last]);
        assert(forall|i: int| 0 <= i < STAMP_MARKER_LEN ==> STAMP_MARKER@[i] != 0);
    }
}

/// Stamping twice leaves what the second stamp alone leaves.
pub proof fn stamping_again_replaces(artifact: Seq<u8>, offset: u64, first: Seq<u8>, second: Seq<u8>)
    requires
        is_located(artifact, Ok(offset)),
    ensures
        overwritten(
            overwritten(artifact, offset as int, field_of(first)),
            offset as int,
            field_of(second),
        ) == overwritten(artifact, offset as int, field_of(second)),
{
    lemma_located_bounds(artifact, offset);
    assert(overwritten(
        overwritten(artifact, offset as int, field_of(first)),
        offset as int,
        field_of(second),
    ) =~= overwritten(artifact, offset as int, field_of(second)));
}

/// A build name that was stamped is the build name that the artifact reports.
pub proof fn stamped_name_reads_back(name: Seq<char>)
    requires
        is_build_name(encode_utf8(name)),
    ensures
        build_name_of(field_of(encode_utf8(name))) == Some(name),
{
    let bytes = encode_utf8(name);
    let field = field_of(bytes);
    lemma_before_nul(field, bytes.len() as int);
    assert(field.take(bytes.len() as int) =~= bytes);
    encode_utf8_valid_utf8(name);
    encode_utf8_decode_utf8(name);
}

} // verus!
