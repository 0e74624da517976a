//! The version of a build: the package version, `+`, and a build name that is written into finished
//! artifacts after the build.
//!
//! The build name is not compiled in: a value that changed on every build would change every crate
//! that depends on this one, on every build. Every build compiles the same version slot instead,
//! and the build name is written into the slot of a finished binary, shared library or static
//! library. An artifact that was never stamped reports `<package version>+local`.

use vstd::prelude::*;
use vstd::utf8::{decode_utf8, valid_utf8};

verus! {

/// The version of this package.
pub const PACKAGE_VERSION: &'static str = "0.1.0";

/// The bytes that open the version slot: `lore-build-version-slot/v1:8e41f`.
///
/// The slot is found by searching an artifact for these bytes, so they must occur nowhere else in
/// it.
pub const STAMP_MARKER: [u8; 32] = [
    0x6c, 0x6f, 0x72, 0x65, 0x2d, 0x62, 0x75, 0x69, 0x6c, 0x64, 0x2d, 0x76, 0x65, 0x72, 0x73, 0x69,
    0x6f, 0x6e, 0x2d, 0x73, 0x6c, 0x6f, 0x74, 0x2f, 0x76, 0x31, 0x3a, 0x38, 0x65, 0x34, 0x31, 0x66,
];

/// Length of [`STAMP_MARKER`], in bytes.
pub const STAMP_MARKER_LEN: usize = 32;

/// Size of the build name field that follows the marker, in bytes, the terminating NUL included.
pub const STAMP_BUILD_CAPACITY: usize = 96;

/// The build name an artifact that was never stamped reports.
pub const LOCAL_BUILD_NAME: &'static str = "local";

/// What `String::from_utf8_lossy` makes of bytes that are not UTF-8.
pub uninterp spec fn utf8_replaced(bytes: Seq<u8>) -> Seq<char>;

/// The text of `bytes`: what they encode, or what stands in for it where they are not UTF-8.
pub open spec fn lossy_text(bytes: Seq<u8>) -> Seq<char> {
    if valid_utf8(bytes) {
        decode_utf8(bytes)
    } else {
        utf8_replaced(bytes)
    }
}

/// Calls `String::from_utf8_lossy`. Claimed of it: bytes that are UTF-8 come out as the characters
/// they encode, other bytes as a text that depends on the bytes alone, and no character of the text
/// is NUL unless one of the bytes is.
#[verifier::external_body]
pub(crate) fn from_utf8_lossy(bytes: &[u8]) -> (text: String)
    ensures
        text@ == if valid_utf8(bytes@) {
            decode_utf8(bytes@)
        } else {
            utf8_replaced(bytes@)
        },
        !bytes@.contains(0u8) ==> !text@.contains('\0'),
{
    String::from_utf8_lossy(bytes).into_owned()
}

/// The bytes of `field` before its first NUL, all of them if it holds none.
pub open spec fn before_nul(field: Seq<u8>) -> Seq<u8>
    decreases field.len(),
{
    if field.len() == 0 || field[0] == 0 {
        Seq::empty()
    } else {
        seq![field[0]] + before_nul(field.drop_first())
    }
}

/// The bytes before the first NUL end where a NUL stands that no other comes before.
pub proof fn lemma_before_nul(field: Seq<u8>, length: int)
    requires
        0 <= length <= field.len(),
        forall|i: int| 0 <= i < length ==> field[i] != 0,
        length == field.len() || field[length] == 0,
    ensures
        before_nul(field) == field.take(length),
    decreases length,
{
    if length == 0 {
        assert(before_nul(field) =~= field.take(0));
    } else {
        let rest = field.drop_first();
        lemma_before_nul(rest, length - 1);
        assert(seq![field[0]] + rest.take(length - 1) =~= field.take(length));
    }
}

/// The build name that a build name field holds, if it holds one.
pub open spec fn build_name_of(field: Seq<u8>) -> Option<Seq<char>> {
    if before_nul(field).len() == 0 {
        None
    } else {
        Some(lossy_text(before_nul(field)))
    }
}

/// The version that a build of a given name reports.
pub open spec fn version_of(build: Seq<char>) -> Seq<char> {
    PACKAGE_VERSION@ + seq!['+'] + build
}

/// The version a build named `build` reports: `<package version>+<build>`.
pub fn version_name(build: &str) -> (version: String)
    ensures
        version@ == version_of(build@),
{
    let mut version: String = PACKAGE_VERSION.to_owned();
    version.append("+");
    version.append(build);
    proof {
        reveal_strlit("+");
        assert("+"@ =~= seq!['+']);
    }
    version
}

/// The build name `field` holds, the bytes before its first NUL, or `None` if it holds none.
pub fn build_name(field: &[u8]) -> (name: Option<String>)
    ensures
        match name {
            Some(text) => build_name_of(field@) == Some(text@) && !text@.contains('\0'),
            None => build_name_of(field@) is None,
        },
{
    let capacity: usize = field.len();
    let mut length: usize = 0;
    while length < capacity && field[length] != 0
        invariant
            length <= capacity == field@.len(),
            forall|i: int| 0 <= i < length ==> field@[i] != 0,
        decreases capacity - length,
    {
        length = length + 1;
    }
    proof {
        lemma_before_nul(field@, length as int);
    }
    if length == 0 {
        return None;
    }
    let name: &[u8] = vstd::slice::slice_subrange(field, 0, length);
    proof {
        assert(name@ =~= field@.take(length as int));
    }
    Some(from_utf8_lossy(name))
}

/// The version that an artifact reports whose build name field holds `field`: the version of the
/// build name in it, or of `local` if the artifact was never stamped.
pub fn library_version(field: &[u8]) -> (version: String)
    ensures
        version@ == match build_name_of(field@) {
            Some(build) => version_of(build),
            None => version_of(LOCAL_BUILD_NAME@),
        },
        !version@.contains('\0'),
{
    proof {
        reveal_strlit("0.1.0");
        reveal_strlit("local");
    }
    match build_name(field) {
        Some(build) => version_name(build.as_str()),
        None => version_name(LOCAL_BUILD_NAME),
    }
}

} // verus!
