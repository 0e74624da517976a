//! Writing the build version into finished artifacts.
//!
//! An artifact is a binary, a shared library or a static library that holds one version slot. A
//! build name is written into the slot of each artifact of a batch, in place: an artifact keeps its
//! size, and one that was stamped can be stamped again. No artifact is written unless each one holds
//! exactly one slot.

pub mod conduct;
pub mod field;
pub mod run;
pub mod sign;
pub mod slot;

use vstd::prelude::*;

use crate::text::{debug_text, decimal, decimal_digits, quoted};

verus! {

/// How the stamping tool is called.
pub const USAGE: &'static str = "usage: lore-stamp --build <name> <file>...";

/// Size of the buffer an artifact is read through while its slot is searched for.
pub const READ_BUFFER_SIZE: usize = 1048576;

/// Why an artifact, or a whole batch, is not stamped.
#[derive(Debug)]
pub enum StampError {
    Usage,
    InvalidBuildName(String),
    BuildNameTooLong(String),
    NoSlot,
    SeveralSlots(usize),
    TruncatedSlot,
    SignedWithIdentity,
    CodesignFailed(String),
    Io(String),
}

impl StampError {
    /// What is said of the error.
    pub open spec fn text(self) -> Seq<char> {
        match self {
            StampError::Usage => USAGE@,
            StampError::InvalidBuildName(name) => "build name "@ + debug_text(name@)
                + " is empty or holds a character other than a letter, a digit or one of !#$%&'*+-.^_`|~"@,
            StampError::BuildNameTooLong(name) => "build name "@ + debug_text(name@)
                + " does not fit the 96-byte build name field"@,
            StampError::NoSlot => "no version slot found"@,
            StampError::SeveralSlots(count) => decimal_digits(count as nat)
                + " version slots found, expected one"@,
            StampError::TruncatedSlot => "the version slot is cut off by the end of the file"@,
            StampError::SignedWithIdentity => "already signed with an identity; stamp before signing, or remove the signature first"@,
            StampError::CodesignFailed(output) => "codesign failed: "@ + output@,
            StampError::Io(error) => error@,
        }
    }

    /// What is said of the error.
    pub fn message(&self) -> (message: String)
        ensures
            message@ == self.text(),
    {
        match self {
            StampError::Usage => USAGE.to_owned(),
            StampError::InvalidBuildName(name) => "build name ".to_owned().concat(
                quoted(name.as_str()).as_str(),
            ).concat(
                " is empty or holds a character other than a letter, a digit or one of !#$%&'*+-.^_`|~",
            ),
            StampError::BuildNameTooLong(name) => "build name ".to_owned().concat(
                quoted(name.as_str()).as_str(),
            ).concat(" does not fit the 96-byte build name field"),
            StampError::NoSlot => "no version slot found".to_owned(),
            StampError::SeveralSlots(count) => decimal(*count as u64).concat(
                " version slots found, expected one",
            ),
            StampError::TruncatedSlot => "the version slot is cut off by the end of the file".to_owned(),
            StampError::SignedWithIdentity => "already signed with an identity; stamp before signing, or remove the signature first".to_owned(),
            StampError::CodesignFailed(output) => "codesign failed: ".to_owned().concat(
                output.as_str(),
            ),
            StampError::Io(error) => error.clone(),
        }
    }
}

/// What is said of a failure in the file that is shown as `file`.
pub open spec fn text_in_file(file: Seq<char>, text: Seq<char>) -> Seq<char> {
    file + ": "@ + text
}

/// What is said of an error in the file that is shown as `file`.
pub fn in_file(file: &str, error: &StampError) -> (message: String)
    ensures
        message@ == text_in_file(file@, error.text()),
{
    file.to_owned().concat(": ").concat(error.message().as_str())
}

} // verus!
