//! The identities that content is stored and found under.

use vstd::prelude::*;
use vstd::std_specs::cmp::PartialEqSpecImpl;

verus! {

/// Whether two runs of bytes are the same.
fn same_bytes(left: &[u8], right: &[u8]) -> (same: bool)
    requires
        left@.len() == right@.len(),
    ensures
        same == (left@ == right@),
{
    let length: usize = left.len();
    let mut i: usize = 0;
    while i < length
        invariant
            i <= length == left@.len() == right@.len(),
            forall|j: int| 0 <= j < i ==> left@[j] == right@[j],
        decreases length - i,
    {
        if left[i] != right[i] {
            return false;
        }
        i = i + 1;
    }
    proof {
        assert(left@ =~= right@);
    }
    true
}

/// The hexadecimal digit of a number below sixteen.
pub open spec fn hex_digit(value: u8) -> char {
    if value < 10 {
        (48 + value) as char
    } else {
        (87 + value) as char
    }
}

/// Two hexadecimal digits for each byte.
pub open spec fn hex_digits(bytes: Seq<u8>) -> Seq<char>
    decreases bytes.len(),
{
    if bytes.len() == 0 {
        Seq::empty()
    } else {
        hex_digits(bytes.drop_last()).push(hex_digit(bytes.last() / 16)).push(
            hex_digit(bytes.last() % 16),
        )
    }
}

/// The hexadecimal digit of a number below sixteen.
fn hex_character(value: u8) -> (digit: char)
    requires
        value < 16,
    ensures
        digit == hex_digit(value),
{
    if value < 10 {
        (48 + value) as char
    } else {
        (87 + value) as char
    }
}

/// Bytes written in hexadecimal.
pub fn hex(bytes: &[u8]) -> (text: String)
    ensures
        text@ == hex_digits(bytes@),
{
    let length: usize = bytes.len();
    let mut text = String::new();
    let mut i: usize = 0;
    proof {
        assert(bytes@.take(0) =~= Seq::empty());
    }
    while i < length
        invariant
            i <= length == bytes@.len(),
            text@ == hex_digits(bytes@.take(i as int)),
        decreases length - i,
    {
        text.push(hex_character(bytes[i] / 16));
        text.push(hex_character(bytes[i] % 16));
        proof {
            assert(bytes@.take(i + 1).drop_last() =~= bytes@.take(i as int));
        }
        i = i + 1;
    }
    proof {
        assert(bytes@.take(length as int) =~= bytes@);
    }
    text
}

/// The hash of some content.
#[derive(Clone, Copy, Debug)]
pub struct ContentHash {
    pub data: [u8; 32],
}

impl PartialEqSpecImpl for ContentHash {
    open spec fn obeys_eq_spec() -> bool {
        true
    }

    open spec fn eq_spec(&self, other: &ContentHash) -> bool {
        *self == *other
    }
}

impl PartialEq for ContentHash {
    fn eq(&self, other: &ContentHash) -> (same: bool) {
        let same: bool = same_bytes(self.data.as_slice(), other.data.as_slice());
        proof {
            if same {
                assert(self.data =~= other.data);
            }
        }
        same
    }
}

impl Eq for ContentHash {

}

impl Default for ContentHash {
    /// The identity whose bytes are all zero.
    fn default() -> (zero: ContentHash)
        ensures
            zero.is_zero(),
    {
        ContentHash { data: [0u8; 32] }
    }
}

impl ContentHash {
    /// Whether all bytes are zero.
    pub open spec fn is_zero(self) -> bool {
        forall|i: int| 0 <= i < 32 ==> #[trigger] self.data@[i] == 0
    }

    /// The bytes in hexadecimal.
    pub open spec fn text(self) -> Seq<char> {
        hex_digits(self.data@)
    }

    /// The bytes in hexadecimal.
    pub fn to_text(&self) -> (text: String)
        ensures
            text@ == self.text(),
    {
        hex(self.data.as_slice())
    }
}

impl ContentHash {
    /// Whether this is the hash of no content: all its bytes are zero.
    pub fn is_default(&self) -> (answer: bool)
        ensures
            answer == self.is_zero(),
    {
        let zero = ContentHash::default();
        proof {
            if self.is_zero() {
                assert(self.data =~= zero.data);
            }
        }
        *self == zero
    }
}

/// What content belongs to, such as a file.
#[derive(Clone, Copy, Debug)]
pub struct Context {
    pub data: [u8; 16],
}

impl PartialEqSpecImpl for Context {
    open spec fn obeys_eq_spec() -> bool {
        true
    }

    open spec fn eq_spec(&self, other: &Context) -> bool {
        *self == *other
    }
}

impl PartialEq for Context {
    fn eq(&self, other: &Context) -> (same: bool) {
        let same: bool = same_bytes(self.data.as_slice(), other.data.as_slice());
        proof {
            if same {
                assert(self.data =~= other.data);
            }
        }
        same
    }
}

impl Eq for Context {

}

impl Default for Context {
    /// The identity whose bytes are all zero.
    fn default() -> (zero: Context)
        ensures
            zero.is_zero(),
    {
        Context { data: [0u8; 16] }
    }
}

impl Context {
    /// Whether all bytes are zero.
    pub open spec fn is_zero(self) -> bool {
        forall|i: int| 0 <= i < 16 ==> #[trigger] self.data@[i] == 0
    }

    /// The bytes in hexadecimal.
    pub open spec fn text(self) -> Seq<char> {
        hex_digits(self.data@)
    }

    /// The bytes in hexadecimal.
    pub fn to_text(&self) -> (text: String)
        ensures
            text@ == self.text(),
    {
        hex(self.data.as_slice())
    }
}

/// The identity of a repository.
#[derive(Clone, Copy, Debug)]
pub struct RepositoryId {
    pub data: [u8; 16],
}

impl PartialEqSpecImpl for RepositoryId {
    open spec fn obeys_eq_spec() -> bool {
        true
    }

    open spec fn eq_spec(&self, other: &RepositoryId) -> bool {
        *self == *other
    }
}

impl PartialEq for RepositoryId {
    fn eq(&self, other: &RepositoryId) -> (same: bool) {
        let same: bool = same_bytes(self.data.as_slice(), other.data.as_slice());
        proof {
            if same {
                assert(self.data =~= other.data);
            }
        }
        same
    }
}

impl Eq for RepositoryId {

}

impl Default for RepositoryId {
    /// The identity whose bytes are all zero.
    fn default() -> (zero: RepositoryId)
        ensures
            zero.is_zero(),
    {
        RepositoryId { data: [0u8; 16] }
    }
}

impl RepositoryId {
    /// Whether all bytes are zero.
    pub open spec fn is_zero(self) -> bool {
        forall|i: int| 0 <= i < 16 ==> #[trigger] self.data@[i] == 0
    }

    /// The bytes in hexadecimal.
    pub open spec fn text(self) -> Seq<char> {
        hex_digits(self.data@)
    }

    /// The bytes in hexadecimal.
    pub fn to_text(&self) -> (text: String)
        ensures
            text@ == self.text(),
    {
        hex(self.data.as_slice())
    }
}

/// The identity of a branch.
#[derive(Clone, Copy, Debug)]
pub struct BranchId {
    pub data: [u8; 16],
}

impl PartialEqSpecImpl for BranchId {
    open spec fn obeys_eq_spec() -> bool {
        true
    }

    open spec fn eq_spec(&self, other: &BranchId) -> bool {
        *self == *other
    }
}

impl PartialEq for BranchId {
    fn eq(&self, other: &BranchId) -> (same: bool) {
        let same: bool = same_bytes(self.data.as_slice(), other.data.as_slice());
        proof {
            if same {
                assert(self.data =~= other.data);
            }
        }
        same
    }
}

impl Eq for BranchId {

}

impl Default for BranchId {
    /// The identity whose bytes are all zero.
    fn default() -> (zero: BranchId)
        ensures
            zero.is_zero(),
    {
        BranchId { data: [0u8; 16] }
    }
}

impl BranchId {
    /// Whether all bytes are zero.
    pub open spec fn is_zero(self) -> bool {
        forall|i: int| 0 <= i < 16 ==> #[trigger] self.data@[i] == 0
    }

    /// The bytes in hexadecimal.
    pub open spec fn text(self) -> Seq<char> {
        hex_digits(self.data@)
    }

    /// The bytes in hexadecimal.
    pub fn to_text(&self) -> (text: String)
        ensures
            text@ == self.text(),
    {
        hex(self.data.as_slice())
    }
}

/// Where content is stored: under its hash, for a context.
#[derive(Clone, Copy, Debug)]
pub struct Address {
    pub hash: ContentHash,
    pub context: Context,
}

impl PartialEqSpecImpl for Address {
    open spec fn obeys_eq_spec() -> bool {
        true
    }

    open spec fn eq_spec(&self, other: &Address) -> bool {
        *self == *other
    }
}

impl PartialEq for Address {
    fn eq(&self, other: &Address) -> (same: bool) {
        self.hash == other.hash && self.context == other.context
    }
}

impl Eq for Address {

}

impl Default for Address {
    /// The address whose bytes are all zero.
    fn default() -> (zero: Address)
        ensures
            zero.hash.is_zero(),
            zero.context.is_zero(),
    {
        Address { hash: ContentHash::default(), context: Context::default() }
    }
}

impl Address {
    /// The hash and the context, as `<hash>-<context>`.
    pub open spec fn text(self) -> Seq<char> {
        self.hash.text() + "-"@ + self.context.text()
    }

    /// The hash and the context, as `<hash>-<context>`.
    pub fn to_text(&self) -> (text: String)
        ensures
            text@ == self.text(),
    {
        self.hash.to_text().concat("-").concat(self.context.to_text().as_str())
    }
}

} // verus!
