//! The headers of an answer that is downloaded.

use vstd::prelude::*;
use vstd::utf8::encode_utf8;

verus! {

/// Whether `text` can be the value of a header: no byte of it is a control character, other than a
/// tab.
pub open spec fn is_header_text(text: Seq<char>) -> bool {
    let bytes = encode_utf8(text);
    forall|i: int|
        0 <= i < bytes.len() ==> ((#[trigger] bytes[i]) >= 32 && bytes[i] != 127) || bytes[i] == 9
}

/// Calls `axum::http::HeaderValue::from_str`. Claimed of it: it takes a text of which no byte is a
/// control character, other than a tab, and no other text.
#[verifier::external_body]
fn takes_header(text: &str) -> (taken: bool)
    ensures
        taken == is_header_text(text@),
{
    axum::http::HeaderValue::from_str(text).is_ok()
}

/// `text` with an underscore for each double quote.
pub open spec fn without_quotes(text: Seq<char>) -> Seq<char> {
    text.map_values(
        |character: char|
            if character == '"' {
                '_'
            } else {
                character
            },
    )
}

/// `text` with an underscore for each double quote.
fn replace_quotes(text: &str) -> (replaced: String)
    ensures
        replaced@ == without_quotes(text@),
{
    let mut replaced = String::new();
    for character in iter: text.chars()
        invariant
            iter.seq() == text@,
            replaced@ == without_quotes(text@).take(iter.index()),
    {
        let kept: char = if character == '"' {
            '_'
        } else {
            character
        };
        replaced.push(kept);
        proof {
            assert(without_quotes(text@).take(iter.index() + 1) =~= without_quotes(text@).take(
                iter.index(),
            ).push(kept));
        }
    }
    proof {
        assert(without_quotes(text@).take(text@.len() as int) =~= without_quotes(text@));
    }
    replaced
}

/// The disposition of a file that is downloaded under a name.
pub open spec fn disposition_of(filename: Seq<char>) -> Seq<char> {
    let disposition = "attachment; filename=\""@ + without_quotes(filename) + "\""@;
    if is_header_text(disposition) {
        disposition
    } else {
        "attachment; filename=\"download\""@
    }
}

/// What a download is answered with: its content, and the values of its headers.
#[derive(Debug)]
pub struct BinaryResponse {
    pub content_type: Option<String>,
    pub disposition: String,
    pub bytes: Vec<u8>,
}

/// The answer that carries `bytes` to be saved under a name. A name that no header can hold is
/// replaced by a generic one, and a content type that no header can hold is left out.
pub fn binary_response(bytes: Vec<u8>, content_type: &str, filename: &str) -> (response:
    BinaryResponse)
    ensures
        response.bytes@ == bytes@,
        response.disposition@ == disposition_of(filename@),
        match response.content_type {
            Some(text) => is_header_text(content_type@) && text@ == content_type@,
            None => !is_header_text(content_type@),
        },
{
    let wanted = "attachment; filename=\"".to_owned().concat(
        replace_quotes(filename).as_str(),
    ).concat("\"");
    let disposition: String = if takes_header(wanted.as_str()) {
        wanted
    } else {
        "attachment; filename=\"download\"".to_owned()
    };
    let content_type: Option<String> = if takes_header(content_type) {
        Some(content_type.to_owned())
    } else {
        None
    };
    BinaryResponse { content_type, disposition, bytes }
}

} // verus!
