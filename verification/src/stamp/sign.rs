//! What the answers of `codesign` mean for stamping.

use vstd::prelude::*;

use super::StampError;
use crate::text::{has_line, holds_line, trim, trimmed};
use crate::version::{from_utf8_lossy, lossy_text};

verus! {

/// Whether a file is signed ad-hoc, or `false` if it is not signed.
///
/// `success` and `stderr` are how `codesign --display` ended and what it wrote: it fails for an
/// unsigned file and describes the signature of a signed one. A file signed with an identity is
/// refused: stamping invalidates that signature, and signing the file ad-hoc in its place would hide
/// that it was signed before it was stamped.
pub fn signed_ad_hoc(success: bool, stderr: &[u8]) -> (signed: Result<bool, StampError>)
    ensures
        match signed {
            Ok(ad_hoc) => ad_hoc == success && (ad_hoc ==> holds_line(
                lossy_text(stderr@),
                "Signature=adhoc"@,
            )),
            Err(error) => error == StampError::SignedWithIdentity && success && !holds_line(
                lossy_text(stderr@),
                "Signature=adhoc"@,
            ),
        },
{
    if !success {
        return Ok(false);
    }
    if has_line(from_utf8_lossy(stderr).as_str(), "Signature=adhoc") {
        return Ok(true);
    }
    Err(StampError::SignedWithIdentity)
}

/// How signing a file ad-hoc ended, from how `codesign --sign` ended and what it wrote.
pub fn sign_ad_hoc(success: bool, stderr: &[u8]) -> (signed: Result<(), StampError>)
    ensures
        match signed {
            Ok(()) => success,
            Err(StampError::CodesignFailed(output)) => !success && output@ == trimmed(
                lossy_text(stderr@),
            ),
            Err(_) => false,
        },
{
    if !success {
        return Err(StampError::CodesignFailed(trim(from_utf8_lossy(stderr).as_str())));
    }
    Ok(())
}

} // verus!
