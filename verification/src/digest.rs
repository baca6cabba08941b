//! The content digest.

use vstd::prelude::*;

verus! {

/// The SHA-1 digest of `data`, written as forty lower-case hexadecimal
/// digits. It names what the `sha1` crate computes; its value is a function
/// of the bytes alone.
pub uninterp spec fn sha1_hex(data: Seq<u8>) -> Seq<char>;

/// Hashes `data` with `sha1::Sha1::from(..).hexdigest()`.
///
/// Trusted: the result is taken to be `sha1_hex` of the same bytes, which
/// says no more than that equal inputs give equal digests.
#[verifier::external_body]
pub(crate) fn sha1_hexdigest(data: &Vec<u8>) -> (digest: String)
    ensures
        digest@ == sha1_hex(data@),
{
    sha1::Sha1::from(data).hexdigest()
}

} // verus!
