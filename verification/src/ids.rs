//! Identifier derivation. Feed and entry ids are not generated at random:
//! they are a URL-safe base64 encoding of the feed URL, respectively of the
//! upstream item's native id, so that re-adding the same feed or re-fetching
//! the same item always lands on the same row.

use vstd::prelude::*;

verus! {

use base64::Engine;

/// The URL-safe base64 encoding (with padding) of a string's bytes. The
/// encoding itself is an outside algorithm; this name stands for its result,
/// which depends on the input alone.
pub uninterp spec fn base64_url_of(s: Seq<char>) -> Seq<char>;

/// Relies on base64's `URL_SAFE` engine: `encode` deterministically encodes
/// the input bytes with the URL-safe alphabet and padding.
#[verifier::external_body]
pub(crate) fn base64_url_encode(s: &str) -> (r: String)
    ensures
        r@ == base64_url_of(s@),
{
    base64::engine::general_purpose::URL_SAFE.encode(s.as_bytes())
}

} // verus!
