//! Identifier derivation for generated rows (listings, auctions, bids,
//! events, matches).
//!
//! An identifier is a name-based UUID over a `kind:stamp:extra` name, so a
//! row's id is a deterministic function of what it was created from.

use vstd::prelude::*;

verus! {

/// The identifier derived from a kind tag, a timestamp and an extra
/// discriminator, as `new_id` computes it.
pub uninterp spec fn derived_id(kind: Seq<char>, stamp: int, extra: Seq<char>) -> Seq<char>;

/// Relies on uuid::Uuid::new_v5 over Uuid::NAMESPACE_URL: a name-based
/// (SHA-1) UUID, a deterministic function of the name bytes alone, here the
/// bytes of `kind:stamp_ms:extra`.
#[verifier::external_body]
pub(crate) fn new_id(kind: &str, stamp_ms: i64, extra: &str) -> (r: String)
    ensures
        r@ == derived_id(kind@, stamp_ms as int, extra@),
{
    let base = format!("{}:{}:{}", kind, stamp_ms, extra);
    uuid::Uuid::new_v5(&uuid::Uuid::NAMESPACE_URL, base.as_bytes()).to_string()
}

} // verus!
