//! Short codes for numbers, made by the `hash-ids` crate from a salt.

use vstd::prelude::*;

verus! {

/// The code that `hash_ids::HashIds` built with salt `salt` (and the default
/// alphabet and minimum length) gives the numbers `ids`.
pub uninterp spec fn hashids_encode(salt: Seq<char>, ids: Seq<u64>) -> Seq<char>;

/// Calls `hash_ids::HashIds::builder().with_salt(salt).finish()` and then
/// `encode(ids)` on what it built. The result is named `hashids_encode(salt,
/// ids)`; its length is zero exactly where `ids` is empty (the source returns
/// an empty string there, and otherwise a lottery character followed by the
/// digits of each number). The source casts each number to `usize` and adds
/// up, in a `usize`, each number's remainder modulo its position plus 100.
/// The numbers are kept within `usize` and the list to at most 65536 of them:
/// then the cast loses nothing, the sum stays below 2^32, and the call neither
/// overflows nor gives another code on a 32-bit machine than on a 64-bit one.
#[verifier::external_body]
fn hash_ids_encode(salt: &str, ids: &[u64]) -> (code: String)
    requires
        ids@.len() <= 65536,
        forall|i: int| 0 <= i < ids@.len() ==> ids@[i] <= usize::MAX,
    ensures
        code@ == hashids_encode(salt@, ids@),
        code@.len() == 0 <==> ids@.len() == 0,
{
    hash_ids::HashIds::builder().with_salt(salt).finish().encode(ids)
}

/// The settings of a hashids encoder: its salt.
pub struct IdEncoder {
    pub salt: String,
}

impl IdEncoder {
    /// An encoder with salt `salt`.
    pub fn with_salt(salt: &str) -> (e: IdEncoder)
        ensures
            e.salt@ == salt@,
    {
        IdEncoder { salt: salt.to_owned() }
    }

    /// The code of the numbers `ids` under this encoder's salt; empty exactly
    /// where `ids` is. There may be at most 65536 numbers, each fitting in a
    /// `usize`.
    pub fn encode(&self, ids: &[u64]) -> (code: String)
        requires
            ids@.len() <= 65536,
            forall|i: int| 0 <= i < ids@.len() ==> ids@[i] <= usize::MAX,
        ensures
            code@ == hashids_encode(self.salt@, ids@),
            code@.len() == 0 <==> ids@.len() == 0,
    {
        hash_ids_encode(self.salt.as_str(), ids)
    }
}

} // verus!
