use vstd::prelude::*;
use crate::text::{dec_of, lemma_dec_of_injective, u64_to_decimal};

verus! {

/// The 64-bit digest that the fxhash algorithm assigns to a string.
pub uninterp spec fn fx_hash64_of(s: Seq<char>) -> u64;

/// Relies on `fxhash::hash64`: an unseeded digest whose result is a
/// function of the hashed string alone, stable across runs and processes.
#[verifier::external_body]
fn fx_hash64(s: &str) -> (h: u64)
    ensures
        h == fx_hash64_of(s@),
{
    fxhash::hash64(s)
}

/// The content key of a stable identifier: the decimal rendering of its
/// 64-bit digest, used as the host-side search key and the file name stem.
pub open spec fn content_key_of(s: Seq<char>) -> Seq<char> {
    dec_of(fx_hash64_of(s) as nat)
}

/// Derives the content key for a stable identifier.
pub fn content_key(stable_identifier: &str) -> (key: String)
    ensures
        key@ == content_key_of(stable_identifier@),
{
    let h = fx_hash64(stable_identifier);
    u64_to_decimal(h)
}

/// Law: content addressing is deterministic — the same stable identifier
/// always yields the same key, in this run and in any other.
pub proof fn lemma_content_key_deterministic(a: Seq<char>, b: Seq<char>)
    ensures
        a == b ==> content_key_of(a) == content_key_of(b),
{
}

/// Law: two stable identifiers share a key only when their digests
/// collide; distinct digests always give distinct keys.
pub proof fn lemma_content_key_distinct(a: Seq<char>, b: Seq<char>)
    ensures
        fx_hash64_of(a) != fx_hash64_of(b) ==> content_key_of(a) != content_key_of(b),
{
    if fx_hash64_of(a) != fx_hash64_of(b) {
        lemma_dec_of_injective(fx_hash64_of(a) as nat, fx_hash64_of(b) as nat);
    }
}

} // verus!
