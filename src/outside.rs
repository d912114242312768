//! Calls into outside crates: the keyed hash of a query name and random draws.
use std::hash::{Hash, Hasher};
use vstd::prelude::*;

verus! {

/// The SipHash-1-3 digest, under the all-zero key, of a query name fed to the
/// hasher as a byte vector.
pub uninterp spec fn qname_hash(qname: Seq<u8>) -> u64;

/// Relies on siphasher's `SipHasher13::new` (fixed zero key) and `finish`: the
/// digest depends on the bytes alone.
#[verifier::external_body]
pub(crate) fn hash_qname(qname: &Vec<u8>) -> (h: u64)
    ensures
        h == qname_hash(qname@),
{
    let mut hs = siphasher::sip::SipHasher13::new();
    qname.hash(&mut hs);
    hs.finish()
}

/// Relies on rand's `Rng::gen_range` over `0..n`: a value in that range,
/// which panics only on an empty range.
#[verifier::external_body]
pub(crate) fn random_below(n: usize) -> (r: usize)
    requires
        n > 0,
    ensures
        r < n,
{
    rand::Rng::gen_range(&mut rand::thread_rng(), 0..n)
}

/// Relies on rand's `random` for `u16`: any value may come.
#[verifier::external_body]
pub(crate) fn random_u16() -> (r: u16) {
    rand::random::<u16>()
}

} // verus!
