//! SHA-256 over a byte stream that arrives in pieces.

use vstd::prelude::*;

verus! {

/// A running SHA-256 computation of the `sha2` crate.
///
/// Verus does not look inside: what is known of a value is what the functions
/// below say of `hasher_input`.
#[verifier::external_body]
pub struct Sha256Stream {
    inner: sha2::Sha256,
}

/// The bytes that a hasher has been fed so far, in order.
pub uninterp spec fn hasher_input(hasher: Sha256Stream) -> Seq<u8>;

/// The SHA-256 digest of a byte string.
pub uninterp spec fn sha256(data: Seq<u8>) -> Seq<u8>;

/// Calls `Digest::new`: a hasher that has been fed nothing.
#[verifier::external_body]
pub(crate) fn new_hasher() -> (hasher: Sha256Stream)
    ensures
        hasher_input(hasher) == Seq::<u8>::empty(),
{
    Sha256Stream { inner: <sha2::Sha256 as sha2::Digest>::new() }
}

/// Calls `Digest::update`: the hasher has then been fed `data` after what it
/// had been fed before.
#[verifier::external_body]
pub(crate) fn feed_hasher(hasher: &mut Sha256Stream, data: &[u8])
    ensures
        hasher_input(*final(hasher)) == hasher_input(*old(hasher)) + data@,
{
    sha2::Digest::update(&mut hasher.inner, data)
}

/// Calls `Digest::finalize` on a copy of the hasher: the result is the SHA-256
/// digest, 32 bytes long, of all that the hasher has been fed.
#[verifier::external_body]
pub(crate) fn current_digest(hasher: &Sha256Stream) -> (digest: Vec<u8>)
    ensures
        digest@ == sha256(hasher_input(*hasher)),
        digest@.len() == 32,
{
    sha2::Digest::finalize(hasher.inner.clone()).to_vec()
}

} // verus!
