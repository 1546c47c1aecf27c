//! The MD5 hasher that names a stored file by its content.
use md5::{Digest, Md5};
use vstd::prelude::*;

verus! {

/// A running MD5 computation, held in a private field: what it holds is the
/// sequence of bytes fed to it since it was made.
#[verifier::external_body]
pub struct Md5Hasher {
    inner: Md5,
}

/// What a hasher holds: the bytes it has been fed, in order.
pub uninterp spec fn md5_input(hasher: Md5Hasher) -> Seq<u8>;

/// The MD5 digest of `data`.
pub uninterp spec fn md5_digest(data: Seq<u8>) -> Seq<u8>;

/// `Md5::new()`: a hasher that has been fed nothing.
#[verifier::external_body]
pub(crate) fn md5_new() -> (hasher: Md5Hasher)
    ensures
        md5_input(hasher) == Seq::<u8>::empty(),
{
    Md5Hasher { inner: Md5::new() }
}

/// `Digest::update`: feeds `data` to the hasher after what it already holds.
#[verifier::external_body]
pub(crate) fn md5_update(hasher: &mut Md5Hasher, data: &[u8])
    ensures
        md5_input(*final(hasher)) == md5_input(*old(hasher)) + data@,
{
    Digest::update(&mut hasher.inner, data)
}

/// `Digest::finalize`: the 16-byte MD5 digest of all the bytes fed.
#[verifier::external_body]
pub(crate) fn md5_finalize(hasher: Md5Hasher) -> (digest: Vec<u8>)
    ensures
        digest@ == md5_digest(md5_input(hasher)),
        digest@.len() == 16,
{
    hasher.inner.finalize().to_vec()
}

} // verus!
