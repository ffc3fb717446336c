//! The digest by which the files of amplifying inputs are told apart. The
//! digest is the md-5 crate's; what is stated of it here is taken on trust.
use vstd::prelude::*;
use md5::{Digest, Md5};

verus! {

/// The MD5 digest of a sequence of bytes, as `Md5::digest` computes it.
pub uninterp spec fn md5_of(data: Seq<u8>) -> Seq<u8>;

/// Calls `Md5::digest`: the sixteen bytes of the MD5 digest of `data`.
#[verifier::external_body]
pub(crate) fn md5_digest(data: &[u8]) -> (digest: Vec<u8>)
    ensures
        digest@ == md5_of(data@),
        digest@.len() == 16,
{
    Md5::digest(data).to_vec()
}

} // verus!
