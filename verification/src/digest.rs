use vstd::prelude::*;

verus! {

/// The SHA-1 digest of some bytes.
pub uninterp spec fn sha1_of(data: Seq<u8>) -> Seq<u8>;

/// The BLAKE2b digest with 32-byte output of some bytes.
pub uninterp spec fn blake2b256_of(data: Seq<u8>) -> Seq<u8>;

/// `sha1::Sha1::digest`: the 20-byte SHA-1 digest of `data`.
#[verifier::external_body]
pub(crate) fn sha1(data: &[u8]) -> (r: Vec<u8>)
    ensures
        r@ == sha1_of(data@),
        r@.len() == 20,
{
    <sha1::Sha1 as sha1::Digest>::digest(data).to_vec()
}

/// `blake2::Blake2b<U32>::digest`: the 32-byte BLAKE2b digest of `data`.
#[verifier::external_body]
pub(crate) fn blake2b256(data: &[u8]) -> (r: [u8; 32])
    ensures
        r@ == blake2b256_of(data@),
{
    <blake2::Blake2b<blake2::digest::consts::U32> as blake2::Digest>::digest(data).into()
}

} // verus!
