use vstd::prelude::*;
use sha2::Digest;

verus! {

/// The SHA-256 digest of `data`, as the `sha2` crate computes it.
pub uninterp spec fn sha256_of(data: Seq<u8>) -> Seq<u8>;

/// Runs `sha2::Sha256` over `data` (`new`, `update`, `finalize`) and returns the
/// 32-byte digest. The contract claims only that the result is the SHA-256 digest
/// of `data`, named `sha256_of`; the digest's value is not stated.
#[verifier::external_body]
fn sha256_digest(data: &[u8]) -> (out: [u8; 32])
    ensures
        out@ == sha256_of(data@),
{
    let mut hasher = sha2::Sha256::new();
    hasher.update(data);
    hasher.finalize().into()
}

/// A hash function over byte strings with a fixed digest size.
pub trait Sha256Base: Sized {
    /// The digest size in bytes.
    spec fn spec_hash_size() -> usize;

    /// The digest of `seed`.
    spec fn spec_hash(seed: Seq<u8>) -> Seq<u8>;

    fn hash_size() -> (n: usize)
        ensures
            n == Self::spec_hash_size(),
    ;

    fn hash(seed: &[u8]) -> (out: Vec<u8>)
        ensures
            out@ == Self::spec_hash(seed@),
            out@.len() == Self::spec_hash_size(),
    ;
}

/// A SHA-256 digest.
pub struct Sha256(pub [u8; 32]);

impl Sha256 {
    /// The digest of `seed`.
    pub fn digest(seed: &[u8]) -> (d: Sha256)
        ensures
            d.0@ == sha256_of(seed@),
    {
        Sha256(sha256_digest(seed))
    }

    /// The digest's bytes.
    pub fn as_ref(&self) -> (bytes: &[u8])
        ensures
            bytes@ == self.0@,
            bytes@.len() == 32,
    {
        self.0.as_slice()
    }
}

impl Sha256Base for Sha256 {
    open spec fn spec_hash_size() -> usize {
        32
    }

    open spec fn spec_hash(seed: Seq<u8>) -> Seq<u8> {
        sha256_of(seed)
    }

    fn hash_size() -> (n: usize) {
        32
    }

    fn hash(seed: &[u8]) -> (out: Vec<u8>) {
        let digest = sha256_digest(seed);
        let mut out: Vec<u8> = Vec::new();
        let mut i: usize = 0;
        while i < 32
            invariant
                i <= 32,
                digest@.len() == 32,
                out@ == digest@.subrange(0, i as int),
            decreases 32 - i,
        {
            out.push(digest[i]);
            i = i + 1;
            assert(out@ =~= digest@.subrange(0, i as int));
        }
        assert(out@ =~= digest@);
        out
    }
}

/// A signing scheme whose signatures have a fixed size. The implementation is
/// supplied by the device: it may hold a key and may be randomized, so a
/// signature is said to be one of the data's signatures (`spec_signs`), of the
/// scheme's size, and not a particular one.
pub trait SignatureBase: Sized {
    /// The signature size in bytes.
    spec fn spec_signature_size() -> usize;

    fn signature_size() -> (n: usize)
        ensures
            n == Self::spec_signature_size(),
    ;

    /// Whether `signature` is a signature of `data` under this scheme.
    spec fn spec_signs(data: Seq<u8>, signature: Seq<u8>) -> bool;

    fn sign(data: &[u8]) -> (signature: Vec<u8>)
        ensures
            signature@.len() == Self::spec_signature_size(),
            Self::spec_signs(data@, signature@),
    ;
}

} // verus!
