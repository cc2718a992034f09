//! Content hashing of scanned files: a SHA-256 digest fed chunk by chunk, so
//! that a file never has to be held in memory whole.

use vstd::prelude::*;

verus! {

/// A running SHA-256 hasher. Its type is built from digest's generic core
/// wrappers over typenum sizes, which Verus cannot be told of one by one, so
/// the hasher is carried whole and opaque.
#[verifier::external_body]
pub struct Sha256State {
    inner: sha2::Sha256,
}

/// The bytes a SHA-256 hasher has absorbed since it was created.
pub uninterp spec fn absorbed(h: Sha256State) -> Seq<u8>;

/// The lowercase hex text of the SHA-256 digest of `data`.
pub uninterp spec fn sha256_hex(data: Seq<u8>) -> Seq<char>;

/// Relies on `sha2::Digest::new`: a fresh hasher has absorbed nothing.
#[verifier::external_body]
fn hasher_new() -> (h: Sha256State)
    ensures
        absorbed(h) == Seq::<u8>::empty(),
{
    Sha256State { inner: <sha2::Sha256 as sha2::Digest>::new() }
}

/// Relies on `sha2::Digest::update`: the chunk is appended to what the
/// hasher has absorbed.
#[verifier::external_body]
fn hasher_update(h: &mut Sha256State, chunk: &[u8])
    ensures
        absorbed(*final(h)) == absorbed(*old(h)) + chunk@,
{
    sha2::Digest::update(&mut h.inner, chunk)
}

/// Relies on `sha2::Digest::finalize`, on a copy of the hasher, and on
/// generic-array's `LowerHex`, which writes two lowercase digits per byte of
/// the 32-byte digest.
#[verifier::external_body]
fn hasher_hex(h: &Sha256State) -> (r: String)
    ensures
        r@ == sha256_hex(absorbed(*h)),
        r@.len() == 64,
{
    format!("{:x}", sha2::Digest::finalize(h.inner.clone()))
}

/// A SHA-256 digest in progress over a file's bytes.
pub struct ContentDigest {
    hasher: Sha256State,
}

impl View for ContentDigest {
    type V = Seq<u8>;

    /// The bytes fed so far.
    closed spec fn view(&self) -> Seq<u8> {
        absorbed(self.hasher)
    }
}

impl ContentDigest {
    /// A digest over no bytes yet.
    pub fn new() -> (d: ContentDigest)
        ensures
            d@ == Seq::<u8>::empty(),
    {
        ContentDigest { hasher: hasher_new() }
    }

    /// Feeds the next chunk of the content.
    pub fn update(&mut self, chunk: &[u8])
        ensures
            final(self)@ == old(self)@ + chunk@,
    {
        hasher_update(&mut self.hasher, chunk);
    }

    /// The hex-encoded digest of everything fed so far.
    pub fn hex(&self) -> (r: String)
        ensures
            r@ == sha256_hex(self@),
            r@.len() == 64,
    {
        hasher_hex(&self.hasher)
    }
}

} // verus!
