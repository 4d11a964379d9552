//! Descriptors: the (length, bytes) pairs through which buffers cross into
//! the protection primitive and come back from it.

use vstd::prelude::*;

verus! {

/// Whether a buffer of `bytes` can be described: the length field of a
/// descriptor is 32 bits wide.
pub open spec fn fits(bytes: Seq<u8>) -> bool {
    bytes.len() <= u32::MAX
}

/// A non-owning descriptor of a byte buffer: a 32-bit length and the buffer
/// it refers to, all of which it covers. It borrows the buffer, so the buffer
/// stays valid and unmoved for as long as the descriptor lives. It is neither
/// `Copy` nor `Clone`: consuming one ends its use.
pub struct Blob<'a> {
    length: u32,
    bytes: &'a [u8],
}

impl<'a> Blob<'a> {
    #[verifier::type_invariant]
    spec fn length_matches(self) -> bool {
        self.length as int == self.bytes@.len()
    }

    /// The descriptor that `to_blob` builds over a buffer that fits.
    pub closed spec fn over(bytes: &'a [u8]) -> Blob<'a> {
        Blob { length: bytes@.len() as u32, bytes }
    }

    /// The bytes that the descriptor covers.
    pub closed spec fn view(&self) -> Seq<u8> {
        self.bytes@
    }

    /// The descriptor over `bytes` covers `bytes`.
    pub proof fn lemma_over(bytes: &'a [u8])
        ensures
            Blob::over(bytes)@ == bytes@,
    {
    }

    /// The length field of the descriptor: the number of covered bytes.
    pub fn length(&self) -> (length: u32)
        ensures
            length == self@.len(),
    {
        proof {
            use_type_invariant(self);
        }
        self.length
    }

    /// The covered bytes, borrowed from the described buffer.
    pub fn bytes(&self) -> (bytes: &'a [u8])
        ensures
            bytes@ == self@,
    {
        self.bytes
    }
}

/// The length field for a buffer of `len` bytes: `len` itself where it fits
/// in 32 bits, and `None` where it does not.
pub fn descriptor_length(len: usize) -> (length: Option<u32>)
    ensures
        length is Some <==> len <= u32::MAX,
        length matches Some(n) ==> n == len,
{
    if len > u32::MAX as usize {
        None
    } else {
        Some(len as u32)
    }
}

/// Builds the descriptor of `bytes`, which covers the whole buffer. A buffer
/// whose length does not fit in 32 bits has no descriptor: the answer is
/// `None`, and never a descriptor of a part.
pub fn to_blob<'a>(bytes: &'a [u8]) -> (blob: Option<Blob<'a>>)
    ensures
        blob is Some <==> fits(bytes@),
        blob matches Some(b) ==> b == Blob::over(bytes) && b@ == bytes@,
{
    match descriptor_length(bytes.len()) {
        Some(length) => Some(Blob { length, bytes }),
        None => None,
    }
}

/// Copies the covered bytes of a descriptor into a buffer that the caller
/// owns, and consumes the descriptor.
pub fn take_blob(blob: Blob<'_>) -> (owned: Vec<u8>)
    ensures
        owned@ == blob@,
{
    let source: &[u8] = blob.bytes();
    let n: usize = source.len();
    let mut owned: Vec<u8> = Vec::with_capacity(n);
    let mut i: usize = 0;
    while i < n
        invariant
            n == source@.len(),
            i <= n,
            owned@ == source@.subrange(0, i as int),
        decreases n - i,
    {
        owned.push(source[i]);
        i += 1;
        assert(owned@ =~= source@.subrange(0, i as int));
    }
    assert(owned@ =~= source@);
    owned
}

} // verus!
