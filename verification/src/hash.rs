//! Fixed-width identifiers: block identifiers, root commitments and the
//! genesis anchor are all 32-byte values.

use vstd::prelude::*;

verus! {

/// Number of bytes in a [`HashValue`].
pub const HASH_LENGTH: usize = 32;

/// A 32-byte identifier. The bridge never looks inside one: it only carries
/// it between the collaborators that produce and consume it.
#[derive(Clone, Copy, Debug, PartialEq, Eq)]
pub struct HashValue {
    pub bytes: [u8; 32],
}

impl View for HashValue {
    type V = Seq<u8>;

    open spec fn view(&self) -> Seq<u8> {
        self.bytes@
    }
}

/// Thirty-two zero bytes.
pub open spec fn zero_bytes() -> Seq<u8> {
    Seq::new(32, |i: int| 0u8)
}

impl HashValue {
    /// Wraps 32 bytes.
    pub fn new(bytes: [u8; 32]) -> (h: HashValue)
        ensures
            h.bytes == bytes,
    {
        HashValue { bytes }
    }

    /// The all-zero value, used as the placeholder consensus-data hash.
    pub fn zero() -> (h: HashValue)
        ensures
            h@ == zero_bytes(),
    {
        let bytes: [u8; 32] = [0u8; 32];
        HashValue { bytes }
    }

    /// The bytes as they are written to the genesis-anchor slot.
    pub fn to_vec(&self) -> (v: Vec<u8>)
        ensures
            v@ == self@,
    {
        let mut v: Vec<u8> = Vec::new();
        let mut i: usize = 0;
        while i < 32
            invariant
                i <= 32,
                v@ == self@.subrange(0, i as int),
            decreases 32 - i,
        {
            v.push(self.bytes[i]);
            i = i + 1;
        }
        v
    }

    /// Reads a value back from stored bytes: `Some` exactly when there are
    /// 32 of them.
    pub fn from_slice(bytes: &[u8]) -> (r: Option<HashValue>)
        ensures
            r is Some <==> bytes@.len() == 32,
            r matches Some(h) ==> h@ == bytes@,
    {
        if bytes.len() != HASH_LENGTH {
            return None;
        }
        let mut out: [u8; 32] = [0u8; 32];
        let mut i: usize = 0;
        while i < 32
            invariant
                i <= 32,
                bytes@.len() == 32,
                forall|j: int| 0 <= j < i ==> out@[j] == bytes@[j],
            decreases 32 - i,
        {
            out[i] = bytes[i];
            i = i + 1;
        }
        Some(HashValue { bytes: out })
    }
}

} // verus!
