//! The randomness source of the kitty ledger: a 128-bit Blake2 digest over
//! the SCALE encoding of a seed, the caller and the position of the call.

use parity_scale_codec::Encode;
use vstd::prelude::*;

verus! {

/// The 128-bit Blake2b digest of `data`. The digest is computed by the
/// hashing crate; nothing here says which bytes it holds.
pub uninterp spec fn blake2_128_digest(data: Seq<u8>) -> [u8; 16];

/// The `width` low-order bytes of `value`, least significant first.
pub open spec fn le_bytes(value: nat, width: nat) -> Seq<u8>
    decreases width,
{
    if width == 0 {
        Seq::empty()
    } else {
        seq![(value % 256) as u8] + le_bytes(value / 256, (width - 1) as nat)
    }
}

/// The SCALE encoding of an optional call index: a zero byte for `None`, a
/// one byte followed by the four little-endian bytes of the index otherwise.
pub open spec fn index_bytes(index: Option<u32>) -> Seq<u8> {
    match index {
        None => seq![0u8],
        Some(i) => seq![1u8] + le_bytes(i as nat, 4),
    }
}

/// The SCALE encoding of the hashed payload: the seed as it stands, the
/// eight little-endian bytes of the sender, then the encoded call index.
pub open spec fn payload_bytes(seed: Seq<u8>, sender: u64, index: Option<u32>) -> Seq<u8> {
    seed + le_bytes(sender as nat, 8) + index_bytes(index)
}

/// What the host hands the ledger for one call: the seed of the block's
/// randomness and the index of the running call within its block.
#[derive(Clone, Copy, Debug)]
pub struct Randomness {
    pub seed: [u8; 32],
    pub extrinsic_index: Option<u32>,
}

/// Calls `parity_scale_codec::Encode::encode` on the tuple of seed, sender
/// and call index. A tuple encodes as its fields one after another, a byte
/// array as its bytes, a fixed-width integer in little-endian order, and an
/// option as a tag byte followed by the value when there is one.
#[verifier::external_body]
fn encode_payload(seed: &[u8; 32], sender: u64, index: Option<u32>) -> (bytes: Vec<u8>)
    ensures
        bytes@ == payload_bytes(seed@, sender, index),
{
    (seed, &sender, index).encode()
}

/// Calls `sp_io::hashing::blake2_128`, which returns the sixteen-byte
/// Blake2b digest of `data` and depends on nothing else.
#[verifier::external_body]
fn blake2_128(data: &[u8]) -> (digest: [u8; 16])
    ensures
        digest == blake2_128_digest(data@),
{
    sp_io::hashing::blake2_128(data)
}

impl Randomness {
    /// A source with the given seed and call index.
    pub fn new(seed: [u8; 32], extrinsic_index: Option<u32>) -> (source: Randomness)
        ensures
            source.seed == seed,
            source.extrinsic_index == extrinsic_index,
    {
        Randomness { seed, extrinsic_index }
    }

    /// The entropy that this source holds for `sender`.
    pub open spec fn entropy(self, sender: u64) -> [u8; 16] {
        blake2_128_digest(payload_bytes(self.seed@, sender, self.extrinsic_index))
    }

    /// Sixteen bytes of entropy for `sender`: the digest of the encoded
    /// seed, sender and call index. The same three inputs always give the
    /// same bytes.
    pub fn random_value(&self, sender: u64) -> (value: [u8; 16])
        ensures
            value == self.entropy(sender),
    {
        let payload = encode_payload(&self.seed, sender, self.extrinsic_index);
        blake2_128(payload.as_slice())
    }
}

} // verus!
