use vstd::prelude::*;

verus! {

/// The little-endian byte image of a 32-bit call-sequence index.
pub open spec fn u32_le_bytes(x: u32) -> Seq<u8> {
    seq![
        (x & 0xff) as u8,
        ((x >> 8) & 0xff) as u8,
        ((x >> 16) & 0xff) as u8,
        ((x >> 24) & 0xff) as u8,
    ]
}

/// The little-endian byte image of a 64-bit round number.
pub open spec fn u64_le_bytes(x: u64) -> Seq<u8> {
    seq![
        (x & 0xff) as u8,
        ((x >> 8) & 0xff) as u8,
        ((x >> 16) & 0xff) as u8,
        ((x >> 24) & 0xff) as u8,
        ((x >> 32) & 0xff) as u8,
        ((x >> 40) & 0xff) as u8,
        ((x >> 48) & 0xff) as u8,
        ((x >> 56) & 0xff) as u8,
    ]
}

/// The fixed namespace tag, the ASCII bytes of `unique_id`. It separates
/// this registry's identifier derivation from any other consumer of the
/// same entropy source.
pub open spec fn context_tag() -> Seq<u8> {
    seq![117u8, 110u8, 105u8, 113u8, 117u8, 101u8, 95u8, 105u8, 100u8]
}

/// The byte string hashed to derive a candidate identifier: the entropy
/// draw, then the intra-round call index, then the round number, then the
/// namespace tag.
pub open spec fn payload_of(entropy: Seq<u8>, extrinsic_index: u32, block_number: u64) -> Seq<u8> {
    entropy + u32_le_bytes(extrinsic_index) + u64_le_bytes(block_number) + context_tag()
}

/// The 16-byte BLAKE2b digest of `input`, named but not written out: it is
/// a function of the input bytes alone, computed by an outside crate.
pub uninterp spec fn blake2_128_of(input: Seq<u8>) -> [u8; 16];

/// Relies on `blake2b_simd::Params::hash` with `hash_length(16)` and no key,
/// salt or personalization: an unkeyed BLAKE2b digest of exactly 16 bytes,
/// a deterministic function of the input bytes alone. `Hash::as_bytes`
/// returns exactly `hash_length` bytes.
#[verifier::external_body]
fn blake2_128(input: &Vec<u8>) -> (r: [u8; 16])
    ensures
        r == blake2_128_of(input@),
{
    let hash = blake2b_simd::Params::new().hash_length(16).hash(input.as_slice());
    let mut out = [0u8; 16];
    out.copy_from_slice(hash.as_bytes());
    out
}

/// Derives a candidate 16-byte identifier from an entropy draw and the call
/// context. Identical inputs always produce the identical output; collision
/// avoidance is probabilistic only, and uniqueness is enforced later, at
/// commit time.
pub fn gen_unique_id(entropy: &[u8; 32], extrinsic_index: u32, block_number: u64) -> (r: [u8; 16])
    ensures
        r == blake2_128_of(payload_of(entropy@, extrinsic_index, block_number)),
{
    let mut payload: Vec<u8> = Vec::new();
    let mut i: usize = 0;
    while i < 32
        invariant
            i <= 32,
            payload@ == entropy@.take(i as int),
        decreases 32 - i,
    {
        payload.push(entropy[i]);
        proof {
            assert(payload@ =~= entropy@.take(i + 1));
        }
        i = i + 1;
    }
    payload.push((extrinsic_index & 0xff) as u8);
    payload.push(((extrinsic_index >> 8) & 0xff) as u8);
    payload.push(((extrinsic_index >> 16) & 0xff) as u8);
    payload.push(((extrinsic_index >> 24) & 0xff) as u8);
    payload.push((block_number & 0xff) as u8);
    payload.push(((block_number >> 8) & 0xff) as u8);
    payload.push(((block_number >> 16) & 0xff) as u8);
    payload.push(((block_number >> 24) & 0xff) as u8);
    payload.push(((block_number >> 32) & 0xff) as u8);
    payload.push(((block_number >> 40) & 0xff) as u8);
    payload.push(((block_number >> 48) & 0xff) as u8);
    payload.push(((block_number >> 56) & 0xff) as u8);
    payload.push(117u8);
    payload.push(110u8);
    payload.push(105u8);
    payload.push(113u8);
    payload.push(117u8);
    payload.push(101u8);
    payload.push(95u8);
    payload.push(105u8);
    payload.push(100u8);
    proof {
        assert(entropy@.take(32) =~= entropy@);
        assert(payload@ =~= payload_of(entropy@, extrinsic_index, block_number));
    }
    blake2_128(&payload)
}

} // verus!
