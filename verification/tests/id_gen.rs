use iot_auth::id_gen::gen_unique_id;

#[test]
fn derivation_is_deterministic() {
    let entropy = [5u8; 32];
    assert_eq!(gen_unique_id(&entropy, 1, 2), gen_unique_id(&entropy, 1, 2));
}

#[test]
fn context_distinguishes_candidates() {
    let entropy = [5u8; 32];
    let base = gen_unique_id(&entropy, 1, 2);
    assert_ne!(base, gen_unique_id(&entropy, 2, 2));
    assert_ne!(base, gen_unique_id(&entropy, 1, 3));
    let other_entropy = [6u8; 32];
    assert_ne!(base, gen_unique_id(&other_entropy, 1, 2));
}

#[test]
fn matches_blake2b_of_the_payload() {
    let entropy = [0x11u8; 32];
    let extrinsic_index: u32 = 3;
    let block_number: u64 = 99;

    let mut payload = Vec::new();
    payload.extend_from_slice(&entropy);
    payload.extend_from_slice(&extrinsic_index.to_le_bytes());
    payload.extend_from_slice(&block_number.to_le_bytes());
    payload.extend_from_slice(b"unique_id");

    let digest = blake2b_simd::Params::new()
        .hash_length(16)
        .hash(&payload);

    assert_eq!(&gen_unique_id(&entropy, extrinsic_index, block_number)[..], digest.as_bytes());
}
