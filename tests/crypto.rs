use bbchain::crypto::{
    address_from_key_bytes, double_hash, hash, hash_to_hex, hashes_equal, public_key_to_address,
    sign, verify,
};

fn keypair() -> (secp256k1::SecretKey, secp256k1::PublicKey) {
    let secp = secp256k1::Secp256k1::new();
    secp.generate_keypair(&mut rand::thread_rng())
}

#[test]
fn sha256_of_abc() {
    let h = hash(b"abc");
    assert_eq!(
        hash_to_hex(&h),
        "ba7816bf8f01cfea414140de5dae2223b00361a396177a9cb410ff61f20015ad"
    );
}

#[test]
fn double_hash_is_hash_of_hash() {
    let once = hash(b"block header");
    let twice = hash(&once);
    assert_eq!(double_hash(b"block header"), twice);
    assert_ne!(double_hash(b"block header"), once);
}

#[test]
fn hex_is_lowercase_two_digits_per_byte() {
    let mut h = [0u8; 32];
    h[0] = 0xab;
    h[31] = 0x0f;
    let text = hash_to_hex(&h);
    assert_eq!(text.len(), 64);
    assert!(text.starts_with("ab00"));
    assert!(text.ends_with("000f"));
}

#[test]
fn hashes_equal_compares_every_byte() {
    let a = hash(b"a");
    let mut b = a;
    assert!(hashes_equal(&a, &b));
    b[31] ^= 1;
    assert!(!hashes_equal(&a, &b));
}

#[test]
fn address_is_marker_and_forty_hex_digits() {
    let (_, pk) = keypair();
    let address = public_key_to_address(&pk);
    assert!(address.starts_with("bb"));
    assert_eq!(address.len(), 42);
    assert!(address[2..].chars().all(|c| c.is_ascii_hexdigit() && !c.is_ascii_uppercase()));
}

#[test]
fn address_is_deterministic() {
    let (_, pk) = keypair();
    assert_eq!(public_key_to_address(&pk), public_key_to_address(&pk));
    let bytes = pk.serialize();
    assert_eq!(address_from_key_bytes(&bytes), public_key_to_address(&pk));
    let (_, other) = keypair();
    assert_ne!(public_key_to_address(&pk), public_key_to_address(&other));
}

#[test]
fn sign_then_verify_round_trip() {
    let (sk, pk) = keypair();
    for data in [&b""[..], &b"x"[..], &b"a longer message with several words"[..]] {
        let sig = sign(&sk, data).unwrap();
        assert!(verify(&pk, &sig, data));
    }
}

#[test]
fn verify_rejects_other_key_or_other_data() {
    let (sk, pk) = keypair();
    let (_, other) = keypair();
    let sig = sign(&sk, b"pay 10 to bob").unwrap();
    assert!(!verify(&other, &sig, b"pay 10 to bob"));
    assert!(!verify(&pk, &sig, b"pay 11 to bob"));
}

#[test]
fn address_of_fixed_key_bytes() {
    let mut key = [0x11u8; 33];
    key[0] = 0x02;
    assert_eq!(address_from_key_bytes(&key), "bbadfce54f529b2154e3c361bbe3f7d41db0635717");
}

#[test]
fn verify_bytes_needs_well_formed_inputs() {
    let (sk, pk) = keypair();
    let sig = sign(&sk, b"data").unwrap();
    let compact = sig.serialize_compact();
    let key = pk.serialize();
    assert!(bbchain::crypto::verify_bytes(&key, &compact, b"data"));
    assert!(!bbchain::crypto::verify_bytes(&key[..32], &compact, b"data"));
    assert!(!bbchain::crypto::verify_bytes(&key, &compact[..63], b"data"));
    assert!(!bbchain::crypto::verify_bytes(&key, &compact, b"other"));
}
