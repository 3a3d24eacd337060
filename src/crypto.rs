//! Hashing, address derivation, signing and signature checks.
use vstd::prelude::*;
use sha2::Digest;

verus! {

/// A 32-byte digest, the identifier of transactions and blocks.
pub type Hash = [u8; 32];

/// A human-readable account identifier derived from a public key.
pub type Address = String;

#[verifier::external_type_specification]
#[verifier::external_body]
pub struct ExSecretKey(secp256k1::SecretKey);

#[verifier::external_type_specification]
#[verifier::external_body]
pub struct ExPublicKey(secp256k1::PublicKey);

#[verifier::external_type_specification]
#[verifier::external_body]
pub struct ExSignature(secp256k1::ecdsa::Signature);

#[verifier::external_type_specification]
#[verifier::external_body]
pub struct ExSecpError(secp256k1::Error);

/// The SHA-256 digest of a byte string.
pub uninterp spec fn sha256_of(data: Seq<u8>) -> Seq<u8>;

/// The RIPEMD-160 digest of a byte string.
pub uninterp spec fn ripemd160_of(data: Seq<u8>) -> Seq<u8>;

/// SHA-256 applied twice.
pub open spec fn double_sha256(data: Seq<u8>) -> Seq<u8> {
    sha256_of(sha256_of(data))
}

/// Lower-case hexadecimal digit of a value below sixteen.
pub open spec fn hex_digit(n: u8) -> char {
    seq!['0', '1', '2', '3', '4', '5', '6', '7', '8', '9', 'a', 'b', 'c', 'd', 'e', 'f'][n as int]
}

/// Two lower-case hexadecimal digits per byte, high nibble first.
pub open spec fn hex_of(bytes: Seq<u8>) -> Seq<char>
    decreases bytes.len(),
{
    if bytes.len() == 0 {
        Seq::empty()
    } else {
        hex_of(bytes.drop_last()) + seq![hex_digit(bytes.last() / 16), hex_digit(bytes.last() % 16)]
    }
}

/// Marker that every address starts with.
pub open spec fn address_prefix() -> Seq<char> {
    seq!['b', 'b']
}

/// The address of a serialized public key: the marker, then the hexadecimal
/// RIPEMD-160 of the SHA-256 of the key.
pub open spec fn address_of_key(key: Seq<u8>) -> Seq<char> {
    address_prefix() + hex_of(ripemd160_of(sha256_of(key)))
}

/// Relies on sha2::Sha256::digest: the SHA-256 digest of `data`.
#[verifier::external_body]
pub fn hash(data: &[u8]) -> (r: Hash)
    ensures
        r@ == sha256_of(data@),
{
    sha2::Sha256::digest(data).into()
}

/// Relies on ripemd::Ripemd160::digest: the RIPEMD-160 digest of `data`.
#[verifier::external_body]
fn ripemd160(data: &[u8]) -> (r: [u8; 20])
    ensures
        r@ == ripemd160_of(data@),
{
    ripemd::Ripemd160::digest(data).into()
}

/// Relies on hex::encode: two lower-case hexadecimal digits per byte.
#[verifier::external_body]
fn to_hex(bytes: &[u8]) -> (r: String)
    ensures
        r@ == hex_of(bytes@),
{
    hex::encode(bytes)
}

/// The SHA-256 of the SHA-256 of `data`.
pub fn double_hash(data: &[u8]) -> (r: Hash)
    ensures
        r@ == double_sha256(data@),
{
    let first = hash(data);
    hash(first.as_slice())
}

/// Lower-case hexadecimal text of a digest.
pub fn hash_to_hex(hash: &Hash) -> (r: String)
    ensures
        r@ == hex_of(hash@),
{
    to_hex(hash.as_slice())
}

/// The address of a serialized public key.
pub fn address_from_key_bytes(key: &[u8]) -> (r: Address)
    ensures
        r@ == address_of_key(key@),
{
    let digest = hash(key);
    let short = ripemd160(digest.as_slice());
    let mut address = "bb".to_owned();
    proof {
        reveal_strlit("bb");
    }
    let tail = to_hex(short.as_slice());
    address.append(tail.as_str());
    address
}

/// Relies on secp256k1::PublicKey::serialize: the 33-byte compressed form of the key.
#[verifier::external_body]
pub(crate) fn serialize_public_key(public_key: &secp256k1::PublicKey) -> (r: Vec<u8>)
    ensures
        r@.len() == 33,
{
    public_key.serialize().to_vec()
}

/// The address of a public key: the address of its 33-byte compressed form.
pub fn public_key_to_address(public_key: &secp256k1::PublicKey) -> (r: Address)
    ensures
        exists|key: Seq<u8>| key.len() == 33 && r@ == address_of_key(key),
{
    let key = serialize_public_key(public_key);
    let r = address_from_key_bytes(key.as_slice());
    assert(key@.len() == 33 && r@ == address_of_key(key@));
    r
}

/// Same public key bytes, same address; every address begins with the marker.
pub proof fn lemma_address_deterministic(k1: Seq<u8>, k2: Seq<u8>)
    requires
        k1 == k2,
    ensures
        address_of_key(k1) == address_of_key(k2),
        address_of_key(k1).subrange(0, 2) == address_prefix(),
{
    assert(address_of_key(k1).subrange(0, 2) =~= address_prefix());
}

/// Relies on secp256k1's sign_ecdsa: a deterministic ECDSA signature of the digest.
#[verifier::external_body]
fn sign_digest(secret_key: &secp256k1::SecretKey, digest: &Hash) -> (r: secp256k1::ecdsa::Signature) {
    let secp = secp256k1::Secp256k1::signing_only();
    secp.sign_ecdsa(&secp256k1::Message::from_digest(*digest), secret_key)
}

/// Whether secp256k1 accepts a compact ECDSA signature over a digest under a
/// serialized public key.
pub uninterp spec fn ecdsa_accepts(public_key: Seq<u8>, signature: Seq<u8>, digest: Seq<u8>) -> bool;

/// Relies on secp256k1's PublicKey::from_slice, ecdsa::Signature::from_compact and
/// verify_ecdsa: false when either does not parse (a key must be 33 or 65 bytes, a
/// signature 64), else whether the signature is valid for the digest under the key.
#[verifier::external_body]
fn verify_encoded(public_key: &[u8], signature: &[u8], digest: &Hash) -> (r: bool)
    ensures
        r == ecdsa_accepts(public_key@, signature@, digest@),
        public_key@.len() != 33 && public_key@.len() != 65 ==> !r,
        signature@.len() != 64 ==> !r,
{
    match (
        secp256k1::PublicKey::from_slice(public_key),
        secp256k1::ecdsa::Signature::from_compact(signature),
    ) {
        (Ok(key), Ok(sig)) => {
            let message = secp256k1::Message::from_digest(*digest);
            secp256k1::Secp256k1::verification_only().verify_ecdsa(&message, &sig, &key).is_ok()
        },
        _ => false,
    }
}

/// Whether `signature` over the SHA-256 digest of `data` is accepted under the
/// serialized `public_key`.
pub fn verify_bytes(public_key: &[u8], signature: &[u8], data: &[u8]) -> (r: bool)
    ensures
        r == ecdsa_accepts(public_key@, signature@, sha256_of(data@)),
{
    let digest = hash(data);
    verify_encoded(public_key, signature, &digest)
}

/// Signs the SHA-256 digest of `data`.
pub fn sign(secret_key: &secp256k1::SecretKey, data: &[u8]) -> (r: Result<
    secp256k1::ecdsa::Signature,
    secp256k1::Error,
>)
    ensures
        r is Ok,
{
    let digest = hash(data);
    Ok(sign_digest(secret_key, &digest))
}

/// Checks a signature over the SHA-256 digest of `data`: the key's compressed
/// form and the signature's compact form are accepted together.
pub fn verify(
    public_key: &secp256k1::PublicKey,
    signature: &secp256k1::ecdsa::Signature,
    data: &[u8],
) -> (r: bool)
    ensures
        exists|k: Seq<u8>, s: Seq<u8>|
            k.len() == 33 && s.len() == 64 && r == #[trigger] ecdsa_accepts(k, s, sha256_of(data@)),
{
    let key = serialize_public_key(public_key);
    let sig = signature_to_compact(signature);
    verify_bytes(key.as_slice(), sig.as_slice(), data)
}

/// Relies on secp256k1::ecdsa::Signature::serialize_compact: the 64-byte compact form.
#[verifier::external_body]
pub(crate) fn signature_to_compact(signature: &secp256k1::ecdsa::Signature) -> (r: Vec<u8>)
    ensures
        r@.len() == 64,
{
    signature.serialize_compact().to_vec()
}


/// Byte-wise equality of two digests.
pub fn hashes_equal(a: &Hash, b: &Hash) -> (r: bool)
    ensures
        r == (a@ == b@),
{
    let mut i: usize = 0;
    while i < 32
        invariant
            i <= 32,
            forall|j: int| 0 <= j < i ==> a@[j] == b@[j],
        decreases 32 - i,
    {
        if a[i] != b[i] {
            return false;
        }
        i = i + 1;
    }
    assert(a@ =~= b@);
    true
}

} // verus!
