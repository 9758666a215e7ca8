//! Crypto utilities: content hashing and asymmetric signatures.
//!
//! The outside calls (sha2 for hashing, ring for Ed25519 signatures) stand
//! behind trusted wrappers. Their results are deterministic functions of
//! their inputs, so each is given a name that the wrappers' contracts and the
//! callers' contracts share; private keys are carried as PKCS#8 v2 documents,
//! plain byte strings that the names can be stated over.

use vstd::prelude::*;

verus! {

/// The 32-byte SHA-256 digest of `data`, as `sha2::Sha256` computes it. A
/// function of `data` alone.
pub uninterp spec fn spec_sha256(data: Seq<u8>) -> Seq<u8>;

/// The lowercase hexadecimal digit for `n`.
pub open spec fn spec_hex_char(n: int) -> char
    recommends
        0 <= n < 16,
{
    "0123456789abcdef"@[n]
}

/// A byte string in lowercase hexadecimal: two digits per byte, high nibble
/// first.
pub open spec fn spec_to_hex(bytes: Seq<u8>) -> Seq<char>
    decreases bytes.len(),
{
    if bytes.len() == 0 {
        Seq::empty()
    } else {
        seq![spec_hex_char((bytes[0] / 16) as int), spec_hex_char((bytes[0] % 16) as int)] + spec_to_hex(
            bytes.drop_first(),
        )
    }
}

/// The content hash as the chain stores it: the SHA-256 digest of `data` in
/// lowercase hexadecimal.
pub open spec fn spec_sha256_hex(data: Seq<u8>) -> Seq<char> {
    spec_to_hex(spec_sha256(data))
}

/// Appending one byte extends the hex encoding by its two digits.
proof fn lemma_to_hex_push(bytes: Seq<u8>, b: u8)
    ensures
        spec_to_hex(bytes.push(b)) == spec_to_hex(bytes) + seq![
            spec_hex_char((b / 16) as int),
            spec_hex_char((b % 16) as int),
        ],
    decreases bytes.len(),
{
    if bytes.len() == 0 {
        assert(bytes.push(b)[0] == b);
        assert(bytes.push(b).drop_first() =~= Seq::<u8>::empty());
        assert(spec_to_hex(bytes.push(b).drop_first()) == Seq::<char>::empty());
        assert(spec_to_hex(bytes.push(b)) =~= spec_to_hex(bytes) + seq![
            spec_hex_char((b / 16) as int),
            spec_hex_char((b % 16) as int),
        ]);
    } else {
        assert(bytes.push(b).drop_first() =~= bytes.drop_first().push(b));
        lemma_to_hex_push(bytes.drop_first(), b);
        assert(spec_to_hex(bytes.push(b)) =~= spec_to_hex(bytes) + seq![
            spec_hex_char((b / 16) as int),
            spec_hex_char((b % 16) as int),
        ]);
    }
}

/// The hex encoding has two characters per byte.
proof fn lemma_to_hex_len(bytes: Seq<u8>)
    ensures
        spec_to_hex(bytes).len() == 2 * bytes.len(),
    decreases bytes.len(),
{
    if bytes.len() > 0 {
        lemma_to_hex_len(bytes.drop_first());
    }
}

/// Encodes a byte string in lowercase hexadecimal.
pub fn to_hex(bytes: &Vec<u8>) -> (r: String)
    ensures
        r@ == spec_to_hex(bytes@),
{
    let digits = "0123456789abcdef";
    proof {
        reveal_strlit("0123456789abcdef");
    }
    let mut out = String::new();
    let n = bytes.len();
    for i in 0..n
        invariant
            n == bytes@.len(),
            digits@ == "0123456789abcdef"@,
            digits@.len() == 16,
            out@ == spec_to_hex(bytes@.take(i as int)),
    {
        let b = bytes[i];
        let hi = (b >> 4) as usize;
        let lo = (b & 0x0f) as usize;
        proof {
            assert(b >> 4 == b / 16 && (b & 0x0f) == b % 16 && b >> 4 < 16 && (b & 0x0f) < 16)
                by (bit_vector);
        }
        out.append(digits.substring_char(hi, hi + 1));
        out.append(digits.substring_char(lo, lo + 1));
        proof {
            lemma_to_hex_push(bytes@.take(i as int), b);
            assert(bytes@.take(i + 1) == bytes@.take(i as int).push(bytes@[i as int]));
            assert(digits@.subrange(hi as int, hi + 1) =~= seq![spec_hex_char((b / 16) as int)]);
            assert(digits@.subrange(lo as int, lo + 1) =~= seq![spec_hex_char((b % 16) as int)]);
            assert(out@ =~= spec_to_hex(bytes@.take(i + 1)));
        }
    }
    assert(bytes@.take(n as int) == bytes@);
    out
}

/// The content hash of `data` as the chain stores it: SHA-256, in lowercase
/// hexadecimal, 64 characters in all.
pub fn sha256_hex(data: &Vec<u8>) -> (r: String)
    ensures
        r@ == spec_sha256_hex(data@),
        r@.len() == 64,
{
    let digest = sha256_digest(data);
    let r = to_hex(&digest);
    proof {
        lemma_to_hex_len(digest@);
    }
    r
}

/// Whether `pkcs8` is a well-formed PKCS#8 v2 Ed25519 key document, as
/// decided by `ring::signature::Ed25519KeyPair::from_pkcs8`. A function of
/// the bytes alone.
pub uninterp spec fn ed25519_valid_pkcs8(pkcs8: Seq<u8>) -> bool;

/// The public key embedded in a valid PKCS#8 v2 Ed25519 key document, as
/// returned by `ring::signature::KeyPair::public_key`.
pub uninterp spec fn ed25519_public_of(pkcs8: Seq<u8>) -> Seq<u8>;

/// The Ed25519 signature over `msg` by the key in `pkcs8`, as returned by
/// `ring::signature::Ed25519KeyPair::sign`. Ed25519 signing (RFC 8032) is
/// deterministic: the signature is a function of the key and the message.
pub uninterp spec fn ed25519_signature_of(pkcs8: Seq<u8>, msg: Seq<u8>) -> Seq<u8>;

/// Whether `sig` is a valid Ed25519 signature over `msg` by the holder of
/// `public_key`, as decided by `ring::signature::UnparsedPublicKey::verify`.
/// A function of its three arguments alone.
pub uninterp spec fn ed25519_verifies(public_key: Seq<u8>, msg: Seq<u8>, sig: Seq<u8>) -> bool;

/// Relies on `sha2::Sha256` via `sha2::Digest::digest`: the 256-bit (32-byte)
/// digest of the input, a function of the input bytes alone.
#[verifier::external_body]
pub fn sha256_digest(data: &Vec<u8>) -> (r: Vec<u8>)
    ensures
        r@ == spec_sha256(data@),
        r@.len() == 32,
{
    let digest = <sha2::Sha256 as sha2::Digest>::digest(data.as_slice());
    digest.to_vec()
}

/// Relies on `ring::signature::Ed25519KeyPair::generate_pkcs8` and
/// `ring::rand::SystemRandom`: on success the returned document is a PKCS#8
/// v2 Ed25519 key that `from_pkcs8` accepts. The key material is drawn from
/// the system's secure random source, so nothing more is promised of it.
#[verifier::external_body]
pub fn ed25519_generate_pkcs8() -> (r: Option<Vec<u8>>)
    ensures
        r matches Some(d) ==> ed25519_valid_pkcs8(d@),
{
    let rng = ring::rand::SystemRandom::new();
    match ring::signature::Ed25519KeyPair::generate_pkcs8(&rng) {
        Ok(doc) => Some(doc.as_ref().to_vec()),
        Err(_) => None,
    }
}

/// Relies on `ring::signature::Ed25519KeyPair::from_pkcs8` (which accepts
/// exactly the well-formed PKCS#8 v2 documents) and on
/// `ring::signature::KeyPair::public_key`.
#[verifier::external_body]
pub fn ed25519_public_key(pkcs8: &Vec<u8>) -> (r: Option<Vec<u8>>)
    ensures
        r is Some <==> ed25519_valid_pkcs8(pkcs8@),
        r matches Some(pk) ==> pk@ == ed25519_public_of(pkcs8@),
{
    match ring::signature::Ed25519KeyPair::from_pkcs8(pkcs8.as_slice()) {
        Ok(kp) => Some(ring::signature::KeyPair::public_key(&kp).as_ref().to_vec()),
        Err(_) => None,
    }
}

/// Relies on `ring::signature::Ed25519KeyPair::from_pkcs8` and
/// `ring::signature::Ed25519KeyPair::sign`: signing is deterministic
/// (RFC 8032), and a signature so produced verifies against the key
/// document's own public key over the same message.
#[verifier::external_body]
pub fn ed25519_sign(pkcs8: &Vec<u8>, msg: &Vec<u8>) -> (r: Option<Vec<u8>>)
    ensures
        r is Some <==> ed25519_valid_pkcs8(pkcs8@),
        r matches Some(sig) ==> sig@ == ed25519_signature_of(pkcs8@, msg@) && ed25519_verifies(
            ed25519_public_of(pkcs8@),
            msg@,
            sig@,
        ),
{
    match ring::signature::Ed25519KeyPair::from_pkcs8(pkcs8.as_slice()) {
        Ok(kp) => Some(kp.sign(msg.as_slice()).as_ref().to_vec()),
        Err(_) => None,
    }
}

/// Relies on `ring::signature::UnparsedPublicKey::verify` with the `ED25519`
/// algorithm: a predicate on its three arguments that never fails, returning
/// false for malformed or mismatched keys and signatures.
#[verifier::external_body]
pub fn ed25519_verify(public_key: &Vec<u8>, msg: &Vec<u8>, sig: &Vec<u8>) -> (r: bool)
    ensures
        r == ed25519_verifies(public_key@, msg@, sig@),
{
    let pk = ring::signature::UnparsedPublicKey::new(
        &ring::signature::ED25519,
        public_key.as_slice(),
    );
    pk.verify(msg.as_slice(), sig.as_slice()).is_ok()
}

} // verus!
