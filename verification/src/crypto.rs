//! What the node takes from cryptographic and encoding crates, each behind one small function
//! whose contract says what is relied on.
use vstd::prelude::*;

use bitcoin::secp256k1::schnorr::Signature;
use bitcoin::secp256k1::{Message, Secp256k1, XOnlyPublicKey};
use chacha20poly1305::aead::{Aead, AeadCore, KeyInit, OsRng, Payload};
use chacha20poly1305::XChaCha20Poly1305;
use rand::TryRngCore;
use sha2::Digest;
use zeroize::Zeroize;

verus! {

// ---------------------------------------------------------------------------------------------
// Hexadecimal
// ---------------------------------------------------------------------------------------------
/// The lower-case hexadecimal digit `d`.
pub open spec fn hex_digit(d: nat) -> char {
    if d < 10 {
        (48 + d) as char
    } else {
        (87 + d) as char
    }
}

/// Bytes as lower-case hexadecimal, two digits each.
pub open spec fn hex_text(b: Seq<u8>) -> Seq<char> {
    Seq::new(
        2 * b.len(),
        |i: int| hex_digit((if i % 2 == 0 {
            b[i / 2] / 16
        } else {
            b[i / 2] % 16
        }) as nat),
    )
}

/// The value of a hexadecimal digit of either case.
pub open spec fn hex_value(c: char) -> Option<nat> {
    if '0' <= c <= '9' {
        Some((c as int - 48) as nat)
    } else if 'a' <= c <= 'f' {
        Some((c as int - 87) as nat)
    } else if 'A' <= c <= 'F' {
        Some((c as int - 55) as nat)
    } else {
        None
    }
}

/// Whether `s` is an even number of hexadecimal digits.
pub open spec fn is_hex(s: Seq<char>) -> bool {
    s.len() % 2 == 0 && forall|i: int| 0 <= i < s.len() ==> hex_value(#[trigger] s[i]) is Some
}

/// The bytes that hexadecimal text writes.
pub open spec fn hex_bytes(s: Seq<char>) -> Seq<u8> {
    Seq::new(
        s.len() / 2,
        |i: int| (16 * hex_value(s[2 * i])->0 + hex_value(s[2 * i + 1])->0) as u8,
    )
}

/// `hex::encode` writes each byte as two lower-case hexadecimal digits.
#[verifier::external_body]
pub(crate) fn hex_encode(b: &[u8]) -> (r: String)
    ensures
        r@ == hex_text(b@),
{
    hex::encode(b)
}

/// `hex::decode` reads an even number of hexadecimal digits of either case, and fails on anything
/// else.
#[verifier::external_body]
pub(crate) fn hex_decode(s: &str) -> (r: Option<Vec<u8>>)
    ensures
        r is Some <==> is_hex(s@),
        r matches Some(b) ==> b@ == hex_bytes(s@),
{
    hex::decode(s).ok()
}

/// Decoding hexadecimal gives back what was encoded.
pub proof fn hex_round_trip(b: Seq<u8>)
    ensures
        is_hex(hex_text(b)),
        hex_bytes(hex_text(b)) == b,
{
    let s = hex_text(b);
    assert forall|d: nat| d < 16 implies #[trigger] hex_value(hex_digit(d)) == Some(d) by {
        if d < 10 {
            assert(hex_digit(d) as int == 48 + d);
        } else {
            assert(hex_digit(d) as int == 87 + d);
        }
    }
    assert forall|i: int| 0 <= i < s.len() implies hex_value(#[trigger] s[i]) is Some by {
        let d = (if i % 2 == 0 {
            b[i / 2] / 16
        } else {
            b[i / 2] % 16
        }) as nat;
        assert(d < 16);
        assert(s[i] == hex_digit(d));
        assert(hex_value(hex_digit(d)) == Some(d));
    }
    assert forall|i: int| 0 <= i < b.len() implies #[trigger] hex_bytes(s)[i] == b[i] by {
        let hi = (b[i] / 16) as nat;
        let lo = (b[i] % 16) as nat;
        assert((2 * i) / 2 == i && (2 * i + 1) / 2 == i);
        assert(s[2 * i] == hex_digit(hi));
        assert(s[2 * i + 1] == hex_digit(lo));
        assert(hex_value(hex_digit(hi)) == Some(hi));
        assert(hex_value(hex_digit(lo)) == Some(lo));
    }
    assert(hex_bytes(s) =~= b);
}

// ---------------------------------------------------------------------------------------------
// JSON strings, hashing
// ---------------------------------------------------------------------------------------------
/// What stands for a character in a JSON string literal: quotes, backslashes and control characters
/// are escaped, the latter by a letter where there is one, and everything else stands for itself.
pub open spec fn json_char(c: char) -> Seq<char> {
    let n = c as nat;
    if c == '"' || c == '\\' {
        seq!['\\', c]
    } else if n == 8 {
        seq!['\\', 'b']
    } else if n == 9 {
        seq!['\\', 't']
    } else if n == 10 {
        seq!['\\', 'n']
    } else if n == 12 {
        seq!['\\', 'f']
    } else if n == 13 {
        seq!['\\', 'r']
    } else if n < 32 {
        seq!['\\', 'u', '0', '0', hex_digit(n / 16), hex_digit(n % 16)]
    } else {
        seq![c]
    }
}

/// A text as a JSON string literal.
pub open spec fn json_text(s: Seq<char>) -> Seq<char> {
    seq!['"'] + s.flat_map(|c: char| json_char(c)) + seq!['"']
}

/// `serde_json::to_string` writes a text as a JSON string literal: quoted, with the escapes of
/// [`json_char`] and no others.
#[verifier::external_body]
pub(crate) fn json_string(s: &str) -> (r: String)
    ensures
        r@ == json_text(s@),
{
    serde_json::to_string(s).expect("a string always serializes")
}

/// Whether bytes are a JSON value, as `serde_json` reads one.
pub uninterp spec fn json_form(b: Seq<u8>) -> bool;

/// `serde_json::from_slice` reads bytes as a JSON value, or says that they are none. The grammar is
/// left to the crate.
#[verifier::external_body]
pub(crate) fn is_json(b: &[u8]) -> (r: bool)
    ensures
        r == json_form(b@),
{
    serde_json::from_slice::<serde_json::Value>(b).is_ok()
}

/// The SHA-256 digest.
pub uninterp spec fn sha256(b: Seq<u8>) -> Seq<u8>;

/// `sha2::Sha256::digest` hashes bytes into 32 bytes.
#[verifier::external_body]
pub(crate) fn sha256_digest(b: &[u8]) -> (r: Vec<u8>)
    ensures
        r@ == sha256(b@),
        r@.len() == 32,
{
    sha2::Sha256::digest(b).to_vec()
}

// ---------------------------------------------------------------------------------------------
// Schnorr signatures
// ---------------------------------------------------------------------------------------------
/// Whether bytes are a valid x-only public key on secp256k1.
pub uninterp spec fn xonly_valid(key: Seq<u8>) -> bool;

/// `XOnlyPublicKey::from_slice` accepts 32 bytes that are a point's x coordinate.
#[verifier::external_body]
pub(crate) fn xonly_is_valid(key: &[u8]) -> (r: bool)
    ensures
        r == xonly_valid(key@),
        r ==> key@.len() == 32,
{
    XOnlyPublicKey::from_slice(key).is_ok()
}

/// Whether a 64-byte BIP-340 signature over a 32-byte digest verifies under an x-only key.
pub uninterp spec fn bip340(key: Seq<u8>, digest: Seq<u8>, sig: Seq<u8>) -> bool;

/// `Secp256k1::verify_schnorr` checks a BIP-340 signature. A key that is not valid, a signature
/// that is not 64 bytes long and a digest that is not 32 bytes long verify nothing.
#[verifier::external_body]
pub(crate) fn bip340_verifies(key: &[u8], digest: &[u8], sig: &[u8]) -> (r: bool)
    ensures
        r == bip340(key@, digest@, sig@),
        r ==> xonly_valid(key@) && sig@.len() == 64 && digest@.len() == 32,
{
    match (XOnlyPublicKey::from_slice(key), Signature::from_slice(sig), digest.try_into()) {
        (Ok(key), Ok(sig), Ok(digest)) => Secp256k1::verification_only()
            .verify_schnorr(&sig, &Message::from_digest(digest), &key)
            .is_ok(),
        _ => false,
    }
}

// ---------------------------------------------------------------------------------------------
// Key derivation and sealing
// ---------------------------------------------------------------------------------------------
/// 32 bytes of HKDF-SHA256 output.
pub uninterp spec fn hkdf32(salt: Seq<u8>, ikm: Seq<u8>, info: Seq<u8>) -> Seq<u8>;

/// `Hkdf::<Sha256>` extracts with a salt and expands to 32 bytes, which is always within its
/// output limit.
#[verifier::external_body]
pub(crate) fn hkdf_sha256(salt: &[u8], ikm: &[u8], info: &[u8]) -> (r: Vec<u8>)
    ensures
        r@ == hkdf32(salt@, ikm@, info@),
        r@.len() == 32,
{
    let mut okm = vec![0u8; 32];
    hkdf::Hkdf::<sha2::Sha256>::new(Some(salt), ikm)
        .expand(info, &mut okm)
        .expect("32 bytes is within the HKDF output limit");
    okm
}

/// The longest plaintext XChaCha20-Poly1305 seals, in 64-byte blocks.
pub const AEAD_MAX_BLOCKS: u64 = 4294967295;

/// XChaCha20-Poly1305 ciphertext with its 16-byte tag.
pub uninterp spec fn aead_sealed(
    key: Seq<u8>,
    nonce: Seq<u8>,
    aad: Seq<u8>,
    plain: Seq<u8>,
) -> Seq<u8>;

/// What XChaCha20-Poly1305 opens a ciphertext to, if its tag verifies.
pub uninterp spec fn aead_opened(
    key: Seq<u8>,
    nonce: Seq<u8>,
    aad: Seq<u8>,
    sealed: Seq<u8>,
) -> Option<Seq<u8>>;

/// `XChaCha20Poly1305::encrypt` appends a 16-byte tag to the ciphertext, fails only on a plaintext
/// over the block limit, and what it returns opens to the plaintext again under the same key,
/// nonce and associated data.
#[verifier::external_body]
pub(crate) fn aead_encrypt(key: &[u8], nonce: &[u8], aad: &[u8], plain: &[u8]) -> (r: Option<
    Vec<u8>,
>)
    requires
        key@.len() == 32,
        nonce@.len() == 24,
    ensures
        r is Some <==> plain@.len() / 64 < AEAD_MAX_BLOCKS,
        r matches Some(c) ==> {
            &&& c@ == aead_sealed(key@, nonce@, aad@, plain@)
            &&& c@.len() == plain@.len() + 16
            &&& aead_opened(key@, nonce@, aad@, c@) == Some(plain@)
        },
{
    XChaCha20Poly1305::new(key.into())
        .encrypt(nonce.into(), Payload { msg: plain, aad })
        .ok()
}

/// `XChaCha20Poly1305::decrypt` opens a ciphertext whose tag verifies; the plaintext is 16 bytes
/// shorter.
#[verifier::external_body]
pub(crate) fn aead_decrypt(key: &[u8], nonce: &[u8], aad: &[u8], sealed: &[u8]) -> (r: Option<
    Vec<u8>,
>)
    requires
        key@.len() == 32,
        nonce@.len() == 24,
    ensures
        r is Some <==> aead_opened(key@, nonce@, aad@, sealed@) is Some,
        r matches Some(p) ==> {
            &&& aead_opened(key@, nonce@, aad@, sealed@) == Some(p@)
            &&& sealed@.len() == p@.len() + 16
        },
{
    XChaCha20Poly1305::new(key.into())
        .decrypt(nonce.into(), Payload { msg: sealed, aad })
        .ok()
}

/// `XChaCha20Poly1305::generate_nonce` draws a 24-byte nonce from the operating system. Which
/// bytes it draws is chance.
#[verifier::external_body]
pub(crate) fn aead_nonce() -> (r: Vec<u8>)
    ensures
        r@.len() == 24,
{
    XChaCha20Poly1305::generate_nonce(&mut OsRng).to_vec()
}

/// `OsRng::try_fill_bytes` fills a buffer with operating-system randomness, or fails. Which bytes
/// it draws is chance.
#[verifier::external_body]
pub(crate) fn random_bytes(n: usize) -> (r: Option<Vec<u8>>)
    ensures
        r matches Some(b) ==> b@.len() == n,
{
    let mut buf = vec![0u8; n];
    rand::rngs::OsRng.try_fill_bytes(&mut buf).ok().map(|()| buf)
}

/// `Vec::zeroize` overwrites the bytes of a vector and leaves it empty.
#[verifier::external_body]
pub(crate) fn zeroize_bytes(b: &mut Vec<u8>)
    ensures
        final(b)@.len() == 0,
{
    b.zeroize();
}

/// A byte is written as two digits, the higher one first, in lower case.
pub proof fn byte_is_two_digits(b: Seq<u8>, i: int)
    requires
        0 <= i < b.len(),
    ensures
        hex_text(b).len() == 2 * b.len(),
        hex_text(b)[2 * i] as int == if b[i] / 16 < 10 {
            48 + b[i] / 16
        } else {
            87 + b[i] / 16
        },
        hex_text(b)[2 * i + 1] as int == if b[i] % 16 < 10 {
            48 + b[i] % 16
        } else {
            87 + b[i] % 16
        },
{
    assert((2 * i) / 2 == i && (2 * i + 1) / 2 == i);
}

/// A text without quotes, backslashes and control characters stands in its JSON literal as it is.
pub proof fn plain_text_is_quoted_as_it_is(s: Seq<char>)
    requires
        forall|i: int| 0 <= i < s.len() ==> (#[trigger] s[i]) != '"' && s[i] != '\\' && s[i] as int
            >= 32,
    ensures
        json_text(s) == seq!['"'] + s + seq!['"'],
{
    lemma_plain(s);
}

proof fn lemma_plain(s: Seq<char>)
    requires
        forall|i: int| 0 <= i < s.len() ==> (#[trigger] s[i]) != '"' && s[i] != '\\' && s[i] as int
            >= 32,
    ensures
        s.flat_map(|c: char| json_char(c)) == s,
    decreases s.len(),
{
    let f = |c: char| json_char(c);
    reveal(Seq::flatten);
    if s.len() == 0 {
        assert(s.map_values(f) =~= Seq::<Seq<char>>::empty());
        assert(s.flat_map(f) =~= s);
    } else {
        let rest = s.skip(1);
        assert forall|i: int| 0 <= i < rest.len() implies (#[trigger] rest[i]) != '"' && rest[i]
            != '\\' && rest[i] as int >= 32 by {
            assert(rest[i] == s[i + 1]);
        }
        lemma_plain(rest);
        let m = s.map_values(f);
        assert(m.drop_first() =~= rest.map_values(f));
        assert(s[0] != '"' && s[0] != '\\' && s[0] as int >= 32);
        assert(m.first() == json_char(s[0]));
        assert(s.flat_map(f) =~= seq![s[0]] + rest);
        assert(seq![s[0]] + rest =~= s);
    }
}

} // verus!
