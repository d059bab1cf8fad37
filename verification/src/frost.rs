//! FROST key shares, nonces, commitments and signature shares, each as its JSON bytes.
use vstd::prelude::*;

use chacha20poly1305::aead::OsRng;
use frost_secp256k1_tr::keys::{KeyPackage, PublicKeyPackage, Tweak};
use frost_secp256k1_tr::round1::{SigningCommitments, SigningNonces};
use frost_secp256k1_tr::round2::SignatureShare;
use frost_secp256k1_tr::SigningPackage;

verus! {

/// How many signers a quorum has.
pub const MIN_SIGNERS: u16 = 2;

// ---------------------------------------------------------------------------------------------
// Identifiers
// ---------------------------------------------------------------------------------------------
/// The identifier of a key package, as its 32 bytes: none if the bytes are no key package.
pub uninterp spec fn key_identifier(key_package: Seq<u8>) -> Option<Seq<u8>>;

/// A `KeyPackage` reads from its JSON or not at all; its identifier serializes to 32 bytes.
#[verifier::external_body]
fn read_identifier(key_package: &[u8]) -> (r: Option<Vec<u8>>)
    ensures
        r is Some <==> key_identifier(key_package@) is Some,
        r matches Some(id) ==> key_identifier(key_package@) == Some(id@) && id@.len() == 32,
{
    let kp: KeyPackage = serde_json::from_slice(key_package).ok()?;
    Some(kp.identifier().serialize())
}

/// The 32 big-endian bytes of a small identifier.
pub open spec fn identifier_bytes(id: u16) -> Seq<u8> {
    Seq::new(
        32,
        |i: int|
            if i == 30 {
                (id / 256) as u8
            } else if i == 31 {
                (id % 256) as u8
            } else {
                0u8
            },
    )
}

/// The small identifier that 32 bytes stand for, if they stand for one. Zero is no identifier.
pub open spec fn small_identifier(raw: Seq<u8>) -> Option<u16> {
    if raw.len() == 32 && (forall|i: int| 0 <= i < 30 ==> #[trigger] raw[i] == 0) && raw[30] * 256
        + raw[31] != 0 {
        Some((raw[30] * 256 + raw[31]) as u16)
    } else {
        None
    }
}

/// A small identifier is read back from its bytes.
pub proof fn identifier_round_trip(id: u16)
    requires
        id != 0,
    ensures
        small_identifier(identifier_bytes(id)) == Some(id),
{
}

/// The small identifier that 32 bytes stand for.
pub fn identifier_to_u16(raw: &[u8]) -> (r: Option<u16>)
    ensures
        r == small_identifier(raw@),
{
    if raw.len() != 32 {
        return None;
    }
    let mut i: usize = 0;
    while i < 30
        invariant
            i <= 30,
            raw@.len() == 32,
            forall|j: int| 0 <= j < i ==> #[trigger] raw@[j] == 0,
        decreases 30 - i,
    {
        if raw[i] != 0 {
            assert(raw@[i as int] != 0);
            return None;
        }
        i = i + 1;
    }
    let id: u16 = raw[30] as u16 * 256 + raw[31] as u16;
    if id == 0 {
        return None;
    }
    Some(id)
}

/// The number that big-endian bytes stand for.
pub open spec fn big_endian(raw: Seq<u8>) -> nat
    decreases raw.len(),
{
    if raw.len() == 0 {
        0
    } else {
        big_endian(raw.drop_last()) * 256 + raw.last() as nat
    }
}

/// The order of the group secp256k1.
pub open spec fn group_order() -> nat {
    0xFFFF_FFFF_FFFF_FFFF_FFFF_FFFF_FFFF_FFFE_BAAE_DCE6_AF48_A03B_BFD2_5E8C_D036_4141nat
}

/// Whether bytes are an identifier: 32 of them, for a number that is not zero and below the group's
/// order.
pub open spec fn identifier_form(raw: Seq<u8>) -> bool {
    raw.len() == 32 && 0 < big_endian(raw) < group_order()
}

/// `Identifier::deserialize` takes 32 big-endian bytes that are a scalar of the group and not zero.
#[verifier::external_body]
pub(crate) fn is_identifier(raw: &[u8]) -> (r: bool)
    ensures
        r == identifier_form(raw@),
{
    frost_secp256k1_tr::Identifier::deserialize(raw).is_ok()
}

/// Every small identifier is an identifier.
pub proof fn small_identifier_is_one(raw: Seq<u8>)
    requires
        small_identifier(raw) is Some,
    ensures
        identifier_form(raw),
{
    let high = raw.drop_last().drop_last();
    assert forall|i: int| 0 <= i < high.len() implies #[trigger] high[i] == 0 by {
        assert(high[i] == raw[i]);
    }
    lemma_zeros_are_zero(high);
    assert(big_endian(raw.drop_last()) == raw[30] as nat);
    assert(big_endian(raw) == raw[30] * 256 + raw[31]);
}

proof fn lemma_zeros_are_zero(raw: Seq<u8>)
    requires
        forall|i: int| 0 <= i < raw.len() ==> #[trigger] raw[i] == 0,
    ensures
        big_endian(raw) == 0,
    decreases raw.len(),
{
    if raw.len() > 0 {
        lemma_zeros_are_zero(raw.drop_last());
    }
}

/// The 32 bytes of a small identifier.
pub fn identifier_from_u16(id: u16) -> (r: Vec<u8>)
    ensures
        r@ == identifier_bytes(id),
{
    let mut raw: Vec<u8> = Vec::new();
    let mut i: usize = 0;
    while i < 30
        invariant
            i <= 30,
            raw@.len() == i,
            forall|j: int| 0 <= j < i ==> raw@[j] == 0,
        decreases 30 - i,
    {
        raw.push(0);
        i = i + 1;
    }
    raw.push((id / 256) as u8);
    raw.push((id % 256) as u8);
    assert(raw@ =~= identifier_bytes(id));
    raw
}

/// The holder that a key package belongs to: none if the bytes are no key package, or its
/// identifier is not a small one.
pub open spec fn holder_of(key_package: Seq<u8>) -> Option<u16> {
    match key_identifier(key_package) {
        Some(raw) => small_identifier(raw),
        None => None,
    }
}

/// The holder that a key package belongs to.
pub fn key_package_holder(key_package: &[u8]) -> (r: Option<u16>)
    ensures
        r == holder_of(key_package@),
{
    match read_identifier(key_package) {
        Some(raw) => identifier_to_u16(raw.as_slice()),
        None => None,
    }
}

/// Whether the bytes are a key package.
pub fn is_key_package(bytes: &[u8]) -> (r: bool)
    ensures
        r == (key_identifier(bytes@) is Some),
{
    read_identifier(bytes).is_some()
}

// ---------------------------------------------------------------------------------------------
// Group keys
// ---------------------------------------------------------------------------------------------
/// The public keys that a key package's holder knows by itself: its own verifying share and the
/// group's verifying key, for a quorum of `min_signers`.
pub uninterp spec fn own_pubkeys(key_package: Seq<u8>, min_signers: u16) -> Option<Seq<u8>>;

/// `PublicKeyPackage::new` over a `KeyPackage`'s identifier, verifying share and group key, and the
/// size of a quorum.
#[verifier::external_body]
pub(crate) fn own_pubkeys_from_key_package(key_package: &[u8], min_signers: u16) -> (r: Option<
    Vec<u8>,
>)
    ensures
        r is Some <==> own_pubkeys(key_package@, min_signers) is Some,
        r matches Some(p) ==> own_pubkeys(key_package@, min_signers) == Some(p@),
{
    let kp: KeyPackage = serde_json::from_slice(key_package).ok()?;
    let shares = std::iter::once((*kp.identifier(), *kp.verifying_share())).collect();
    let own = PublicKeyPackage::new(shares, *kp.verifying_key(), Some(min_signers));
    serde_json::to_vec(&own).ok()
}

/// The x-only key that the group of a public key package signs under.
pub uninterp spec fn group_q(pubkeys: Seq<u8>) -> Option<Seq<u8>>;

/// A `PublicKeyPackage`'s verifying key with the key-path Taproot tweak: the 32 bytes behind the
/// parity byte of its compressed encoding.
#[verifier::external_body]
pub(crate) fn group_xonly_q(pubkeys: &[u8]) -> (r: Option<Vec<u8>>)
    ensures
        r is Some <==> group_q(pubkeys@) is Some,
        r matches Some(q) ==> group_q(pubkeys@) == Some(q@) && q@.len() == 32,
{
    let own: PublicKeyPackage = serde_json::from_slice(pubkeys).ok()?;
    let key = own.tweak(None::<&[u8]>).verifying_key().serialize().ok()?;
    key.get(1..33).map(|q| q.to_vec())
}

// ---------------------------------------------------------------------------------------------
// Signing
// ---------------------------------------------------------------------------------------------
/// Why bytes are not the JSON of commitments, if they are not.
pub uninterp spec fn commitments_fault(bytes: Seq<u8>) -> Option<Seq<char>>;

/// Whether bytes are the JSON of commitments.
pub open spec fn commitments_form(bytes: Seq<u8>) -> bool {
    commitments_fault(bytes) is None
}

/// `SigningCommitments` reads from its JSON, or `serde_json` says why it does not.
#[verifier::external_body]
pub(crate) fn commitments_error(bytes: &[u8]) -> (r: Option<String>)
    ensures
        r is Some <==> commitments_fault(bytes@) is Some,
        r matches Some(why) ==> commitments_fault(bytes@) == Some(why@),
{
    serde_json::from_slice::<SigningCommitments>(bytes).err().map(|e| e.to_string())
}

/// Whether bytes are the JSON of a signature share.
pub uninterp spec fn share_form(bytes: Seq<u8>) -> bool;

/// `SignatureShare` reads from its JSON or not at all.
#[verifier::external_body]
pub(crate) fn is_signature_share(bytes: &[u8]) -> (r: bool)
    ensures
        r == share_form(bytes@),
{
    serde_json::from_slice::<SignatureShare>(bytes).is_ok()
}

/// The nonces that a key package makes from the random bytes `draw`, and their public commitments:
/// none if it is no key package, or a nonce comes out as zero and has no commitment to write down.
pub uninterp spec fn drawn_for(key_package: Seq<u8>, draw: Seq<u8>) -> Option<(Seq<u8>, Seq<u8>)>;

/// `round1::commit` makes two nonces for a key package, each from its secret and 32 random bytes,
/// and gives their public commitments, whose JSON reads as commitments. Which bytes it draws is
/// chance.
#[verifier::external_body]
pub(crate) fn draw_nonces(key_package: &[u8]) -> (r: Option<(Vec<u8>, Vec<u8>)>)
    ensures
        exists|draw: Seq<u8>| (match r {
            Some(d) => (#[trigger] drawn_for(key_package@, draw)) == Some((d.0@, d.1@)),
            None => drawn_for(key_package@, draw) is None,
        }),
        r matches Some(d) ==> key_identifier(key_package@) is Some && commitments_form(d.1@),
{
    let kp: KeyPackage = serde_json::from_slice(key_package).ok()?;
    let (nonces, commitments) = frost_secp256k1_tr::round1::commit(kp.signing_share(), &mut OsRng);
    Some((serde_json::to_vec(&nonces).ok()?, serde_json::to_vec(&commitments).ok()?))
}

/// The signature share over a signing package by a key package with its nonces, if there is one.
pub uninterp spec fn signature_share(
    package: Seq<u8>,
    nonces: Seq<u8>,
    key_package: Seq<u8>,
) -> Option<Seq<u8>>;

/// `round2::sign_with_tweak` without a merkle root: fails where the package does not hold this
/// holder's commitments, or too few. The JSON of what it gives reads as a signature share.
#[verifier::external_body]
pub(crate) fn sign_share(package: &[u8], nonces: &[u8], key_package: &[u8]) -> (r: Option<Vec<u8>>)
    ensures
        r is Some <==> signature_share(package@, nonces@, key_package@) is Some,
        r matches Some(s) ==> signature_share(package@, nonces@, key_package@) == Some(s@)
            && share_form(s@),
{
    let package: SigningPackage = serde_json::from_slice(package).ok()?;
    let nonces: SigningNonces = serde_json::from_slice(nonces).ok()?;
    let kp: KeyPackage = serde_json::from_slice(key_package).ok()?;
    let share = frost_secp256k1_tr::round2::sign_with_tweak(&package, &nonces, &kp, None).ok()?;
    serde_json::to_vec(&share).ok()
}

/// A small identifier is the number that its bytes write, and only its own bytes write it.
pub proof fn small_identifier_is_its_bytes(raw: Seq<u8>)
    ensures
        small_identifier(raw) matches Some(id) ==> raw == identifier_bytes(id) && id != 0,
        small_identifier(raw) is Some ==> big_endian(raw) == small_identifier(raw)->0,
{
    if small_identifier(raw) is Some {
        let id = small_identifier(raw)->0;
        assert(raw[30] * 256 + raw[31] == id);
        assert(raw[30] == (id / 256) as u8 && raw[31] == (id % 256) as u8);
        assert(raw =~= identifier_bytes(id));
        let high = raw.drop_last().drop_last();
        assert forall|i: int| 0 <= i < high.len() implies #[trigger] high[i] == 0 by {
            assert(high[i] == raw[i]);
        }
        lemma_zeros_are_zero(high);
        assert(big_endian(raw.drop_last()) == raw[30] as nat);
    }
}

/// An identifier is written and read as itself: 32 bytes, the most significant first, and no two
/// identifiers share theirs.
pub proof fn identifier_is_written_and_read(
    id: u16,
    written: Vec<u8>,
    raw: &[u8],
    read: Option<u16>,
)
    requires
        call_ensures(identifier_from_u16, (id,), written),
        raw@ == written@,
        call_ensures(identifier_to_u16, (raw,), read),
    ensures
        written@.len() == 32,
        written@[30] * 256 + written@[31] == id,
        forall|i: int| 0 <= i < 30 ==> #[trigger] written@[i] == 0,
        id != 0 ==> read == Some(id),
        id == 0 ==> read is None,
{
    assert(written@[30] == (id / 256) as u8 && written@[31] == (id % 256) as u8);
    if id != 0 {
        identifier_round_trip(id);
    }
}

/// A key package belongs to the holder whose identifier it holds, and to none if that is no small one.
pub proof fn key_package_is_its_holders(
    key_package: &[u8],
    holder: Option<u16>,
    is_one: bool,
)
    requires
        call_ensures(key_package_holder, (key_package,), holder),
        call_ensures(is_key_package, (key_package,), is_one),
    ensures
        is_one <==> key_identifier(key_package@) is Some,
        holder is Some ==> is_one && key_identifier(key_package@) == Some(
            identifier_bytes(holder->0),
        ),
{
    if key_identifier(key_package@) is Some {
        small_identifier_is_its_bytes(key_identifier(key_package@)->0);
    }
}

} // verus!
