//! Keys, signed events and sealed messages, as the Nostr SDK makes and checks them.
use vstd::prelude::*;
use vstd::string::StringExecFns;

use nostr_sdk::nips::nip44;
use nostr_sdk::secp256k1::schnorr::Signature;
use nostr_sdk::{Event, EventBuilder, EventId, Keys, Kind, PublicKey, SecretKey, Tags, Timestamp};
use std::str::FromStr;

use crate::bytes;
use crate::crypto;
use crate::nostr;
use crate::nostr::NostrEvent;
use crate::text;

verus! {

// ---------------------------------------------------------------------------------------------
// Keys
// ---------------------------------------------------------------------------------------------
/// The x-only public key of a secret key: none if the secret is not one.
pub uninterp spec fn public_of(secret: Seq<u8>) -> Option<Seq<u8>>;

/// `SecretKey::from_slice` takes 32 bytes that are a scalar of secp256k1, and `Keys::new` derives
/// its x-only public key, which is 32 bytes long.
#[verifier::external_body]
fn derive_public(secret: &[u8]) -> (r: Option<Vec<u8>>)
    ensures
        r is Some <==> public_of(secret@) is Some,
        r matches Some(p) ==> public_of(secret@) == Some(p@) && p@.len() == 32 && secret@.len()
            == 32,
{
    let keys = Keys::new(SecretKey::from_slice(secret).ok()?);
    Some(keys.public_key().to_bytes().to_vec())
}

/// Whether `s` is a public key in its canonical form: 64 lower-case hexadecimal digits.
pub open spec fn is_public_key(s: Seq<char>) -> bool {
    crypto::is_hex(s) && crypto::hex_bytes(s).len() == 32 && s == crypto::hex_text(
        crypto::hex_bytes(s),
    )
}

/// The canonical form of a public key that is written in hexadecimal digits of either case.
pub open spec fn public_key_of(s: Seq<char>) -> Option<Seq<char>> {
    if crypto::is_hex(s) && crypto::hex_bytes(s).len() == 32 {
        Some(crypto::hex_text(crypto::hex_bytes(s)))
    } else {
        None
    }
}

/// Read a public key from hexadecimal.
pub fn parse_public_key(s: &str) -> (r: Option<String>)
    ensures
        r is Some <==> public_key_of(s@) is Some,
        r matches Some(k) ==> public_key_of(s@) == Some(k@) && is_public_key(k@),
{
    match crypto::hex_decode(s) {
        Some(b) => {
            if b.len() == 32 {
                proof {
                    crypto::hex_round_trip(b@);
                }
                Some(crypto::hex_encode(b.as_slice()))
            } else {
                None
            }
        },
        None => None,
    }
}

/// A node's key pair.
pub struct NodeKeys {
    secret: Vec<u8>,
    public: String,
}

impl NodeKeys {
    #[verifier::type_invariant]
    spec fn paired(&self) -> bool {
        public_of(self.secret@) is Some && self.public@ == crypto::hex_text(
            public_of(self.secret@)->0,
        ) && public_of(self.secret@)->0.len() == 32
    }

    /// The secret key.
    pub closed spec fn secret(&self) -> Seq<u8> {
        self.secret@
    }

    /// The public key, in canonical form.
    pub closed spec fn public(&self) -> Seq<char> {
        self.public@
    }

    /// The key pair of a secret key: none if it is not one.
    pub fn from_secret(secret: &[u8]) -> (r: Option<NodeKeys>)
        ensures
            r is Some <==> public_of(secret@) is Some,
            r matches Some(k) ==> k.secret() == secret@ && k.public() == crypto::hex_text(
                public_of(secret@)->0,
            ),
    {
        match derive_public(secret) {
            Some(p) => Some(
                NodeKeys {
                    secret: bytes::copy_bytes(secret),
                    public: crypto::hex_encode(p.as_slice()),
                },
            ),
            None => None,
        }
    }

    /// The public key, in canonical form.
    pub fn public_key(&self) -> (r: &str)
        ensures
            r@ == self.public(),
            is_public_key(r@),
            public_of(self.secret()) is Some,
            r@ == crypto::hex_text(public_of(self.secret())->0),
    {
        proof {
            use_type_invariant(self);
            crypto::hex_round_trip(public_of(self.secret@)->0);
        }
        self.public.as_str()
    }
}

// ---------------------------------------------------------------------------------------------
// Events
// ---------------------------------------------------------------------------------------------
/// Whether the SDK accepts an event as authentic: its fields have their forms, its id is the NIP-01
/// id over its other fields, and its signature verifies over that id under its own key.
pub open spec fn authentic(e: NostrEvent) -> bool {
    &&& crypto::is_hex(e.id@) && crypto::hex_bytes(e.id@).len() == 32
    &&& crypto::is_hex(e.pubkey@) && crypto::hex_bytes(e.pubkey@).len() == 32
    &&& crypto::is_hex(e.sig@) && crypto::hex_bytes(e.sig@).len() == 64
    &&& e.kind <= u16::MAX
    &&& forall|i: int| 0 <= i < e.tags@.len() ==> (#[trigger] e.tags@[i])@.len() > 0
    &&& crypto::hex_bytes(e.id@) == nostr::nip01_id(
        crypto::hex_text(crypto::hex_bytes(e.pubkey@)),
        e.created_at,
        e.kind,
        nostr::tag_views(e.tags@),
        e.content@,
    )
    &&& crypto::bip340(
        crypto::hex_bytes(e.pubkey@),
        crypto::hex_bytes(e.id@),
        crypto::hex_bytes(e.sig@),
    )
}

/// `Event::verify` recomputes the event's id, which is the SHA-256 of its NIP-01 text, and checks
/// the BIP-340 signature over it. `EventId::from_hex`, `PublicKey::from_hex` and
/// `Signature::from_str` read hexadecimal of exactly their lengths and of either case, a `Kind` is
/// a 16-bit number, and `Tags::parse` refuses a tag without a name.
#[verifier::external_body]
pub(crate) fn is_authentic(e: &NostrEvent) -> (r: bool)
    ensures
        r == authentic(*e),
{
    match (
        EventId::from_hex(&e.id),
        PublicKey::from_hex(&e.pubkey),
        u16::try_from(e.kind),
        Tags::parse(e.tags.clone()),
        Signature::from_str(&e.sig),
    ) {
        (Ok(id), Ok(key), Ok(kind), Ok(tags), Ok(sig)) => {
            let at = Timestamp::from(e.created_at);
            Event::new(id, key, at, Kind::from(kind), tags, e.content.as_str(), sig).verify().is_ok()
        },
        _ => false,
    }
}

/// Whether a tag addresses the event to its own author.
pub open spec fn is_self_address(tag: Seq<Seq<char>>, author: Seq<char>) -> bool {
    tag.len() > 1 && tag[0] == "p"@ && tag[1] == author
}

/// The tags that an event of `author` carries, of those asked for: an event is not addressed to its
/// own author.
pub open spec fn signed_tags(tags: Seq<Seq<Seq<char>>>, author: Seq<char>) -> Seq<Seq<Seq<char>>> {
    tags.filter(|t: Seq<Seq<char>>| !is_self_address(t, author))
}

/// `EventBuilder::sign_with_keys` stamps the event with the current time, drops the `p` tags that
/// name the author, and signs it: the event is authentic, and of the given kind, content and
/// author. It fails only where the secret is no secret key. The time of the event is the clock's.
#[verifier::external_body]
fn sign_event(secret: &[u8], kind: u16, tags: &Vec<Vec<String>>, content: &str) -> (r: Option<
    NostrEvent,
>)
    requires
        forall|i: int| 0 <= i < tags@.len() ==> (#[trigger] tags@[i])@.len() > 0,
    ensures
        r is Some <==> public_of(secret@) is Some,
        r matches Some(e) ==> {
            &&& authentic(e)
            &&& e.pubkey@ == crypto::hex_text(public_of(secret@)->0)
            &&& e.kind == kind
            &&& e.content@ == content@
            &&& nostr::tag_views(e.tags@) == signed_tags(nostr::tag_views(tags@), e.pubkey@)
        },
{
    let keys = Keys::new(SecretKey::from_slice(secret).ok()?);
    let draft = EventBuilder::new(Kind::from(kind), content).tags(Tags::parse(tags.clone()).ok()?);
    let e = draft.sign_with_keys(&keys).ok()?;
    Some(NostrEvent {
        id: e.id.to_hex(),
        pubkey: e.pubkey.to_hex(),
        created_at: e.created_at.as_secs(),
        kind: u32::from(e.kind.as_u16()),
        tags: e.tags.into_iter().map(|t| t.to_vec()).collect(),
        content: e.content,
        sig: e.sig.to_string(),
    })
}

impl NodeKeys {
    /// Sign an event with these keys.
    pub fn sign(&self, kind: u16, tags: &Vec<Vec<String>>, content: &str) -> (e: NostrEvent)
        requires
            forall|i: int| 0 <= i < tags@.len() ==> (#[trigger] tags@[i])@.len() > 0,
        ensures
            authentic(e),
            e.pubkey@ == self.public(),
            e.kind == kind,
            e.content@ == content@,
            nostr::tag_views(e.tags@) == signed_tags(nostr::tag_views(tags@), self.public()),
    {
        proof {
            use_type_invariant(self);
        }
        sign_event(self.secret.as_slice(), kind, tags, content).unwrap()
    }
}

/// An authentic event's author is a public key, and its canonical form is the author.
pub proof fn author_is_a_public_key(e: NostrEvent)
    requires
        authentic(e),
    ensures
        public_key_of(e.pubkey@) is Some,
{
}

// ---------------------------------------------------------------------------------------------
// Sealed messages
// ---------------------------------------------------------------------------------------------
/// The longest message that can be sealed, in bytes.
pub const NIP44_MAX_PLAINTEXT: usize = 65_408;

/// What the holder of `secret` reads in a message that `key` sealed to it, or why it reads nothing.
pub uninterp spec fn nip44_read(secret: Seq<u8>, key: Seq<u8>, sealed: Seq<char>) -> Result<
    Seq<u8>,
    Seq<char>,
>;

/// Whether `sealed` holds `message` from `sender` to `key`: the holder of `key`'s secret reads that
/// message in it.
pub open spec fn sealed_for(
    sealed: Seq<char>,
    sender: Seq<u8>,
    key: Seq<u8>,
    message: Seq<u8>,
) -> bool {
    forall|reader: Seq<u8>| #[trigger]
        public_of(reader) == Some(key) ==> nip44_read(reader, sender, sealed) == Ok::<
            Seq<u8>,
            Seq<char>,
        >(message)
}

/// `nip44::encrypt` seals a message of 1 to 65408 bytes from a secret key to a public key; whoever
/// holds the public key's secret reads it back with the sender's public key. The sealed text also
/// depends on a random nonce.
#[verifier::external_body]
fn nip44_encrypt(secret: &[u8], key: &[u8], message: &[u8]) -> (r: Option<String>)
    ensures
        r is Some == (public_of(secret@) is Some && crypto::xonly_valid(key@) && 1
            <= message@.len() <= NIP44_MAX_PLAINTEXT),
        r matches Some(sealed) ==> sealed_for(sealed@, public_of(secret@)->0, key@, message@),
{
    let secret = SecretKey::from_slice(secret).ok()?;
    let key = PublicKey::from_slice(key).ok()?;
    nip44::encrypt(&secret, &key, message, nip44::Version::V2).ok()
}

/// `nip44::decrypt_to_bytes` opens a message that a public key sealed to a secret key, and says why
/// where it opens nothing.
#[verifier::external_body]
fn nip44_decrypt(secret: &[u8], key: &[u8], sealed: &str) -> (r: Result<Vec<u8>, String>)
    ensures
        match r {
            Ok(m) => nip44_read(secret@, key@, sealed@) == Ok::<Seq<u8>, Seq<char>>(m@),
            Err(why) => nip44_read(secret@, key@, sealed@) == Err::<Seq<u8>, Seq<char>>(why@),
        },
{
    let secret = SecretKey::from_slice(secret).map_err(|e| e.to_string())?;
    let key = PublicKey::from_slice(key).map_err(|e| e.to_string())?;
    nip44::decrypt_to_bytes(&secret, &key, sealed).map_err(|e| e.to_string())
}

/// What the holder of `secret` reads in a message from `sender`, or why it reads nothing.
pub open spec fn message_from(secret: Seq<u8>, sender: Seq<char>, sealed: Seq<char>) -> Result<
    Seq<u8>,
    Seq<char>,
> {
    if public_key_of(sender) is Some {
        nip44_read(secret, crypto::hex_bytes(sender), sealed)
    } else {
        Err("the sender is no public key"@)
    }
}

impl NodeKeys {
    /// Seal a message to `recipient`. Fails on an empty or too long message, and where the
    /// recipient is no point of the curve.
    pub fn seal(&self, recipient: &str, message: &[u8]) -> (r: Option<String>)
        ensures
            r is Some <==> public_key_of(recipient@) is Some && crypto::xonly_valid(
                crypto::hex_bytes(recipient@),
            ) && 1 <= message@.len() <= NIP44_MAX_PLAINTEXT,
            r matches Some(sealed) ==> sealed_for(
                sealed@,
                crypto::hex_bytes(self.public()),
                crypto::hex_bytes(recipient@),
                message@,
            ),
    {
        proof {
            use_type_invariant(self);
            crypto::hex_round_trip(public_of(self.secret@)->0);
        }
        match crypto::hex_decode(recipient) {
            Some(key) => {
                if key.len() != 32 {
                    return None;
                }
                nip44_encrypt(self.secret.as_slice(), key.as_slice(), message)
            },
            None => None,
        }
    }

    /// Open a message that `sender` sealed to these keys, or say why it does not open.
    pub fn open(&self, sender: &str, sealed: &str) -> (r: Result<Vec<u8>, String>)
        ensures
            match r {
                Ok(m) => message_from(self.secret(), sender@, sealed@) == Ok::<Seq<u8>, Seq<char>>(
                    m@,
                ),
                Err(why) => message_from(self.secret(), sender@, sealed@) == Err::<
                    Seq<u8>,
                    Seq<char>,
                >(why@),
            },
    {
        match crypto::hex_decode(sender) {
            Some(key) => {
                if key.len() != 32 {
                    return Err("the sender is no public key".to_owned());
                }
                nip44_decrypt(self.secret.as_slice(), key.as_slice(), sealed)
            },
            None => Err("the sender is no public key".to_owned()),
        }
    }
}

// ---------------------------------------------------------------------------------------------
// Laws
// ---------------------------------------------------------------------------------------------
/// What an authentic event vouches for: its id is the hash over its author, time, kind, tags and
/// content, and its author's signature verifies over that id. Whoever changes one of them needs a new
/// id and a new signature.
pub proof fn authentic_event_vouches_for_all_its_fields(e: NostrEvent, changed: NostrEvent)
    requires
        authentic(e),
        authentic(changed),
        changed.id@ == e.id@,
    ensures
        crypto::bip340(
            crypto::hex_bytes(e.pubkey@),
            crypto::hex_bytes(e.id@),
            crypto::hex_bytes(e.sig@),
        ),
        nostr::nip01_id(
            crypto::hex_text(crypto::hex_bytes(e.pubkey@)),
            e.created_at,
            e.kind,
            nostr::tag_views(e.tags@),
            e.content@,
        ) == nostr::nip01_id(
            crypto::hex_text(crypto::hex_bytes(changed.pubkey@)),
            changed.created_at,
            changed.kind,
            nostr::tag_views(changed.tags@),
            changed.content@,
        ),
{
}

/// A key reads as itself, in either case of its digits: 64 hexadecimal digits are a key, its canonical
/// form is in lower case and writes the same 32 bytes, and reading it again changes nothing.
pub proof fn key_reads_as_its_canonical_form(s: &str, r: Option<String>)
    requires
        call_ensures(parse_public_key, (s,), r),
    ensures
        r is Some <==> crypto::is_hex(s@) && s@.len() == 64,
        r matches Some(k) ==> k@.len() == 64 && crypto::hex_bytes(k@) == crypto::hex_bytes(s@)
            && k@ == crypto::hex_text(crypto::hex_bytes(s@)) && public_key_of(k@) == Some(k@),
{
    if crypto::is_hex(s@) {
        crypto::hex_round_trip(crypto::hex_bytes(s@));
    }
}

/// A key pair signs under its own key: what it signs is authentic, of its key, and of the given kind,
/// tags and content.
pub proof fn keys_sign_under_their_own_key(
    secret: &[u8],
    made: Option<NodeKeys>,
    public: &str,
    kind: u16,
    tags: Vec<Vec<String>>,
    content: &str,
    e: NostrEvent,
)
    requires
        call_ensures(NodeKeys::from_secret, (secret,), made),
        made is Some ==> call_ensures(NodeKeys::public_key, (&made->0,), public),
        made is Some ==> call_ensures(NodeKeys::sign, (&made->0, kind, &tags, content), e),
    ensures
        made is Some <==> public_of(secret@) is Some,
        made is Some ==> {
            &&& public@ == crypto::hex_text(public_of(secret@)->0)
            &&& authentic(e)
            &&& e.pubkey@ == public@
            &&& e.kind == kind
            &&& e.content@ == content@
            &&& nostr::tag_views(e.tags@) == signed_tags(nostr::tag_views(tags@), public@)
        },
{
}

/// An event keeps its tags, but for those that address it to its own author.
pub proof fn only_self_addresses_are_dropped(
    tags: Seq<Seq<Seq<char>>>,
    author: Seq<char>,
    tag: Seq<Seq<char>>,
)
    ensures
        signed_tags(tags, author).contains(tag) <==> tags.contains(tag) && !(tag.len() > 1 && tag[0]
            == "p"@ && tag[1] == author),
    decreases tags.len(),
{
    let keep = |t: Seq<Seq<char>>| !is_self_address(t, author);
    let kept = tags.filter(keep);
    reveal(Seq::filter);
    if tags.len() > 0 {
        let init = tags.drop_last();
        let last = tags.last();
        only_self_addresses_are_dropped(init, author, tag);
        let before = init.filter(keep);
        assert(tags =~= init.push(last));
        assert(tags.contains(tag) <==> init.contains(tag) || tag == last) by {
            if init.contains(tag) {
                let i = choose|i: int| 0 <= i < init.len() && init[i] == tag;
                assert(tags[i] == tag);
            }
            if tag == last {
                assert(tags[tags.len() - 1] == tag);
            }
            if tags.contains(tag) && tag != last {
                let i = choose|i: int| 0 <= i < tags.len() && tags[i] == tag;
                assert(init[i] == tag);
            }
        }
        if keep(last) {
            assert(kept == before.push(last));
            if before.contains(tag) {
                let i = choose|i: int| 0 <= i < before.len() && before[i] == tag;
                assert(kept[i] == tag);
            }
            if tag == last {
                assert(kept[before.len() as int] == tag);
            }
            if kept.contains(tag) && tag != last {
                let i = choose|i: int| 0 <= i < kept.len() && kept[i] == tag;
                assert(before[i] == tag);
            }
        } else {
            assert(kept == before);
        }
    }
}

/// A sealed message is read by its recipient, and is what was sealed: whoever holds the secret of the
/// recipient's key reads it, knowing the sender's key.
pub proof fn sealed_message_is_read_by_its_recipient(
    sender: NodeKeys,
    recipient: NodeKeys,
    sender_key: &str,
    recipient_key: &str,
    message: &[u8],
    sealed: Option<String>,
    text: &str,
    read: Result<Vec<u8>, String>,
)
    requires
        call_ensures(NodeKeys::public_key, (&sender,), sender_key),
        call_ensures(NodeKeys::public_key, (&recipient,), recipient_key),
        call_ensures(NodeKeys::seal, (&sender, recipient_key, message), sealed),
        sealed is Some,
        text@ == sealed->0@,
        call_ensures(NodeKeys::open, (&recipient, sender_key, text), read),
    ensures
        read is Ok,
        read->Ok_0@ == message@,
{
    crypto::hex_round_trip(public_of(recipient.secret())->0);
    crypto::hex_round_trip(public_of(sender.secret())->0);
    assert(public_of(recipient.secret()) == Some(crypto::hex_bytes(recipient_key@)));
    assert(public_key_of(sender_key@) is Some);
}

/// A message of a usual length is sealed to every key on the curve; an empty one and one that is too
/// long are not.
pub proof fn message_has_a_usual_length(
    keys: NodeKeys,
    recipient: &str,
    message: &[u8],
    r: Option<String>,
)
    requires
        call_ensures(NodeKeys::seal, (&keys, recipient, message), r),
    ensures
        message@.len() == 0 ==> r is None,
        message@.len() > 65408 ==> r is None,
        1 <= message@.len() <= 65408 && public_key_of(recipient@) is Some && crypto::xonly_valid(
            crypto::hex_bytes(recipient@),
        ) ==> r is Some,
{
}

/// An event is authentic only where its id, its key and its signature have their lengths, its
/// kind is a 16-bit number, and every tag has a name.
pub proof fn authentic_event_has_its_forms(e: NostrEvent, i: int)
    requires
        authentic(e),
        0 <= i < e.tags@.len(),
    ensures
        crypto::hex_bytes(e.id@).len() == 32 && crypto::hex_bytes(e.pubkey@).len() == 32
            && crypto::hex_bytes(e.sig@).len() == 64,
        crypto::is_hex(e.id@) && crypto::is_hex(e.pubkey@) && crypto::is_hex(e.sig@),
        e.kind <= 65535 && e.tags@[i]@.len() > 0,
{
}

} // verus!
