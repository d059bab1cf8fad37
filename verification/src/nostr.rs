//! Signed Nostr events as plain values: the NIP-01 id, tags, and verification under an expected
//! key.
use vstd::prelude::*;
use vstd::string::StringExecFns;

use crate::bytes;
use crate::crypto;
use crate::text;

verus! {

/// The addressable kind of a lease event.
pub const KIND_KIRBY_LEASE: u16 = 31002;

/// The addressable kind of a spawn request.
pub const KIND_KIRBY_SPAWN_REQUEST: u16 = 31003;

/// The ephemeral kind of a co-sign frame.
pub const KIND_KIRBY_COSIGN: u16 = 21004;

/// The kind of a share-provisioning frame.
pub const KIND_KIRBY_SHARE: u16 = 21005;

/// A signed Nostr event. Keys, ids and signatures are lower-case hexadecimal.
#[derive(Debug)]
pub struct NostrEvent {
    pub id: String,
    pub pubkey: String,
    pub created_at: u64,
    pub kind: u32,
    pub tags: Vec<Vec<String>>,
    pub content: String,
    pub sig: String,
}

// ---------------------------------------------------------------------------------------------
// Tags
// ---------------------------------------------------------------------------------------------
/// The texts of each tag.
pub open spec fn tag_views(tags: Seq<Vec<String>>) -> Seq<Seq<Seq<char>>> {
    Seq::new(tags.len(), |i: int| text::views(tags[i]@))
}

/// Whether a tag has the name `name`.
pub open spec fn is_named(tag: Seq<Seq<char>>, name: Seq<char>) -> bool {
    tag.len() > 0 && tag[0] == name
}

/// The value of the first tag named `name`: none if that tag has no value, or there is none.
pub open spec fn first_tag_value(tags: Seq<Seq<Seq<char>>>, name: Seq<char>) -> Option<Seq<char>>
    decreases tags.len(),
{
    if tags.len() == 0 {
        None
    } else if is_named(tags[0], name) {
        if tags[0].len() > 1 {
            Some(tags[0][1])
        } else {
            None
        }
    } else {
        first_tag_value(tags.skip(1), name)
    }
}

/// The value of the first tag that is named `name` and has a value.
pub open spec fn first_valued_tag(tags: Seq<Seq<Seq<char>>>, name: Seq<char>) -> Option<Seq<char>>
    decreases tags.len(),
{
    if tags.len() == 0 {
        None
    } else if is_named(tags[0], name) && tags[0].len() > 1 {
        Some(tags[0][1])
    } else {
        first_valued_tag(tags.skip(1), name)
    }
}

fn tag_is_named(tag: &Vec<String>, name: &str) -> (r: bool)
    ensures
        r == is_named(text::views(tag@), name@),
{
    tag.len() > 0 && text::str_eq(tag[0].as_str(), name)
}

/// The value of the first tag named `name`, if that tag has one.
pub fn tag_value(tags: &Vec<Vec<String>>, name: &str) -> (r: Option<String>)
    ensures
        r is Some <==> first_tag_value(tag_views(tags@), name@) is Some,
        r matches Some(v) ==> first_tag_value(tag_views(tags@), name@) == Some(v@),
{
    let ghost all = tag_views(tags@);
    let mut i: usize = 0;
    assert(all.skip(0) =~= all);
    while i < tags.len()
        invariant
            i <= tags@.len(),
            all == tag_views(tags@),
            first_tag_value(all, name@) == first_tag_value(all.skip(i as int), name@),
        decreases tags@.len() - i,
    {
        assert(all.skip(i as int)[0] == text::views(tags@[i as int]@));
        assert(all.skip(i as int).skip(1) =~= all.skip(i + 1));
        if tag_is_named(&tags[i], name) {
            if tags[i].len() > 1 {
                return Some(tags[i][1].clone());
            }
            return None;
        }
        i = i + 1;
    }
    None
}

/// The value of the first tag that is named `name` and has a value.
pub fn valued_tag(tags: &Vec<Vec<String>>, name: &str) -> (r: Option<String>)
    ensures
        r is Some <==> first_valued_tag(tag_views(tags@), name@) is Some,
        r matches Some(v) ==> first_valued_tag(tag_views(tags@), name@) == Some(v@),
{
    let ghost all = tag_views(tags@);
    let mut i: usize = 0;
    assert(all.skip(0) =~= all);
    while i < tags.len()
        invariant
            i <= tags@.len(),
            all == tag_views(tags@),
            first_valued_tag(all, name@) == first_valued_tag(all.skip(i as int), name@),
        decreases tags@.len() - i,
    {
        assert(all.skip(i as int)[0] == text::views(tags@[i as int]@));
        assert(all.skip(i as int).skip(1) =~= all.skip(i + 1));
        if tag_is_named(&tags[i], name) && tags[i].len() > 1 {
            return Some(tags[i][1].clone());
        }
        i = i + 1;
    }
    None
}

/// A tag of a name and a value.
pub fn pair_tag(name: &str, value: &str) -> (r: Vec<String>)
    ensures
        text::views(r@) == seq![name@, value@],
{
    let mut t: Vec<String> = Vec::new();
    assert(text::views(t@) =~= Seq::<Seq<char>>::empty());
    text::push_str(&mut t, name);
    text::push_str(&mut t, value);
    assert(text::views(t@) =~= seq![name@, value@]);
    t
}

/// Append a tag.
pub fn push_tag(tags: &mut Vec<Vec<String>>, tag: Vec<String>)
    ensures
        tag_views(final(tags)@) == tag_views(old(tags)@).push(text::views(tag@)),
{
    tags.push(tag);
    assert(tag_views(tags@) =~= tag_views(old(tags)@).push(text::views(tag@)));
}

/// A tag has as many texts as it has strings.
pub proof fn lemma_tag_lengths(tags: Seq<Vec<String>>)
    ensures
        forall|i: int|
            0 <= i < tags.len() ==> (#[trigger] tags[i])@.len() == tag_views(tags)[i].len(),
{
}

// ---------------------------------------------------------------------------------------------
// The NIP-01 id
// ---------------------------------------------------------------------------------------------
/// Texts parted by commas.
pub open spec fn comma_joined(items: Seq<Seq<char>>) -> Seq<char>
    decreases items.len(),
{
    if items.len() == 0 {
        Seq::empty()
    } else if items.len() == 1 {
        items[0]
    } else {
        comma_joined(items.drop_last()) + ","@ + items.last()
    }
}

/// A JSON array of already serialized items.
pub open spec fn json_array(items: Seq<Seq<char>>) -> Seq<char> {
    "["@ + comma_joined(items) + "]"@
}

/// Texts as JSON string literals.
pub open spec fn json_literals(items: Seq<Seq<char>>) -> Seq<Seq<char>> {
    items.map_values(|s: Seq<char>| crypto::json_text(s))
}

/// Tags as JSON arrays.
pub open spec fn json_tags(tags: Seq<Seq<Seq<char>>>) -> Seq<Seq<char>> {
    tags.map_values(|t: Seq<Seq<char>>| json_array(json_literals(t)))
}

/// The text that a NIP-01 id is the hash of: the compact JSON array
/// `[0,pubkey,created_at,kind,tags,content]`.
pub open spec fn nip01_text(
    pubkey: Seq<char>,
    created_at: u64,
    kind: u32,
    tags: Seq<Seq<Seq<char>>>,
    content: Seq<char>,
) -> Seq<char> {
    "[0,"@ + crypto::json_text(pubkey) + ","@ + text::decimal(created_at as nat) + ","@
        + text::decimal(kind as nat) + ","@ + json_array(json_tags(tags)) + ","@
        + crypto::json_text(content) + "]"@
}

/// The NIP-01 id over an event's signed fields.
pub open spec fn nip01_id(
    pubkey: Seq<char>,
    created_at: u64,
    kind: u32,
    tags: Seq<Seq<Seq<char>>>,
    content: Seq<char>,
) -> Seq<u8> {
    crypto::sha256(vstd::utf8::encode_utf8(nip01_text(pubkey, created_at, kind, tags, content)))
}

/// Append `item` to a comma-joined list that holds `done` so far.
proof fn lemma_comma_push(done: Seq<Seq<char>>, item: Seq<char>)
    ensures
        comma_joined(done.push(item)) == if done.len() == 0 {
            item
        } else {
            comma_joined(done) + ","@ + item
        },
{
    assert(done.push(item).drop_last() =~= done);
}

fn append_json_strings(out: &mut String, items: &Vec<String>)
    ensures
        final(out)@ == old(out)@ + json_array(json_literals(text::views(items@))),
{
    let ghost start = out@;
    let ghost lits = json_literals(text::views(items@));
    out.append("[");
    let mut i: usize = 0;
    assert(lits.take(0) =~= Seq::<Seq<char>>::empty());
    assert(out@ =~= start + "["@ + comma_joined(lits.take(0)));
    while i < items.len()
        invariant
            i <= items@.len(),
            lits == json_literals(text::views(items@)),
            out@ == start + "["@ + comma_joined(lits.take(i as int)),
        decreases items@.len() - i,
    {
        let ghost done = lits.take(i as int);
        if i > 0 {
            out.append(",");
        }
        let lit = crypto::json_string(items[i].as_str());
        out.append(lit.as_str());
        proof {
            assert(lits[i as int] == lit@);
            assert(lits.take(i + 1) =~= done.push(lit@));
            lemma_comma_push(done, lit@);
            assert(out@ =~= start + "["@ + comma_joined(lits.take(i + 1)));
        }
        i = i + 1;
    }
    assert(lits.take(i as int) =~= lits);
    out.append("]");
    assert(out@ =~= start + json_array(lits));
}

fn append_json_tags(out: &mut String, tags: &Vec<Vec<String>>)
    ensures
        final(out)@ == old(out)@ + json_array(json_tags(tag_views(tags@))),
{
    let ghost start = out@;
    let ghost lits = json_tags(tag_views(tags@));
    out.append("[");
    let mut i: usize = 0;
    assert(lits.take(0) =~= Seq::<Seq<char>>::empty());
    assert(out@ =~= start + "["@ + comma_joined(lits.take(0)));
    while i < tags.len()
        invariant
            i <= tags@.len(),
            lits == json_tags(tag_views(tags@)),
            out@ == start + "["@ + comma_joined(lits.take(i as int)),
        decreases tags@.len() - i,
    {
        let ghost done = lits.take(i as int);
        if i > 0 {
            out.append(",");
        }
        append_json_strings(out, &tags[i]);
        proof {
            let lit = json_array(json_literals(text::views(tags@[i as int]@)));
            assert(lits[i as int] == lit);
            assert(lits.take(i + 1) =~= done.push(lit));
            lemma_comma_push(done, lit);
            assert(out@ =~= start + "["@ + comma_joined(lits.take(i + 1)));
        }
        i = i + 1;
    }
    assert(lits.take(i as int) =~= lits);
    out.append("]");
    assert(out@ =~= start + json_array(lits));
}

/// The 32-byte NIP-01 id over an event's signed fields.
pub fn nip01_event_id_with_tags(
    pubkey: &str,
    created_at: u64,
    kind: u32,
    tags: &Vec<Vec<String>>,
    content: &str,
) -> (r: Vec<u8>)
    ensures
        r@ == nip01_id(pubkey@, created_at, kind, tag_views(tags@), content@),
        r@.len() == 32,
{
    let mut s = "[0,".to_owned();
    s.append(crypto::json_string(pubkey).as_str());
    s.append(",");
    text::append_decimal(&mut s, created_at);
    s.append(",");
    text::append_decimal(&mut s, kind as u64);
    s.append(",");
    append_json_tags(&mut s, tags);
    s.append(",");
    s.append(crypto::json_string(content).as_str());
    s.append("]");
    assert(s@ =~= nip01_text(pubkey@, created_at, kind, tag_views(tags@), content@));
    crypto::sha256_digest(s.as_str().as_bytes())
}

// ---------------------------------------------------------------------------------------------
// Verification under an expected key
// ---------------------------------------------------------------------------------------------
/// Why an event does not verify under an expected key.
#[derive(Debug, Clone, Copy, PartialEq, Eq, Structural)]
pub enum VerifyError {
    /// The event's key is not the expected one: a forged claim.
    WrongKey,
    /// The event's id is not hexadecimal.
    IdNotHex,
    /// The event's id is not the NIP-01 id over its signed fields.
    IdMismatch,
    /// The expected key is not a valid x-only key.
    KeyInvalid,
    /// The event's signature is not hexadecimal.
    SigNotHex,
    /// The event's signature is not 64 bytes long.
    SigMalformed,
    /// The signature does not verify under the expected key.
    SigInvalid,
}

/// The NIP-01 id that an event's fields have.
pub open spec fn derived_id(e: NostrEvent) -> Seq<u8> {
    nip01_id(e.pubkey@, e.created_at, e.kind, tag_views(e.tags@), e.content@)
}

/// Why `e` does not verify under the x-only key `q`, if it does not: the first rule it breaks.
pub open spec fn verify_error(e: NostrEvent, q: Seq<u8>) -> Option<VerifyError> {
    if e.pubkey@ != crypto::hex_text(q) {
        Some(VerifyError::WrongKey)
    } else if !crypto::is_hex(e.id@) {
        Some(VerifyError::IdNotHex)
    } else if crypto::hex_bytes(e.id@) != derived_id(e) {
        Some(VerifyError::IdMismatch)
    } else if !crypto::xonly_valid(q) {
        Some(VerifyError::KeyInvalid)
    } else if !crypto::is_hex(e.sig@) {
        Some(VerifyError::SigNotHex)
    } else if crypto::hex_bytes(e.sig@).len() != 64 {
        Some(VerifyError::SigMalformed)
    } else if !crypto::bip340(q, derived_id(e), crypto::hex_bytes(e.sig@)) {
        Some(VerifyError::SigInvalid)
    } else {
        None
    }
}

/// Verify an event under the expected x-only key: the event names that key, its id is the NIP-01
/// id over its signed fields, and its BIP-340 signature verifies over that id.
pub fn verify_event_under(e: &NostrEvent, q: &[u8]) -> (r: Result<(), VerifyError>)
    ensures
        match r {
            Ok(()) => verify_error(*e, q@) is None,
            Err(err) => verify_error(*e, q@) == Some(err),
        },
{
    let q_hex = crypto::hex_encode(q);
    if !text::str_eq(e.pubkey.as_str(), q_hex.as_str()) {
        return Err(VerifyError::WrongKey);
    }
    let derived = nip01_event_id_with_tags(
        e.pubkey.as_str(),
        e.created_at,
        e.kind,
        &e.tags,
        e.content.as_str(),
    );
    let claimed = match crypto::hex_decode(e.id.as_str()) {
        Some(b) => b,
        None => return Err(VerifyError::IdNotHex),
    };
    if !bytes::bytes_eq(claimed.as_slice(), derived.as_slice()) {
        return Err(VerifyError::IdMismatch);
    }
    if !crypto::xonly_is_valid(q) {
        return Err(VerifyError::KeyInvalid);
    }
    let sig = match crypto::hex_decode(e.sig.as_str()) {
        Some(b) => b,
        None => return Err(VerifyError::SigNotHex),
    };
    if sig.len() != 64 {
        return Err(VerifyError::SigMalformed);
    }
    if !crypto::bip340_verifies(q, derived.as_slice(), sig.as_slice()) {
        return Err(VerifyError::SigInvalid);
    }
    Ok(())
}

/// An event verifies under one key at most: two expected keys that the same event verifies under
/// are equal.
pub proof fn verifies_under_one_key(e: NostrEvent, p: Seq<u8>, q: Seq<u8>)
    requires
        verify_error(e, p) is None,
        verify_error(e, q) is None,
    ensures
        p == q,
{
    crypto::hex_round_trip(p);
    crypto::hex_round_trip(q);
}

/// Tampering is caught: an event whose signed fields hash to another id than the verified event's,
/// with the id kept, does not verify under any key.
pub proof fn tampering_breaks_the_id(genuine: NostrEvent, tampered: NostrEvent, q: Seq<u8>, p: Seq<
    u8,
>)
    requires
        verify_error(genuine, q) is None,
        tampered.id@ == genuine.id@,
        derived_id(tampered) != derived_id(genuine),
    ensures
        verify_error(tampered, p) is Some,
{
}

// ---------------------------------------------------------------------------------------------
// What the calls come to
// ---------------------------------------------------------------------------------------------
proof fn lemma_first_named(tags: Seq<Seq<Seq<char>>>, name: Seq<char>, i: int)
    requires
        0 <= i < tags.len(),
        is_named(tags[i], name),
        forall|j: int| 0 <= j < i ==> !is_named(#[trigger] tags[j], name),
    ensures
        first_tag_value(tags, name) == if tags[i].len() > 1 {
            Some(tags[i][1])
        } else {
            None
        },
    decreases tags.len(),
{
    if i > 0 {
        let rest = tags.skip(1);
        assert(!is_named(tags[0], name));
        assert forall|j: int| 0 <= j < i - 1 implies !is_named(#[trigger] rest[j], name) by {
            assert(rest[j] == tags[j + 1]);
        }
        assert(rest[i - 1] == tags[i]);
        lemma_first_named(rest, name, i - 1);
    }
}

proof fn lemma_none_named(tags: Seq<Seq<Seq<char>>>, name: Seq<char>)
    requires
        forall|j: int| 0 <= j < tags.len() ==> !is_named(#[trigger] tags[j], name),
    ensures
        first_tag_value(tags, name) is None,
        first_valued_tag(tags, name) is None,
    decreases tags.len(),
{
    if tags.len() > 0 {
        let rest = tags.skip(1);
        assert(!is_named(tags[0], name));
        assert forall|j: int| 0 <= j < rest.len() implies !is_named(#[trigger] rest[j], name) by {
            assert(rest[j] == tags[j + 1]);
        }
        lemma_none_named(rest, name);
    }
}

proof fn lemma_first_valued(tags: Seq<Seq<Seq<char>>>, name: Seq<char>, i: int)
    requires
        0 <= i < tags.len(),
        is_named(tags[i], name),
        tags[i].len() > 1,
        forall|j: int|
            0 <= j < i ==> !(is_named(#[trigger] tags[j], name) && tags[j].len() > 1),
    ensures
        first_valued_tag(tags, name) == Some(tags[i][1]),
    decreases tags.len(),
{
    if i > 0 {
        let rest = tags.skip(1);
        assert(!(is_named(tags[0], name) && tags[0].len() > 1));
        assert forall|j: int| 0 <= j < i - 1 implies !(is_named(#[trigger] rest[j], name)
            && rest[j].len() > 1) by {
            assert(rest[j] == tags[j + 1]);
        }
        assert(rest[i - 1] == tags[i]);
        lemma_first_valued(rest, name, i - 1);
    }
}

/// A tag's value is the text behind its name, and the first tag of a name counts: for one reading
/// whether or not it has a value, for the other the first that has one.
pub proof fn first_tag_of_a_name_counts(
    tags: Vec<Vec<String>>,
    name: &str,
    first: Option<String>,
    valued: Option<String>,
    i: int,
)
    requires
        call_ensures(tag_value, (&tags, name), first),
        call_ensures(valued_tag, (&tags, name), valued),
        0 <= i < tags@.len(),
        tags@[i]@.len() > 1,
        tags@[i]@[0]@ == name@,
        forall|j: int|
            0 <= j < i ==> (#[trigger] tags@[j])@.len() == 0 || tags@[j]@[0]@ != name@,
    ensures
        first is Some && first->0@ == tags@[i]@[1]@,
        valued is Some && valued->0@ == tags@[i]@[1]@,
{
    let all = tag_views(tags@);
    assert(all[i] == text::views(tags@[i]@));
    assert forall|j: int| 0 <= j < i implies !is_named(#[trigger] all[j], name@) by {
        assert(all[j] == text::views(tags@[j]@));
    }
    lemma_first_named(all, name@, i);
    lemma_first_valued(all, name@, i);
}

/// Without a tag of a name there is no value.
pub proof fn missing_tag_has_no_value(
    tags: Vec<Vec<String>>,
    name: &str,
    first: Option<String>,
    valued: Option<String>,
)
    requires
        call_ensures(tag_value, (&tags, name), first),
        call_ensures(valued_tag, (&tags, name), valued),
        forall|j: int|
            0 <= j < tags@.len() ==> (#[trigger] tags@[j])@.len() == 0 || tags@[j]@[0]@ != name@,
    ensures
        first is None,
        valued is None,
{
    let all = tag_views(tags@);
    assert forall|j: int| 0 <= j < all.len() implies !is_named(#[trigger] all[j], name@) by {
        assert(all[j] == text::views(tags@[j]@));
    }
    lemma_none_named(all, name@);
}

/// What verifies under an expected key: an event that names exactly that key, whose id is the hash over
/// its own fields, and whose signature of 64 bytes verifies over that id under that key.
pub proof fn verified_event_is_signed_under_the_key(
    e: NostrEvent,
    q: &[u8],
    r: Result<(), VerifyError>,
    id: Vec<u8>,
    pubkey: &str,
    content: &str,
)
    requires
        call_ensures(verify_event_under, (&e, q), r),
        pubkey@ == e.pubkey@,
        content@ == e.content@,
        call_ensures(
            nip01_event_id_with_tags,
            (pubkey, e.created_at, e.kind, &e.tags, content),
            id,
        ),
    ensures
        r is Ok <==> {
            &&& e.pubkey@ == crypto::hex_text(q@)
            &&& crypto::is_hex(e.id@) && crypto::hex_bytes(e.id@) == id@
            &&& crypto::xonly_valid(q@)
            &&& crypto::is_hex(e.sig@) && crypto::hex_bytes(e.sig@).len() == 64
            &&& crypto::bip340(q@, id@, crypto::hex_bytes(e.sig@))
        },
        e.pubkey@ != crypto::hex_text(q@) ==> r == Err::<(), _>(VerifyError::WrongKey),
        r == Err::<(), _>(VerifyError::IdMismatch) ==> crypto::hex_bytes(e.id@) != id@,
{
}

/// The id covers every signed field: it is the hash of the compact JSON array of zero, the key, the
/// time, the kind, the tags and the content, in this order.
pub proof fn id_covers_every_signed_field(
    pubkey: &str,
    created_at: u64,
    kind: u32,
    tags: Vec<Vec<String>>,
    content: &str,
    r: Vec<u8>,
)
    requires
        call_ensures(nip01_event_id_with_tags, (pubkey, created_at, kind, &tags, content), r),
    ensures
        r@ == crypto::sha256(
            vstd::utf8::encode_utf8(
                "[0,"@ + crypto::json_text(pubkey@) + ","@ + text::decimal(created_at as nat)
                    + ","@ + text::decimal(kind as nat) + ","@ + json_array(
                    json_tags(tag_views(tags@)),
                ) + ","@ + crypto::json_text(content@) + "]"@,
            ),
        ),
{
}

/// Tags stand in the id's text one by one, in order, each as a list of its quoted texts.
pub proof fn tags_are_written_in_order(
    tags: Seq<Seq<Seq<char>>>,
    tag: Seq<Seq<char>>,
    value: Seq<char>,
)
    ensures
        json_array(json_tags(Seq::empty())) == "["@ + Seq::empty() + "]"@,
        tags.len() > 0 ==> comma_joined(json_tags(tags.push(tag))) == comma_joined(json_tags(tags))
            + ","@ + json_array(json_literals(tag)),
        comma_joined(json_tags(seq![tag])) == json_array(json_literals(tag)),
        tag.len() > 0 ==> comma_joined(json_literals(tag.push(value))) == comma_joined(
            json_literals(tag),
        ) + ","@ + crypto::json_text(value),
        comma_joined(json_literals(seq![value])) == crypto::json_text(value),
        json_array(json_literals(tag)) == "["@ + comma_joined(json_literals(tag)) + "]"@,
{
    assert(json_tags(Seq::empty()) =~= Seq::<Seq<char>>::empty());
    lemma_comma_push(json_tags(tags), json_array(json_literals(tag)));
    assert(json_tags(tags.push(tag)) =~= json_tags(tags).push(json_array(json_literals(tag))));
    assert(json_tags(seq![tag]) =~= seq![json_array(json_literals(tag))]);
    lemma_comma_push(json_literals(tag), crypto::json_text(value));
    assert(json_literals(tag.push(value)) =~= json_literals(tag).push(crypto::json_text(value)));
    assert(json_literals(seq![value]) =~= seq![crypto::json_text(value)]);
}

} // verus!
