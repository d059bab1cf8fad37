//! Co-sign frames as signed relay events, and the addresses of holders.
//!
//! A frame's content is JSON. Callers decode it and hand it over next to the event; content that
//! does not decode is `None`. The carrier never reads a frame's payload.
use vstd::prelude::*;
use vstd::string::StringExecFns;

use crate::crypto;
use crate::frost;
use crate::nostr;
use crate::nostr::{NostrEvent, KIND_KIRBY_COSIGN};
use crate::remote_holder;
use crate::remote_holder::CoSignEvent;
use crate::signing;
use crate::signing::NodeKeys;
use crate::text;

verus! {

/// A frame's content. The payload is in hexadecimal, and so is the sender's identifier.
#[derive(Debug)]
pub struct CoSignWire {
    pub agent_id: String,
    pub session_id: u64,
    pub from: String,
    pub round: u8,
    pub payload_hex: String,
}

/// Whether a content carries `event` for `agent_id`.
pub open spec fn carries(wire: CoSignWire, agent_id: Seq<char>, event: CoSignEvent) -> bool {
    &&& wire.agent_id@ == agent_id
    &&& wire.session_id == event.session_id
    &&& wire.from@ == crypto::hex_text(event.from@)
    &&& wire.round == event.round
    &&& wire.payload_hex@ == crypto::hex_text(event.payload@)
}

/// The sender that a content names, if it names an identifier.
pub open spec fn wire_sender(wire: CoSignWire) -> Option<Seq<u8>> {
    if crypto::is_hex(wire.from@) && frost::identifier_form(crypto::hex_bytes(wire.from@)) {
        Some(crypto::hex_bytes(wire.from@))
    } else {
        None
    }
}

impl CoSignWire {
    /// The content of a frame.
    pub fn from_cosign(agent_id: &str, event: &CoSignEvent) -> (r: CoSignWire)
        ensures
            carries(r, agent_id@, *event),
    {
        CoSignWire {
            agent_id: agent_id.to_owned(),
            session_id: event.session_id,
            from: crypto::hex_encode(event.from.as_slice()),
            round: event.round,
            payload_hex: crypto::hex_encode(event.payload.as_slice()),
        }
    }

    /// The frame that a content carries.
    pub fn into_cosign(self) -> (r: Result<CoSignEvent, FrameError>)
        ensures
            match r {
                Ok(event) => {
                    &&& wire_sender(self) == Some(event.from@)
                    &&& crypto::is_hex(self.payload_hex@)
                    &&& event.payload@ == crypto::hex_bytes(self.payload_hex@)
                    &&& event.session_id == self.session_id
                    &&& event.round == self.round
                },
                Err(FrameError::BadPayload) => !crypto::is_hex(self.payload_hex@),
                Err(FrameError::BadSender) => crypto::is_hex(self.payload_hex@) && wire_sender(self)
                    is None,
                Err(_) => false,
            },
    {
        let payload = match crypto::hex_decode(self.payload_hex.as_str()) {
            Some(b) => b,
            None => return Err(FrameError::BadPayload),
        };
        let from = match crypto::hex_decode(self.from.as_str()) {
            Some(raw) => {
                if !frost::is_identifier(raw.as_slice()) {
                    return Err(FrameError::BadSender);
                }
                raw
            },
            None => return Err(FrameError::BadSender),
        };
        Ok(CoSignEvent { session_id: self.session_id, from, round: self.round, payload })
    }

    /// The content's compact JSON, with its fields in the order of declaration.
    pub fn json(&self) -> (r: String)
        ensures
            r@ == wire_json(*self),
    {
        let mut s = "{\"agent_id\":".to_owned();
        s.append(crypto::json_string(self.agent_id.as_str()).as_str());
        s.append(",\"session_id\":");
        text::append_decimal(&mut s, self.session_id);
        s.append(",\"from\":");
        s.append(crypto::json_string(self.from.as_str()).as_str());
        s.append(",\"round\":");
        text::append_decimal(&mut s, self.round as u64);
        s.append(",\"payload_hex\":");
        s.append(crypto::json_string(self.payload_hex.as_str()).as_str());
        s.append("}");
        assert(s@ =~= wire_json(*self));
        s
    }
}

/// The compact JSON of a frame's content.
pub open spec fn wire_json(w: CoSignWire) -> Seq<char> {
    "{\"agent_id\":"@ + crypto::json_text(w.agent_id@) + ",\"session_id\":"@ + text::decimal(
        w.session_id as nat,
    ) + ",\"from\":"@ + crypto::json_text(w.from@) + ",\"round\":"@ + text::decimal(w.round as nat)
        + ",\"payload_hex\":"@ + crypto::json_text(w.payload_hex@) + "}"@
}

/// Why an event is no frame.
#[derive(Debug, Clone, Copy, PartialEq, Eq, Structural)]
pub enum FrameError {
    /// The event's id or signature does not verify.
    BadSignature,
    /// The event is of another kind.
    WrongKind(u32),
    /// The content does not decode.
    Malformed,
    /// The payload is not hexadecimal.
    BadPayload,
    /// The sender is no identifier.
    BadSender,
}

/// The tags of a frame: its recipient, the fleet's topic and the agent.
pub open spec fn frame_tags(recipient: Seq<char>, agent_id: Seq<char>) -> Seq<Seq<Seq<char>>> {
    seq![seq!["p"@, recipient], seq!["t"@, "kirby"@], seq!["a"@, agent_id]]
}

/// The tags of a frame.
pub fn make_frame_tags(recipient: &str, agent_id: &str) -> (tags: Vec<Vec<String>>)
    ensures
        nostr::tag_views(tags@) == frame_tags(recipient@, agent_id@),
        forall|i: int| 0 <= i < tags@.len() ==> (#[trigger] tags@[i])@.len() > 0,
{
    let mut tags: Vec<Vec<String>> = Vec::new();
    assert(nostr::tag_views(tags@) =~= Seq::<Seq<Seq<char>>>::empty());
    nostr::push_tag(&mut tags, nostr::pair_tag("p", recipient));
    nostr::push_tag(&mut tags, nostr::pair_tag("t", "kirby"));
    nostr::push_tag(&mut tags, nostr::pair_tag("a", agent_id));
    assert(nostr::tag_views(tags@) =~= frame_tags(recipient@, agent_id@));
    proof {
        nostr::lemma_tag_lengths(tags@);
    }
    tags
}

/// Whether `e` is the signed event that takes `frame` from `sender` to `recipient`.
pub open spec fn is_frame_event(
    e: NostrEvent,
    agent_id: Seq<char>,
    sender: Seq<char>,
    recipient: Seq<char>,
    frame: CoSignEvent,
) -> bool {
    &&& signing::authentic(e)
    &&& e.kind == KIND_KIRBY_COSIGN
    &&& e.pubkey@ == sender
    &&& exists|wire: CoSignWire|
        carries(wire, agent_id, frame) && e.content@ == #[trigger] wire_json(wire)
    &&& nostr::tag_views(e.tags@) == signing::signed_tags(
        frame_tags(recipient, agent_id),
        sender,
    )
}

/// Wrap a frame in an event signed by the sender and addressed to the recipient. Nobody addresses
/// a frame to itself.
pub fn encode_cosign_frame(agent_id: &str, event: &CoSignEvent, recipient: &str, signer: &NodeKeys) -> (r:
    NostrEvent)
    ensures
        is_frame_event(r, agent_id@, signer.public(), recipient@, *event),
{
    let wire = CoSignWire::from_cosign(agent_id, event);
    let content = wire.json();
    let tags = make_frame_tags(recipient, agent_id);
    let r = signer.sign(KIND_KIRBY_COSIGN, &tags, content.as_str());
    assert(r.content@ == wire_json(wire));
    r
}

/// Why an event is no frame, if it is none: the first rule it breaks.
pub open spec fn frame_error(e: NostrEvent, wire: Option<CoSignWire>) -> Option<FrameError> {
    if !signing::authentic(e) {
        Some(FrameError::BadSignature)
    } else if e.kind != KIND_KIRBY_COSIGN {
        Some(FrameError::WrongKind(e.kind))
    } else if wire is None {
        Some(FrameError::Malformed)
    } else if !crypto::is_hex(wire->0.payload_hex@) {
        Some(FrameError::BadPayload)
    } else if wire_sender(wire->0) is None {
        Some(FrameError::BadSender)
    } else {
        None
    }
}

/// A decoded frame: the agent it is about, the frame, and the transport key that sent it.
#[derive(Debug)]
pub struct DecodedFrame {
    pub agent_id: String,
    pub cosign: CoSignEvent,
    pub sender: String,
}

/// Whether `d` is the frame of an event with content `wire`.
pub open spec fn is_frame_of(d: DecodedFrame, e: NostrEvent, wire: CoSignWire) -> bool {
    &&& d.agent_id@ == wire.agent_id@
    &&& signing::public_key_of(e.pubkey@) == Some(d.sender@)
    &&& d.cosign.session_id == wire.session_id
    &&& wire_sender(wire) == Some(d.cosign.from@)
    &&& d.cosign.round == wire.round
    &&& d.cosign.payload@ == crypto::hex_bytes(wire.payload_hex@)
}

/// Verify and decode a frame. The signature is checked first, and the kind again, whatever the relay
/// was asked for. The sender is the event's author.
pub fn decode_cosign_frame(event: &NostrEvent, wire: Option<CoSignWire>) -> (r: Result<
    DecodedFrame,
    FrameError,
>)
    ensures
        match r {
            Ok(d) => frame_error(*event, wire) is None && is_frame_of(d, *event, wire->0),
            Err(e) => frame_error(*event, wire) == Some(e),
        },
{
    if !signing::is_authentic(event) {
        return Err(FrameError::BadSignature);
    }
    let sender = match signing::parse_public_key(event.pubkey.as_str()) {
        Some(k) => k,
        None => return Err(FrameError::BadSignature),
    };
    if event.kind != KIND_KIRBY_COSIGN as u32 {
        return Err(FrameError::WrongKind(event.kind));
    }
    let wire = match wire {
        Some(w) => w,
        None => return Err(FrameError::Malformed),
    };
    let agent_id = wire.agent_id.clone();
    match wire.into_cosign() {
        Ok(cosign) => Ok(DecodedFrame { agent_id, cosign, sender }),
        Err(e) => Err(e),
    }
}

/// A frame comes back: from an authentic event that carries it, it decodes to the same agent,
/// session, sender, round and payload, and to the event's author.
pub proof fn frame_comes_back(
    e: NostrEvent,
    wire: CoSignWire,
    agent_id: Seq<char>,
    event: CoSignEvent,
    d: DecodedFrame,
)
    requires
        carries(wire, agent_id, event),
        frost::identifier_form(event.from@),
        signing::authentic(e),
        e.kind == KIND_KIRBY_COSIGN,
    ensures
        frame_error(e, Some(wire)) is None,
        is_frame_of(d, e, wire) ==> d.agent_id@ == agent_id && remote_holder::same_frame(
            d.cosign,
            event,
        ),
{
    crypto::hex_round_trip(event.payload@);
    crypto::hex_round_trip(event.from@);
}

// ---------------------------------------------------------------------------------------------
// Recipients
// ---------------------------------------------------------------------------------------------
/// The key of the first `p` tag that holds one.
pub open spec fn recipient_of(tags: Seq<Seq<Seq<char>>>) -> Option<Seq<char>>
    decreases tags.len(),
{
    if tags.len() == 0 {
        None
    } else if nostr::is_named(tags[0], "p"@) && tags[0].len() > 1 && signing::public_key_of(
        tags[0][1],
    ) is Some {
        signing::public_key_of(tags[0][1])
    } else {
        recipient_of(tags.skip(1))
    }
}

/// The recipient that an event is addressed to.
pub fn recipient_pubkey(event: &NostrEvent) -> (r: Option<String>)
    ensures
        r is Some <==> recipient_of(nostr::tag_views(event.tags@)) is Some,
        r matches Some(k) ==> recipient_of(nostr::tag_views(event.tags@)) == Some(k@),
{
    let ghost all = nostr::tag_views(event.tags@);
    let mut i: usize = 0;
    assert(all.skip(0) =~= all);
    while i < event.tags.len()
        invariant
            i <= event.tags@.len(),
            all == nostr::tag_views(event.tags@),
            recipient_of(all) == recipient_of(all.skip(i as int)),
        decreases event.tags@.len() - i,
    {
        assert(all.skip(i as int)[0] == text::views(event.tags@[i as int]@));
        assert(all.skip(i as int).skip(1) =~= all.skip(i + 1));
        let tag = &event.tags[i];
        if tag.len() > 1 && text::str_eq(tag[0].as_str(), "p") {
            match signing::parse_public_key(tag[1].as_str()) {
                Some(k) => return Some(k),
                None => {},
            }
        }
        i = i + 1;
    }
    None
}

// ---------------------------------------------------------------------------------------------
// Addresses
// ---------------------------------------------------------------------------------------------
/// The position of the first `c` in `s`, or its length.
pub open spec fn first_at(s: Seq<char>, c: char) -> int
    decreases s.len(),
{
    if s.len() == 0 || s[0] == c {
        0
    } else {
        1 + first_at(s.skip(1), c)
    }
}

proof fn lemma_first_at(s: Seq<char>, c: char, n: int)
    requires
        0 <= n <= s.len(),
        n < s.len() ==> s[n] == c,
        forall|k: int| 0 <= k < n ==> #[trigger] s[k] != c,
    ensures
        first_at(s, c) == n,
    decreases n,
{
    if n > 0 {
        assert(s[0] != c);
        assert forall|k: int| 0 <= k < n - 1 implies #[trigger] s.skip(1)[k] != c by {
            assert(s.skip(1)[k] == s[k + 1]);
        }
        lemma_first_at(s.skip(1), c, n - 1);
    }
}

/// The parts of `s` between the `c`s.
pub open spec fn parts(s: Seq<char>, c: char) -> Seq<Seq<char>>
    decreases s.len(),
{
    let n = first_at(s, c);
    if n < 0 || n >= s.len() {
        seq![s]
    } else {
        seq![s.take(n)] + parts(s.skip(n + 1), c)
    }
}

proof fn lemma_first_at_bounds(s: Seq<char>, c: char)
    ensures
        0 <= first_at(s, c) <= s.len(),
        first_at(s, c) < s.len() ==> s[first_at(s, c)] == c,
        forall|k: int| 0 <= k < first_at(s, c) ==> #[trigger] s[k] != c,
    decreases s.len(),
{
    if s.len() > 0 && s[0] != c {
        lemma_first_at_bounds(s.skip(1), c);
        let n = first_at(s, c);
        assert(n < s.len() ==> s.skip(1)[n - 1] == s[n]);
        assert forall|k: int| 0 <= k < n implies #[trigger] s[k] != c by {
            if k > 0 {
                assert(s.skip(1)[k - 1] == s[k]);
            }
        }
    }
}

/// Whether a part of an address names a relay.
pub open spec fn is_relay(part: Seq<char>) -> bool {
    text::trim(part).len() > 0 && text::trim(part) != "inmem"@
}

/// The relays that parts of an address name, trimmed.
pub open spec fn relays_of(ps: Seq<Seq<char>>) -> Seq<Seq<char>>
    decreases ps.len(),
{
    if ps.len() == 0 {
        Seq::empty()
    } else if is_relay(ps[0]) {
        seq![text::trim(ps[0])] + relays_of(ps.skip(1))
    } else {
        relays_of(ps.skip(1))
    }
}

/// The part of an address before its `@`.
pub open spec fn address_key(address: Seq<char>) -> Seq<char> {
    address.take(first_at(address, '@'))
}

/// The part of an address behind its `@`: nothing, if it has none.
pub open spec fn address_reach(address: Seq<char>) -> Seq<char> {
    if first_at(address, '@') < address.len() {
        address.skip(first_at(address, '@') + 1)
    } else {
        Seq::empty()
    }
}

/// A holder's address: its transport key, and the relays to reach it by.
#[derive(Debug)]
pub struct HolderAddress {
    pub pubkey: String,
    pub relays: Vec<String>,
}

/// The address's key is no key.
#[derive(Debug, Clone, Copy, PartialEq, Eq, Structural)]
pub struct BadAddress;

fn find_char(chars: &Vec<char>, from: usize, c: char) -> (r: usize)
    requires
        from <= chars@.len(),
    ensures
        from <= r <= chars@.len(),
        r - from == first_at(chars@.skip(from as int), c),
{
    let mut i: usize = from;
    while i < chars.len() && chars[i] != c
        invariant
            from <= i <= chars@.len(),
            forall|k: int| from <= k < i ==> #[trigger] chars@[k] != c,
        decreases chars@.len() - i,
    {
        i = i + 1;
    }
    proof {
        let s = chars@.skip(from as int);
        assert forall|k: int| 0 <= k < i - from implies #[trigger] s[k] != c by {
            assert(s[k] == chars@[k + from]);
        }
        assert(i < chars@.len() ==> s[i - from] == chars@[i as int]);
        lemma_first_at(s, c, i - from);
    }
    i
}

/// Read a holder's address: `<transport key>@<relay>,<relay>,...`. The relays may be missing, and
/// the word `inmem` stands for none.
pub fn parse_holder_address(address: &str) -> (r: Result<HolderAddress, BadAddress>)
    ensures
        r is Ok <==> signing::public_key_of(text::trim(address_key(address@))) is Some,
        r matches Ok(a) ==> {
            &&& signing::public_key_of(text::trim(address_key(address@))) == Some(a.pubkey@)
            &&& text::views(a.relays@) == relays_of(parts(address_reach(address@), ','))
        },
{
    let chars = text::chars_of(address);
    assert(chars@.skip(0) =~= chars@);
    let at: usize = find_char(&chars, 0, '@');
    let key = text::trim_range(&chars, 0, at);
    assert(chars@.subrange(0, at as int) =~= address_key(address@));
    let pubkey = match signing::parse_public_key(key.as_str()) {
        Some(k) => k,
        None => return Err(BadAddress),
    };
    let mut relays: Vec<String> = Vec::new();
    let ghost reach = address_reach(address@);
    let mut from: usize = if at < chars.len() {
        at + 1
    } else {
        chars.len()
    };
    assert(text::views(relays@) =~= Seq::<Seq<char>>::empty());
    assert(chars@.skip(from as int) =~= reach);
    let mut more = true;
    proof {
        assert(text::views(relays@) + relays_of(parts(chars@.skip(from as int), ',')) =~= relays_of(
            parts(reach, ','),
        ));
    }
    while more
        invariant
            from <= chars@.len(),
            more ==> text::views(relays@) + relays_of(parts(chars@.skip(from as int), ','))
                == relays_of(parts(reach, ',')),
            !more ==> text::views(relays@) == relays_of(parts(reach, ',')),
        decreases chars@.len() - from, if more {
            1int
        } else {
            0int
        },
    {
        let ghost rest = chars@.skip(from as int);
        let ghost had = text::views(relays@);
        let to: usize = find_char(&chars, from, ',');
        let part = text::trim_range(&chars, from, to);
        proof {
            lemma_first_at_bounds(rest, ',');
            assert(chars@.subrange(from as int, to as int) =~= rest.take(to - from));
            reveal_strlit("");
        }
        let ghost piece = rest.take(to - from);
        assert(part@ == text::trim(piece));
        assert(part@.len() == 0 ==> part@ =~= ""@);
        if !text::str_eq(part.as_str(), "") && !text::str_eq(part.as_str(), "inmem") {
            text::push_str(&mut relays, part.as_str());
        }
        proof {
            let ps = parts(rest, ',');
            if to < chars@.len() {
                assert(rest.skip(to - from + 1) =~= chars@.skip(to + 1));
                assert(ps == seq![piece] + parts(chars@.skip(to + 1), ','));
                assert(ps.skip(1) =~= parts(chars@.skip(to + 1), ','));
                assert(ps[0] == piece);
                assert(text::views(relays@) + relays_of(ps.skip(1)) =~= had + relays_of(ps));
            } else {
                assert(piece =~= rest);
                assert(ps == seq![rest]);
                assert(ps.skip(1) =~= Seq::<Seq<char>>::empty());
                assert(relays_of(ps.skip(1)) =~= Seq::<Seq<char>>::empty());
                assert(text::views(relays@) =~= had + relays_of(ps));
            }
        }
        if to < chars.len() {
            from = to + 1;
        } else {
            more = false;
        }
    }
    Ok(HolderAddress { pubkey, relays })
}

/// The key of an address is what stands before its first `@`, and its reach what stands behind.
pub proof fn key_stands_before_the_at(key: Seq<char>, reach: Seq<char>)
    requires
        !key.contains('@'),
    ensures
        address_key(key + seq!['@'] + reach) == key,
        address_reach(key + seq!['@'] + reach) == reach,
        address_key(key) == key,
        address_reach(key) == Seq::<char>::empty(),
{
    let s = key + seq!['@'] + reach;
    assert forall|k: int| 0 <= k < key.len() implies #[trigger] s[k] != '@' by {
        assert(key[k] == s[k]);
    }
    assert forall|k: int| 0 <= k < key.len() implies #[trigger] key[k] != '@' by {
        assert(key.contains(key[k]));
    }
    lemma_first_at(s, '@', key.len() as int);
    lemma_first_at(key, '@', key.len() as int);
    assert(s.take(key.len() as int) =~= key);
    assert(s.skip(key.len() as int + 1) =~= reach);
    assert(key.take(key.len() as int) =~= key);
}

/// Signing keeps a frame's tags, unless it is addressed to its own author.
pub proof fn frame_tags_are_kept(recipient: Seq<char>, agent_id: Seq<char>, author: Seq<char>)
    requires
        recipient != author,
    ensures
        signing::signed_tags(frame_tags(recipient, agent_id), author) == seq![
            seq!["p"@, recipient],
            seq!["t"@, "kirby"@],
            seq!["a"@, agent_id],
        ],
{
    let tags = frame_tags(recipient, agent_id);
    let keep = |t: Seq<Seq<char>>| !signing::is_self_address(t, author);
    reveal_strlit("p");
    reveal_strlit("t");
    reveal_strlit("a");
    assert("t"@[0] != "p"@[0] && "a"@[0] != "p"@[0]);
    assert(tags.drop_last().drop_last().drop_last() =~= Seq::<Seq<Seq<char>>>::empty());
    reveal(Seq::filter);
    assert(tags.drop_last().drop_last().drop_last().filter(keep) =~= Seq::<
        Seq<Seq<char>>,
    >::empty());
    assert(tags.drop_last().drop_last().filter(keep) =~= seq![tags[0]]);
    assert(tags.drop_last().filter(keep) =~= seq![tags[0], tags[1]]);
    assert(tags.filter(keep) =~= tags);
}

// ---------------------------------------------------------------------------------------------
// What the calls come to
// ---------------------------------------------------------------------------------------------
/// A frame crosses the wire unchanged: what is packed for an agent is unpacked to the same session,
/// round, sender and payload, for the same agent.
pub proof fn frame_is_unpacked_as_it_was_packed(
    agent_id: &str,
    event: CoSignEvent,
    wire: CoSignWire,
    back: Result<CoSignEvent, FrameError>,
)
    requires
        call_ensures(CoSignWire::from_cosign, (agent_id, &event), wire),
        call_ensures(CoSignWire::into_cosign, (wire,), back),
        frost::identifier_form(event.from@),
    ensures
        wire.agent_id@ == agent_id@,
        back is Ok,
        back->Ok_0.session_id == event.session_id,
        back->Ok_0.round == event.round,
        back->Ok_0.from@ == event.from@,
        back->Ok_0.payload@ == event.payload@,
{
    crypto::hex_round_trip(event.payload@);
    crypto::hex_round_trip(event.from@);
}

/// A frame's JSON names what it holds, each under its name.
pub proof fn wire_names_what_it_holds(wire: CoSignWire, r: String)
    requires
        call_ensures(CoSignWire::json, (&wire,), r),
    ensures
        r@ == "{\"agent_id\":"@ + crypto::json_text(wire.agent_id@) + ",\"session_id\":"@
            + text::decimal(wire.session_id as nat) + ",\"from\":"@ + crypto::json_text(wire.from@)
            + ",\"round\":"@ + text::decimal(wire.round as nat) + ",\"payload_hex\":"@
            + crypto::json_text(wire.payload_hex@) + "}"@,
{
}

/// Which events are frames: authentic ones of the co-sign kind whose content decodes, with a payload in
/// hexadecimal and a sender that is an identifier. A frame is its content's, and its sender is the
/// event's author, whatever the content says.
pub proof fn frame_is_authentic_and_its_authors(
    event: NostrEvent,
    wire: Option<CoSignWire>,
    r: Result<DecodedFrame, FrameError>,
)
    requires
        call_ensures(decode_cosign_frame, (&event, wire), r),
    ensures
        r is Ok <==> {
            &&& signing::authentic(event)
            &&& event.kind == 21004
            &&& wire is Some
            &&& crypto::is_hex(wire->0.payload_hex@)
            &&& crypto::is_hex(wire->0.from@) && frost::identifier_form(
                crypto::hex_bytes(wire->0.from@),
            )
        },
        r matches Ok(d) ==> {
            &&& signing::public_key_of(event.pubkey@) == Some(d.sender@)
            &&& d.agent_id@ == wire->0.agent_id@
            &&& d.cosign.session_id == wire->0.session_id
            &&& d.cosign.round == wire->0.round
            &&& d.cosign.from@ == crypto::hex_bytes(wire->0.from@)
            &&& d.cosign.payload@ == crypto::hex_bytes(wire->0.payload_hex@)
        },
        !signing::authentic(event) ==> r == Err::<DecodedFrame, _>(FrameError::BadSignature),
        signing::authentic(event) && event.kind != 21004 ==> r == Err::<DecodedFrame, _>(
            FrameError::WrongKind(event.kind),
        ),
{
}

/// A frame goes out as it came in: signed by its sender, addressed to its recipient and about its
/// agent, it decodes at the other end to the same frame, from that sender.
pub proof fn frame_arrives_as_it_was_sent(
    agent_id: &str,
    frame: CoSignEvent,
    recipient: &str,
    signer: NodeKeys,
    e: NostrEvent,
    wire: CoSignWire,
    r: Result<DecodedFrame, FrameError>,
    to: Option<String>,
)
    requires
        call_ensures(encode_cosign_frame, (agent_id, &frame, recipient, &signer), e),
        carries(wire, agent_id@, frame),
        frost::identifier_form(frame.from@),
        call_ensures(decode_cosign_frame, (&e, Some(wire)), r),
        call_ensures(recipient_pubkey, (&e,), to),
        recipient@ != signer.public(),
        signing::public_key_of(recipient@) == Some(recipient@),
    ensures
        r is Ok,
        r->Ok_0.agent_id@ == agent_id@,
        signing::public_key_of(signer.public()) == Some(r->Ok_0.sender@),
        r->Ok_0.cosign.session_id == frame.session_id,
        r->Ok_0.cosign.round == frame.round,
        r->Ok_0.cosign.from@ == frame.from@,
        r->Ok_0.cosign.payload@ == frame.payload@,
        to is Some && to->0@ == recipient@,
{
    crypto::hex_round_trip(frame.payload@);
    crypto::hex_round_trip(frame.from@);
    frame_tags_are_kept(recipient@, agent_id@, signer.public());
    let tags = nostr::tag_views(e.tags@);
    assert(tags[0] == seq!["p"@, recipient@]);
    assert(nostr::is_named(tags[0], "p"@));
}

/// The parts of a list are what stands between its commas, in order.
pub proof fn list_is_parted_at_its_marks(first: Seq<char>, mark: char, rest: Seq<char>)
    requires
        !first.contains(mark),
    ensures
        parts(first + seq![mark] + rest, mark) == seq![first] + parts(rest, mark),
        parts(first, mark) == seq![first],
{
    let s = first + seq![mark] + rest;
    assert forall|k: int| 0 <= k < first.len() implies #[trigger] s[k] != mark by {
        assert(s[k] == first[k]);
        assert(first.contains(first[k]));
    }
    assert forall|k: int| 0 <= k < first.len() implies #[trigger] first[k] != mark by {
        assert(first.contains(first[k]));
    }
    lemma_first_at(s, mark, first.len() as int);
    lemma_first_at(first, mark, first.len() as int);
    assert(s.take(first.len() as int) =~= first);
    assert(s.skip(first.len() as int + 1) =~= rest);
}

/// The relays of an address are its parts, trimmed and in order, without the empty ones and without the
/// word that stands for none.
pub proof fn relays_are_the_named_parts(first: Seq<char>, rest: Seq<Seq<char>>)
    ensures
        text::trim(first).len() > 0 && text::trim(first) != "inmem"@ ==> relays_of(
            seq![first] + rest,
        ) == seq![text::trim(first)] + relays_of(rest),
        text::trim(first).len() == 0 || text::trim(first) == "inmem"@ ==> relays_of(
            seq![first] + rest,
        ) == relays_of(rest),
        relays_of(Seq::empty()) == Seq::<Seq<char>>::empty(),
{
    let all = seq![first] + rest;
    assert(all.skip(1) =~= rest);
    assert(all[0] == first);
}

/// An address of a key and one relay is read as that key and that relay.
pub proof fn address_is_its_key_and_its_relays(
    address: &str,
    key: Seq<char>,
    relay: Seq<char>,
    other: Seq<char>,
    r: Result<HolderAddress, BadAddress>,
)
    requires
        call_ensures(parse_holder_address, (address,), r),
        !key.contains('@'),
        !relay.contains(','),
        !other.contains(','),
        text::trim(relay).len() > 0 && text::trim(relay) != "inmem"@,
        text::trim(other).len() > 0 && text::trim(other) != "inmem"@,
        address@ == key + seq!['@'] + (relay + seq![','] + other),
    ensures
        r is Ok <==> signing::public_key_of(text::trim(key)) is Some,
        r matches Ok(a) ==> signing::public_key_of(text::trim(key)) == Some(a.pubkey@)
            && text::views(a.relays@) == seq![text::trim(relay), text::trim(other)],
{
    let reach = relay + seq![','] + other;
    key_stands_before_the_at(key, reach);
    list_is_parted_at_its_marks(relay, ',', other);
    list_is_parted_at_its_marks(other, ',', Seq::empty());
    relays_are_the_named_parts(relay, seq![other]);
    relays_are_the_named_parts(other, Seq::empty());
    assert(seq![other] + Seq::<Seq<char>>::empty() =~= seq![other]);
    assert(relays_of(seq![other]) == seq![text::trim(other)] + Seq::<Seq<char>>::empty());
    assert(seq![text::trim(relay)] + relays_of(seq![other]) =~= seq![
        text::trim(relay),
        text::trim(other),
    ]);
}

/// What an event of a frame holds is the JSON of that frame, packed for its agent.
pub proof fn event_holds_its_frame(
    agent_id: &str,
    frame: CoSignEvent,
    recipient: &str,
    signer: NodeKeys,
    e: NostrEvent,
    wire: CoSignWire,
    json: String,
)
    requires
        call_ensures(encode_cosign_frame, (agent_id, &frame, recipient, &signer), e),
        call_ensures(CoSignWire::from_cosign, (agent_id, &frame), wire),
        call_ensures(CoSignWire::json, (&wire,), json),
    ensures
        e.content@ == json@,
        e.pubkey@ == signer.public(),
        e.kind == 21004,
{
}

proof fn lemma_recipient(tags: Seq<Seq<Seq<char>>>, i: int)
    requires
        0 <= i < tags.len(),
        tags[i].len() > 1,
        tags[i][0] == "p"@,
        signing::public_key_of(tags[i][1]) is Some,
        forall|j: int|
            0 <= j < i ==> {
                let tag = #[trigger] tags[j];
                tag.len() <= 1 || tag[0] != "p"@ || signing::public_key_of(tag[1]) is None
            },
    ensures
        recipient_of(tags) == signing::public_key_of(tags[i][1]),
    decreases i,
{
    if i > 0 {
        let rest = tags.skip(1);
        assert(tags[0].len() <= 1 || tags[0][0] != "p"@ || signing::public_key_of(tags[0][1]) is None);
        assert(rest[i - 1] == tags[i]);
        assert forall|j: int| 0 <= j < i - 1 implies {
            let tag = #[trigger] rest[j];
            tag.len() <= 1 || tag[0] != "p"@ || signing::public_key_of(tag[1]) is None
        } by {
            assert(rest[j] == tags[j + 1]);
        }
        lemma_recipient(rest, i - 1);
    }
}

proof fn lemma_no_recipient(tags: Seq<Seq<Seq<char>>>)
    requires
        forall|j: int|
            0 <= j < tags.len() ==> {
                let tag = #[trigger] tags[j];
                tag.len() <= 1 || tag[0] != "p"@ || signing::public_key_of(tag[1]) is None
            },
    ensures
        recipient_of(tags) is None,
    decreases tags.len(),
{
    if tags.len() > 0 {
        let rest = tags.skip(1);
        assert(tags[0].len() <= 1 || tags[0][0] != "p"@ || signing::public_key_of(tags[0][1]) is None);
        assert forall|j: int| 0 <= j < rest.len() implies {
            let tag = #[trigger] rest[j];
            tag.len() <= 1 || tag[0] != "p"@ || signing::public_key_of(tag[1]) is None
        } by {
            assert(rest[j] == tags[j + 1]);
        }
        lemma_no_recipient(rest);
    }
}

/// An event is addressed to the key of its first `p` tag that holds a key; other tags, and `p` tags
/// without a key, address it to nobody.
pub proof fn first_addressed_key_is_the_recipient(event: NostrEvent, r: Option<String>, i: int)
    requires
        call_ensures(recipient_pubkey, (&event,), r),
    ensures
        ({
            let tags = nostr::tag_views(event.tags@);
            &&& 0 <= i < tags.len() && tags[i].len() > 1 && tags[i][0] == "p"@
                && signing::public_key_of(tags[i][1]) is Some && (forall|j: int|
                0 <= j < i ==> {
                    let tag = #[trigger] tags[j];
                    tag.len() <= 1 || tag[0] != "p"@ || signing::public_key_of(tag[1]) is None
                }) ==> r is Some && signing::public_key_of(tags[i][1]) == Some(r->0@)
            &&& (forall|j: int|
                0 <= j < tags.len() ==> {
                    let tag = #[trigger] tags[j];
                    tag.len() <= 1 || tag[0] != "p"@ || signing::public_key_of(tag[1]) is None
                }) ==> r is None
        }),
{
    let tags = nostr::tag_views(event.tags@);
    if 0 <= i < tags.len() && tags[i].len() > 1 && tags[i][0] == "p"@ && signing::public_key_of(
        tags[i][1],
    ) is Some && (forall|j: int|
        0 <= j < i ==> {
            let tag = #[trigger] tags[j];
            tag.len() <= 1 || tag[0] != "p"@ || signing::public_key_of(tag[1]) is None
        }) {
        lemma_recipient(tags, i);
    }
    if forall|j: int|
        0 <= j < tags.len() ==> {
            let tag = #[trigger] tags[j];
            tag.len() <= 1 || tag[0] != "p"@ || signing::public_key_of(tag[1]) is None
        } {
        lemma_no_recipient(tags);
    }
}

} // verus!
