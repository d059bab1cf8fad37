//! Shipping key shares to holders on other machines: the frames, the dealer's side and the holder's
//! side.
//!
//! Frames are JSON; callers decode them. Sealing a share at rest and keeping the coordinator's record
//! are the caller's: this module says what to store, and when not to.
use vstd::prelude::*;
use vstd::string::StringExecFns;

use crate::crypto;
use crate::frost;
use crate::nostr;
use crate::nostr::{NostrEvent, KIND_KIRBY_SHARE};
use crate::relay_frames;
use crate::relay_frames::BadAddress;
use crate::remote_holder::RemoteHolderServer;
use crate::signing;
use crate::signing::NodeKeys;
use crate::text;

verus! {

// ---------------------------------------------------------------------------------------------
// Frames
// ---------------------------------------------------------------------------------------------
/// A frame between a dealer and a holder.
#[derive(Debug)]
pub enum ShareFrame {
    /// The dealer delivers share `idx`, sealed to the holder.
    Ship { agent_id: String, idx: u16, ciphertext: String },
    /// The holder says whether it has sealed the share at rest.
    ShipAck { agent_id: String, idx: u16, ok: bool, detail: Option<String> },
    /// The dealer asks for a loadable share.
    HasQuery { agent_id: String, idx: u16 },
    /// The holder says whether it has one.
    HasReply { agent_id: String, idx: u16, present: bool },
}

/// The agent that a frame is about.
pub open spec fn frame_agent(frame: ShareFrame) -> Seq<char> {
    match frame {
        ShareFrame::Ship { agent_id, .. } => agent_id@,
        ShareFrame::ShipAck { agent_id, .. } => agent_id@,
        ShareFrame::HasQuery { agent_id, .. } => agent_id@,
        ShareFrame::HasReply { agent_id, .. } => agent_id@,
    }
}

/// The start of a frame's JSON: its variant, its agent and its index.
pub open spec fn share_json_head(variant: Seq<char>, agent_id: Seq<char>, idx: u16) -> Seq<char> {
    "{\""@ + variant + "\":{\"agent_id\":"@ + crypto::json_text(agent_id) + ",\"idx\":"@
        + text::decimal(idx as nat)
}

/// The JSON of an optional text.
pub open spec fn optional_json(s: Option<String>) -> Seq<char> {
    match s {
        Some(d) => crypto::json_text(d@),
        None => "null"@,
    }
}

/// The compact JSON of a frame.
pub open spec fn share_json(frame: ShareFrame) -> Seq<char> {
    match frame {
        ShareFrame::Ship { agent_id, idx, ciphertext } => share_json_head(
            "Ship"@,
            agent_id@,
            idx,
        ) + ",\"ciphertext\":"@ + crypto::json_text(ciphertext@) + "}}"@,
        ShareFrame::ShipAck { agent_id, idx, ok, detail } => share_json_head(
            "ShipAck"@,
            agent_id@,
            idx,
        ) + ",\"ok\":"@ + text::bool_text(ok) + ",\"detail\":"@ + optional_json(detail) + "}}"@,
        ShareFrame::HasQuery { agent_id, idx } => share_json_head("HasQuery"@, agent_id@, idx)
            + "}}"@,
        ShareFrame::HasReply { agent_id, idx, present } => share_json_head(
            "HasReply"@,
            agent_id@,
            idx,
        ) + ",\"present\":"@ + text::bool_text(present) + "}}"@,
    }
}

fn json_head(variant: &str, agent_id: &str, idx: u16) -> (r: String)
    ensures
        r@ == share_json_head(variant@, agent_id@, idx),
{
    let mut s = "{\"".to_owned();
    s.append(variant);
    s.append("\":{\"agent_id\":");
    s.append(crypto::json_string(agent_id).as_str());
    s.append(",\"idx\":");
    text::append_decimal(&mut s, idx as u64);
    s
}

impl ShareFrame {
    /// The agent that the frame is about.
    pub fn agent_id(&self) -> (r: &str)
        ensures
            r@ == frame_agent(*self),
    {
        match self {
            ShareFrame::Ship { agent_id, .. } => agent_id.as_str(),
            ShareFrame::ShipAck { agent_id, .. } => agent_id.as_str(),
            ShareFrame::HasQuery { agent_id, .. } => agent_id.as_str(),
            ShareFrame::HasReply { agent_id, .. } => agent_id.as_str(),
        }
    }

    /// The frame's compact JSON.
    pub fn json(&self) -> (r: String)
        ensures
            r@ == share_json(*self),
    {
        match self {
            ShareFrame::Ship { agent_id, idx, ciphertext } => {
                let mut s = json_head("Ship", agent_id.as_str(), *idx);
                s.append(",\"ciphertext\":");
                s.append(crypto::json_string(ciphertext.as_str()).as_str());
                s.append("}}");
                s
            },
            ShareFrame::ShipAck { agent_id, idx, ok, detail } => {
                let mut s = json_head("ShipAck", agent_id.as_str(), *idx);
                s.append(",\"ok\":");
                text::append_bool(&mut s, *ok);
                s.append(",\"detail\":");
                match detail {
                    Some(d) => s.append(crypto::json_string(d.as_str()).as_str()),
                    None => s.append("null"),
                }
                s.append("}}");
                s
            },
            ShareFrame::HasQuery { agent_id, idx } => {
                let mut s = json_head("HasQuery", agent_id.as_str(), *idx);
                s.append("}}");
                s
            },
            ShareFrame::HasReply { agent_id, idx, present } => {
                let mut s = json_head("HasReply", agent_id.as_str(), *idx);
                s.append(",\"present\":");
                text::append_bool(&mut s, *present);
                s.append("}}");
                s
            },
        }
    }
}

/// Whether `e` is the signed event that takes `frame` from `sender` to `recipient`.
pub open spec fn is_share_event(
    e: NostrEvent,
    sender: Seq<char>,
    recipient: Seq<char>,
    frame: ShareFrame,
) -> bool {
    &&& signing::authentic(e)
    &&& e.kind == KIND_KIRBY_SHARE
    &&& e.pubkey@ == sender
    &&& e.content@ == share_json(frame)
    &&& nostr::tag_views(e.tags@) == signing::signed_tags(
        relay_frames::frame_tags(recipient, frame_agent(frame)),
        sender,
    )
}

/// Wrap a frame in an event signed by the sender and addressed to the recipient.
pub fn encode_share_frame(frame: &ShareFrame, recipient: &str, signer: &NodeKeys) -> (r: NostrEvent)
    ensures
        is_share_event(r, signer.public(), recipient@, *frame),
{
    let content = frame.json();
    let tags = relay_frames::make_frame_tags(recipient, frame.agent_id());
    signer.sign(KIND_KIRBY_SHARE, &tags, content.as_str())
}

/// Why an event is no share frame.
#[derive(Debug, Clone, Copy, PartialEq, Eq, Structural)]
pub enum ShareFrameError {
    /// The event's id or signature does not verify.
    BadSignature,
    /// The event is of another kind.
    WrongKind(u32),
    /// The content does not decode.
    Malformed,
}

/// Why an event is no share frame, if it is none: the first rule it breaks.
pub open spec fn share_frame_error(e: NostrEvent, frame: Option<ShareFrame>) -> Option<
    ShareFrameError,
> {
    if !signing::authentic(e) {
        Some(ShareFrameError::BadSignature)
    } else if e.kind != KIND_KIRBY_SHARE {
        Some(ShareFrameError::WrongKind(e.kind))
    } else if frame is None {
        Some(ShareFrameError::Malformed)
    } else {
        None
    }
}

/// Verify a share frame. `frame` is what the event's content decodes to. Gives the frame and its
/// sender, the event's author.
pub fn decode_share_frame(event: &NostrEvent, frame: Option<ShareFrame>) -> (r: Result<
    (ShareFrame, String),
    ShareFrameError,
>)
    ensures
        match r {
            Ok((f, sender)) => share_frame_error(*event, frame) is None && frame == Some(f)
                && signing::public_key_of(event.pubkey@) == Some(sender@)
                && signing::is_public_key(sender@),
            Err(e) => share_frame_error(*event, frame) == Some(e),
        },
{
    if !signing::is_authentic(event) {
        return Err(ShareFrameError::BadSignature);
    }
    let sender = match signing::parse_public_key(event.pubkey.as_str()) {
        Some(k) => k,
        None => return Err(ShareFrameError::BadSignature),
    };
    if event.kind != KIND_KIRBY_SHARE as u32 {
        return Err(ShareFrameError::WrongKind(event.kind));
    }
    match frame {
        Some(f) => Ok((f, sender)),
        None => Err(ShareFrameError::Malformed),
    }
}

// ---------------------------------------------------------------------------------------------
// The dealer's side
// ---------------------------------------------------------------------------------------------
/// A sink on another machine: what is put into it is shipped to one holder.
pub struct RemoteShareSink {
    label: String,
    agent_id: String,
    holder_pubkey: String,
    dealer_keys: NodeKeys,
}

/// Why a remote sink does not give a share back: by design it cannot.
#[derive(Debug, Clone, Copy, PartialEq, Eq, Structural)]
pub struct ShareStaysRemote;

impl ShareStaysRemote {
    /// The error's text.
    pub fn message(&self) -> (r: String)
        ensures
            r@
                == "RemoteShareSink::get_share is unsupported by design: a remote holder must never return its plaintext share to the dealer (use has_share for reload validation + the sign-side factory for signing)"@,
    {
        "RemoteShareSink::get_share is unsupported by design: a remote holder must never return its plaintext share to the dealer (use has_share for reload validation + the sign-side factory for signing)".to_owned()
    }
}

/// What an acknowledgement of share `idx` says: nothing if the frame is another one, and otherwise
/// that the share is sealed, or the refusal's text.
pub open spec fn ship_outcome(idx: u16, reply: ShareFrame) -> Option<Result<(), Seq<char>>> {
    match reply {
        ShareFrame::ShipAck { idx: of, ok, detail, .. } => if of != idx {
            None
        } else if ok {
            Some(Ok(()))
        } else {
            Some(
                Err(
                    "holder refused to seal share "@ + text::decimal(idx as nat) + ": "@ + (
                    match detail {
                        Some(d) => d@,
                        None => Seq::empty(),
                    }),
                ),
            )
        },
        _ => None,
    }
}

/// What a reply on share `idx` says: nothing if the frame is another one.
pub open spec fn has_outcome(idx: u16, reply: ShareFrame) -> Option<bool> {
    match reply {
        ShareFrame::HasReply { idx: of, present, .. } => if of == idx {
            Some(present)
        } else {
            None
        },
        _ => None,
    }
}

/// Read an acknowledgement of share `idx`.
pub fn read_ship_ack(idx: u16, reply: &ShareFrame) -> (r: Option<Result<(), String>>)
    ensures
        match r {
            Some(Ok(())) => ship_outcome(idx, *reply) == Some(Ok::<(), Seq<char>>(())),
            Some(Err(e)) => ship_outcome(idx, *reply) == Some(Err::<(), Seq<char>>(e@)),
            None => ship_outcome(idx, *reply) is None,
        },
{
    match reply {
        ShareFrame::ShipAck { idx: of, ok, detail, .. } => {
            if *of != idx {
                None
            } else if *ok {
                Some(Ok(()))
            } else {
                let mut e = "holder refused to seal share ".to_owned();
                text::append_decimal(&mut e, idx as u64);
                e.append(": ");
                match detail {
                    Some(d) => e.append(d.as_str()),
                    None => {},
                }
                assert(detail is None ==> e@ =~= "holder refused to seal share "@ + text::decimal(
                    idx as nat,
                ) + ": "@ + Seq::empty());
                Some(Err(e))
            }
        },
        _ => None,
    }
}

/// Read a reply on share `idx`.
pub fn read_has_reply(idx: u16, reply: &ShareFrame) -> (r: Option<bool>)
    ensures
        r == has_outcome(idx, *reply),
{
    match reply {
        ShareFrame::HasReply { idx: of, present, .. } => {
            if *of == idx {
                Some(*present)
            } else {
                None
            }
        },
        _ => None,
    }
}

/// How much of a wait's budget is left: one budget for the whole wait, however many replies come in
/// that are not the one waited for. Nothing is left once it is used up.
pub fn time_left(budget_ms: u64, started_ms: u64, now_ms: u64) -> (r: Option<u64>)
    ensures
        match r {
            Some(left) => left > 0 && left + (if now_ms > started_ms {
                now_ms - started_ms
            } else {
                0
            }) == budget_ms,
            None => budget_ms == 0 || now_ms - started_ms >= budget_ms,
        },
{
    let used: u64 = now_ms.saturating_sub(started_ms);
    if used >= budget_ms {
        None
    } else {
        Some(budget_ms - used)
    }
}

impl RemoteShareSink {
    /// The holder's transport key, in canonical form.
    pub closed spec fn holder(&self) -> Seq<char> {
        self.holder_pubkey@
    }

    /// The agent.
    pub closed spec fn agent(&self) -> Seq<char> {
        self.agent_id@
    }

    /// The dealer's transport key.
    pub closed spec fn dealer(&self) -> Seq<char> {
        self.dealer_keys.public()
    }

    /// The sink's label.
    pub closed spec fn name(&self) -> Seq<char> {
        self.label@
    }

    /// A sink that ships to the holder of an address.
    pub fn start(dealer_keys: NodeKeys, agent_id: &str, address: &str, label: &str) -> (r: Result<
        Self,
        BadAddress,
    >)
        ensures
            r is Ok <==> signing::public_key_of(
                text::trim(relay_frames::address_key(address@)),
            ) is Some,
            r matches Ok(s) ==> {
                &&& signing::public_key_of(text::trim(relay_frames::address_key(address@)))
                    == Some(s.holder())
                &&& s.agent() == agent_id@
                &&& s.dealer() == dealer_keys.public()
                &&& s.name() == label@
            },
    {
        match relay_frames::parse_holder_address(address) {
            Ok(a) => Ok(
                RemoteShareSink {
                    label: label.to_owned(),
                    agent_id: agent_id.to_owned(),
                    holder_pubkey: a.pubkey,
                    dealer_keys,
                },
            ),
            Err(e) => Err(e),
        }
    }

    /// The sink's label.
    pub fn label(&self) -> (r: &str)
        ensures
            r@ == self.name(),
    {
        self.label.as_str()
    }

    /// The event that ships share `idx`, sealed to the holder. Fails where the share cannot be
    /// sealed.
    pub fn ship(&self, idx: u16, plaintext: &[u8]) -> (r: Option<NostrEvent>)
        ensures
            r is Some <==> signing::public_key_of(self.holder()) is Some && crypto::xonly_valid(
                crypto::hex_bytes(self.holder()),
            ) && 1 <= plaintext@.len() <= signing::NIP44_MAX_PLAINTEXT,
            r matches Some(e) ==> is_ship_event(
                e,
                self.agent(),
                idx,
                self.dealer(),
                self.holder(),
                plaintext@,
            ),
    {
        let ciphertext = match self.dealer_keys.seal(self.holder_pubkey.as_str(), plaintext) {
            Some(c) => c,
            None => return None,
        };
        let frame = ShareFrame::Ship { agent_id: self.agent_id.clone(), idx, ciphertext };
        let e = encode_share_frame(&frame, self.holder_pubkey.as_str(), &self.dealer_keys);
        assert(is_share_event(e, self.dealer(), self.holder(), frame));
        Some(e)
    }

    /// The event that asks the holder for share `idx`.
    pub fn query(&self, idx: u16) -> (r: NostrEvent)
        ensures
            exists|frame: ShareFrame| #[trigger]
                is_share_event(r, self.dealer(), self.holder(), frame) && frame is HasQuery
                    && frame_agent(frame) == self.agent() && frame->HasQuery_idx == idx,
    {
        let frame = ShareFrame::HasQuery { agent_id: self.agent_id.clone(), idx };
        let r = encode_share_frame(&frame, self.holder_pubkey.as_str(), &self.dealer_keys);
        assert(is_share_event(r, self.dealer(), self.holder(), frame));
        r
    }

    /// The holder's reply in an inbound event: a verified frame about this agent that the holder
    /// itself signed. Anything else is dropped.
    pub fn inbound(&self, event: &NostrEvent, frame: Option<ShareFrame>) -> (r: Option<ShareFrame>)
        ensures
            r == if share_frame_error(*event, frame) is None && frame_agent(frame->0)
                == self.agent() && signing::public_key_of(event.pubkey@) == Some(self.holder()) {
                frame
            } else {
                None
            },
    {
        match decode_share_frame(event, frame) {
            Ok((f, sender)) => {
                if text::str_eq(f.agent_id(), self.agent_id.as_str()) && text::str_eq(
                    sender.as_str(),
                    self.holder_pubkey.as_str(),
                ) {
                    Some(f)
                } else {
                    None
                }
            },
            Err(_) => None,
        }
    }

    /// A remote holder never gives its share back to the dealer.
    pub fn get_share(&self, _idx: u16) -> (r: Result<Vec<u8>, ShareStaysRemote>)
        ensures
            r == Err::<Vec<u8>, ShareStaysRemote>(ShareStaysRemote),
    {
        Err(ShareStaysRemote)
    }
}

/// Whether `frame` ships `plaintext` as share `idx` from `dealer` to `holder`.
pub open spec fn ships(
    frame: ShareFrame,
    agent_id: Seq<char>,
    idx: u16,
    dealer: Seq<char>,
    holder: Seq<char>,
    plaintext: Seq<u8>,
) -> bool {
    &&& frame is Ship
    &&& frame_agent(frame) == agent_id
    &&& frame->Ship_idx == idx
    &&& signing::sealed_for(
        frame->ciphertext@,
        crypto::hex_bytes(dealer),
        crypto::hex_bytes(holder),
        plaintext,
    )
}

/// Whether `e` is the signed event that ships `plaintext` as share `idx` from `dealer` to `holder`.
pub open spec fn is_ship_event(
    e: NostrEvent,
    agent_id: Seq<char>,
    idx: u16,
    dealer: Seq<char>,
    holder: Seq<char>,
    plaintext: Seq<u8>,
) -> bool {
    exists|frame: ShareFrame| #[trigger]
        is_share_event(e, dealer, holder, frame) && ships(
            frame,
            agent_id,
            idx,
            dealer,
            holder,
            plaintext,
        )
}

// ---------------------------------------------------------------------------------------------
// The holder's side
// ---------------------------------------------------------------------------------------------
/// Which dealers may provision a holder.
pub trait DealerAuthorizer {
    /// Whether `dealer` may provision shares of `agent_id`.
    spec fn accepts(&self, agent_id: Seq<char>, dealer: Seq<char>) -> bool;

    /// Whether `dealer` may provision shares of `agent_id`.
    fn authorize(&self, agent_id: &str, dealer: &str) -> (r: bool)
        ensures
            r == self.accepts(agent_id@, dealer@),
    ;
}

/// Every dealer may. For tests.
#[derive(Debug, Clone, Copy)]
pub struct AllDealers;

impl DealerAuthorizer for AllDealers {
    open spec fn accepts(&self, agent_id: Seq<char>, dealer: Seq<char>) -> bool {
        true
    }

    fn authorize(&self, agent_id: &str, dealer: &str) -> (r: bool) {
        true
    }
}

/// Let every dealer provision the holder.
pub fn allow_all_dealers() -> (r: AllDealers)
    ensures
        forall|agent_id: Seq<char>, dealer: Seq<char>| #[trigger] r.accepts(agent_id, dealer),
{
    AllDealers
}

/// Why a shipped share is not taken.
#[derive(Debug)]
pub enum ShipFault {
    /// The dealer may not provision this holder.
    NotAuthorized,
    /// The holder has this share already.
    AlreadyHeld,
    /// The holder cannot open it, and why it cannot.
    Undecryptable(String),
    /// It is no key package.
    NotAKeyPackage,
    /// The coordinator's record cannot be kept.
    NotRecorded(RecordFault),
}

/// A shipped share whose dealer is authorized.
pub struct AcceptedShip {
    agent_id: String,
    idx: u16,
    dealer: String,
    ciphertext: String,
}

/// A shipped share that is ready to be sealed at rest.
pub struct OpenedShare {
    agent_id: String,
    idx: u16,
    dealer: String,
    share: Vec<u8>,
}

/// The text of a fault.
pub open spec fn ship_fault_text(
    fault: ShipFault,
    agent_id: Seq<char>,
    idx: u16,
    dealer: Seq<char>,
) -> Seq<char> {
    match fault {
        ShipFault::NotAuthorized => "share ship from un-authorized dealer "@ + dealer
            + " for agent "@ + agent_id,
        ShipFault::AlreadyHeld => "holder already holds share "@ + text::decimal(idx as nat)
            + " for agent "@ + agent_id + " (refusing to clobber)"@,
        ShipFault::Undecryptable(why) => "NIP-44 decrypt share "@ + text::decimal(idx as nat) + ": "@
            + why@,
        ShipFault::NotAKeyPackage => "shipped share "@ + text::decimal(idx as nat)
            + " is not a valid KeyPackage"@,
        ShipFault::NotRecorded(_) => "persist the authorized coordinator at provision"@,
    }
}

impl ShipFault {
    /// The fault's text, for share `idx` of `agent_id` from `dealer`.
    pub fn message(&self, agent_id: &str, idx: u16, dealer: &str) -> (r: String)
        ensures
            r@ == ship_fault_text(*self, agent_id@, idx, dealer@),
    {
        match self {
            ShipFault::NotAuthorized => {
                let mut s = "share ship from un-authorized dealer ".to_owned();
                s.append(dealer);
                s.append(" for agent ");
                s.append(agent_id);
                s
            },
            ShipFault::AlreadyHeld => {
                let mut s = "holder already holds share ".to_owned();
                text::append_decimal(&mut s, idx as u64);
                s.append(" for agent ");
                s.append(agent_id);
                s.append(" (refusing to clobber)");
                s
            },
            ShipFault::Undecryptable(why) => {
                let mut s = "NIP-44 decrypt share ".to_owned();
                text::append_decimal(&mut s, idx as u64);
                s.append(": ");
                s.append(why.as_str());
                s
            },
            ShipFault::NotAKeyPackage => {
                let mut s = "shipped share ".to_owned();
                text::append_decimal(&mut s, idx as u64);
                s.append(" is not a valid KeyPackage");
                s
            },
            ShipFault::NotRecorded(_) => "persist the authorized coordinator at provision".to_owned(),
        }
    }
}

/// Take in a shipped share, if its dealer is authorized.
pub fn accept_ship<G: DealerAuthorizer>(
    gate: &G,
    dealer: String,
    agent_id: String,
    idx: u16,
    ciphertext: String,
) -> (r: Result<AcceptedShip, ShipFault>)
    ensures
        match r {
            Ok(a) => {
                &&& gate.accepts(agent_id@, dealer@)
                &&& a.of_agent() == agent_id@
                &&& a.index() == idx
                &&& a.from_dealer() == dealer@
                &&& a.sealed() == ciphertext@
            },
            Err(f) => !gate.accepts(agent_id@, dealer@) && f is NotAuthorized,
        },
{
    if gate.authorize(agent_id.as_str(), dealer.as_str()) {
        Ok(AcceptedShip { agent_id, idx, dealer, ciphertext })
    } else {
        Err(ShipFault::NotAuthorized)
    }
}

impl AcceptedShip {
    /// The agent.
    pub closed spec fn of_agent(&self) -> Seq<char> {
        self.agent_id@
    }

    /// The share's index.
    pub closed spec fn index(&self) -> u16 {
        self.idx
    }

    /// The dealer.
    pub closed spec fn from_dealer(&self) -> Seq<char> {
        self.dealer@
    }

    /// The sealed share.
    pub closed spec fn sealed(&self) -> Seq<char> {
        self.ciphertext@
    }

    /// Open the share. A holder that has this share already keeps the one it has; what does not open,
    /// or is no key package, is refused before anything is stored.
    pub fn open(self, holder_keys: &NodeKeys, held: bool) -> (r: Result<OpenedShare, ShipFault>)
        ensures
            ({
                let read = signing::message_from(
                    holder_keys.secret(),
                    self.from_dealer(),
                    self.sealed(),
                );
                match r {
                    Ok(o) => {
                        &&& !held
                        &&& read == Ok::<Seq<u8>, Seq<char>>(o.plaintext())
                        &&& frost::key_identifier(o.plaintext()) is Some
                        &&& o.of_agent() == self.of_agent()
                        &&& o.index() == self.index()
                        &&& o.from_dealer() == self.from_dealer()
                    },
                    Err(ShipFault::AlreadyHeld) => held,
                    Err(ShipFault::Undecryptable(why)) => !held && read == Err::<
                        Seq<u8>,
                        Seq<char>,
                    >(why@),
                    Err(ShipFault::NotAKeyPackage) => !held && read is Ok
                        && frost::key_identifier(read->Ok_0) is None,
                    Err(_) => false,
                }
            }),
    {
        if held {
            return Err(ShipFault::AlreadyHeld);
        }
        match holder_keys.open(self.dealer.as_str(), self.ciphertext.as_str()) {
            Ok(share) => {
                if frost::is_key_package(share.as_slice()) {
                    Ok(
                        OpenedShare {
                            agent_id: self.agent_id,
                            idx: self.idx,
                            dealer: self.dealer,
                            share,
                        },
                    )
                } else {
                    Err(ShipFault::NotAKeyPackage)
                }
            },
            Err(why) => Err(ShipFault::Undecryptable(why)),
        }
    }
}

impl OpenedShare {
    /// The share.
    pub closed spec fn plaintext(&self) -> Seq<u8> {
        self.share@
    }

    /// The agent.
    pub closed spec fn of_agent(&self) -> Seq<char> {
        self.agent_id@
    }

    /// The share's index.
    pub closed spec fn index(&self) -> u16 {
        self.idx
    }

    /// The dealer.
    pub closed spec fn from_dealer(&self) -> Seq<char> {
        self.dealer@
    }

    /// The share, to be sealed at rest.
    pub fn share(&self) -> (r: &Vec<u8>)
        ensures
            r@ == self.plaintext(),
    {
        &self.share
    }

    /// The share is sealed: its dealer is to be on record as the agent's coordinator. `recorded` is
    /// the record that the holder has, if it has one.
    pub fn sealed(self, recorded: Option<&str>) -> (r: Result<RecordStep, ShipFault>)
        ensures
            match r {
                Ok(step) => kept_record(recorded_text(recorded), self.from_dealer()) == Ok::<
                    Option<Seq<char>>,
                    bool,
                >(record_text(step)),
                Err(ShipFault::NotRecorded(f)) => kept_record(
                    recorded_text(recorded),
                    self.from_dealer(),
                ) == Err::<Option<Seq<char>>, bool>(f is OtherCoordinator),
                Err(_) => false,
            },
    {
        match persist_authorized_coordinator(recorded, self.dealer.as_str()) {
            Ok(step) => Ok(step),
            Err(f) => Err(ShipFault::NotRecorded(f)),
        }
    }
}

/// The holder's answer to a shipped share: sealed, or why not.
pub fn ship_ack(agent_id: String, idx: u16, outcome: Result<(), String>) -> (r: ShareFrame)
    ensures
        r == match outcome {
            Ok(()) => (ShareFrame::ShipAck { agent_id, idx, ok: true, detail: None }),
            Err(e) => (ShareFrame::ShipAck { agent_id, idx, ok: false, detail: Some(e) }),
        },
{
    match outcome {
        Ok(()) => ShareFrame::ShipAck { agent_id, idx, ok: true, detail: None },
        Err(e) => ShareFrame::ShipAck { agent_id, idx, ok: false, detail: Some(e) },
    }
}

/// Whether what the holder unsealed, if it did, is a share that loads.
pub fn share_is_loadable(unsealed: Option<&Vec<u8>>) -> (r: bool)
    ensures
        r == (unsealed is Some && frost::key_identifier(unsealed->0@) is Some),
{
    match unsealed {
        Some(share) => frost::is_key_package(share.as_slice()),
        None => false,
    }
}

/// What a share frame asks of a holder.
pub enum HolderTask {
    /// Take in a share.
    Seal { agent_id: String, idx: u16, ciphertext: String },
    /// Say whether a share loads.
    Attest { agent_id: String, idx: u16 },
    /// Nothing: an answer has no business here.
    Ignore,
}

/// What a share frame asks of a holder.
pub fn holder_task(frame: ShareFrame) -> (r: HolderTask)
    ensures
        r == match frame {
            ShareFrame::Ship { agent_id, idx, ciphertext } => (HolderTask::Seal {
                agent_id,
                idx,
                ciphertext,
            }),
            ShareFrame::HasQuery { agent_id, idx } => (HolderTask::Attest { agent_id, idx }),
            _ => HolderTask::Ignore,
        },
{
    match frame {
        ShareFrame::Ship { agent_id, idx, ciphertext } => HolderTask::Seal {
            agent_id,
            idx,
            ciphertext,
        },
        ShareFrame::HasQuery { agent_id, idx } => HolderTask::Attest { agent_id, idx },
        ShareFrame::ShipAck { .. } => HolderTask::Ignore,
        ShareFrame::HasReply { .. } => HolderTask::Ignore,
    }
}

/// The holder's answer to a query.
pub fn has_reply(agent_id: String, idx: u16, unsealed: Option<&Vec<u8>>) -> (r: ShareFrame)
    ensures
        r == (ShareFrame::HasReply {
            agent_id,
            idx,
            present: unsealed is Some && frost::key_identifier(unsealed->0@) is Some,
        }),
{
    ShareFrame::HasReply { agent_id, idx, present: share_is_loadable(unsealed) }
}

// ---------------------------------------------------------------------------------------------
// The coordinator's record
// ---------------------------------------------------------------------------------------------
/// The directory of an agent's shares.
pub open spec fn share_dir(base: Seq<char>, agent_id: Seq<char>) -> Seq<char> {
    text::joined(base, "agent-"@ + agent_id)
}

/// The directory of an agent's shares.
pub fn holder_share_dir(base: &str, agent_id: &str) -> (r: String)
    ensures
        r@ == share_dir(base@, agent_id@),
{
    let mut name = "agent-".to_owned();
    name.append(agent_id);
    text::path_join(base, name.as_str())
}

/// Where a holder's record of an agent's coordinator stands.
pub fn coordinator_path(base: &str, agent_id: &str) -> (r: String)
    ensures
        r@ == text::joined(share_dir(base@, agent_id@), "coordinator.pubkey"@),
{
    text::path_join(holder_share_dir(base, agent_id).as_str(), "coordinator.pubkey")
}

/// Read a record: the coordinator's key, in canonical form.
pub fn load_authorized_coordinator(recorded: &str) -> (r: Option<String>)
    ensures
        r is Some <==> signing::public_key_of(text::trim(recorded@)) is Some,
        r matches Some(k) ==> signing::public_key_of(text::trim(recorded@)) == Some(k@),
{
    let trimmed = text::str_trim(recorded);
    signing::parse_public_key(trimmed.as_str())
}

/// What to do with the record.
#[derive(Debug)]
pub enum RecordStep {
    /// Leave it.
    Keep,
    /// Write it.
    Write(String),
}

/// Why a coordinator is not put on record.
#[derive(Debug)]
pub enum RecordFault {
    /// The record does not read.
    BadRecord,
    /// Another coordinator is on record.
    OtherCoordinator(String),
}

/// The text of a record.
pub open spec fn recorded_text(recorded: Option<&str>) -> Option<Seq<char>> {
    match recorded {
        Some(t) => Some(t@),
        None => None,
    }
}

/// The text that a step writes.
pub open spec fn record_text(step: RecordStep) -> Option<Seq<char>> {
    match step {
        RecordStep::Keep => None,
        RecordStep::Write(t) => Some(t@),
    }
}

/// What becomes of the record when `coordinator` provisions the holder: the text to write, if there
/// is no record; nothing to write, if it names this coordinator; otherwise a refusal, which says
/// whether the record names another one.
pub open spec fn kept_record(recorded: Option<Seq<char>>, coordinator: Seq<char>) -> Result<
    Option<Seq<char>>,
    bool,
> {
    match recorded {
        None => Ok(Some(coordinator)),
        Some(t) => match signing::public_key_of(text::trim(t)) {
            Some(k) => if k == coordinator {
                Ok(None)
            } else {
                Err(true)
            },
            None => Err(false),
        },
    }
}

/// Put the coordinator on record. Doing so again is nothing; another coordinator than the one on
/// record is refused.
pub fn persist_authorized_coordinator(recorded: Option<&str>, coordinator: &str) -> (r: Result<
    RecordStep,
    RecordFault,
>)
    ensures
        match r {
            Ok(step) => kept_record(recorded_text(recorded), coordinator@) == Ok::<
                Option<Seq<char>>,
                bool,
            >(record_text(step)),
            Err(f) => kept_record(recorded_text(recorded), coordinator@) == Err::<
                Option<Seq<char>>,
                bool,
            >(f is OtherCoordinator),
        },
        r matches Err(RecordFault::OtherCoordinator(k)) ==> signing::public_key_of(
            text::trim(recorded->0@),
        ) == Some(k@),
{
    match recorded {
        None => Ok(RecordStep::Write(coordinator.to_owned())),
        Some(t) => match load_authorized_coordinator(t) {
            Some(k) => {
                if text::str_eq(k.as_str(), coordinator) {
                    Ok(RecordStep::Keep)
                } else {
                    Err(RecordFault::OtherCoordinator(k))
                }
            },
            None => Err(RecordFault::BadRecord),
        },
    }
}

// ---------------------------------------------------------------------------------------------
// Loading
// ---------------------------------------------------------------------------------------------
/// The server of a holder, from its unsealed share alone: the group's key is in the share. Fails where
/// the bytes are no key package of a small identifier.
pub fn load_remote_holder_server(share: Vec<u8>) -> (r: Option<RemoteHolderServer>)
    ensures
        r is Some <==> frost::own_pubkeys(share@, frost::MIN_SIGNERS) is Some && frost::holder_of(share@) is Some,
        r matches Some(s) ==> {
            &&& s.key() == share@
            &&& frost::own_pubkeys(share@, frost::MIN_SIGNERS) == Some(s.pubkeys())
            &&& frost::holder_of(share@) == Some(s.holder())
            &&& s.open_nonces() == Map::<u64, Vec<u8>>::empty()
        },
{
    match frost::own_pubkeys_from_key_package(share.as_slice(), frost::MIN_SIGNERS) {
        Some(own) => RemoteHolderServer::new(share, own),
        None => None,
    }
}

/// The agent's key, from a holder's unsealed share.
pub open spec fn agent_q_of(share: Seq<u8>) -> Option<Seq<char>> {
    match frost::own_pubkeys(share, frost::MIN_SIGNERS) {
        Some(own) => match frost::group_q(own) {
            Some(q) => Some(crypto::hex_text(q)),
            None => None,
        },
        None => None,
    }
}

/// The agent's key, from a holder's unsealed share alone, in canonical form.
pub fn holder_agent_q(share: &[u8]) -> (r: Option<String>)
    ensures
        r is Some <==> agent_q_of(share@) is Some,
        r matches Some(q) ==> agent_q_of(share@) == Some(q@) && signing::is_public_key(q@),
{
    match frost::own_pubkeys_from_key_package(share, frost::MIN_SIGNERS) {
        Some(own) => match frost::group_xonly_q(own.as_slice()) {
            Some(q) => {
                proof {
                    crypto::hex_round_trip(q@);
                }
                Some(crypto::hex_encode(q.as_slice()))
            },
            None => None,
        },
        None => None,
    }
}

// ---------------------------------------------------------------------------------------------
// Laws
// ---------------------------------------------------------------------------------------------
/// What a dealer ships, the holder opens: the holder of the address's key reads the very share that
/// was shipped.
pub proof fn shipped_share_is_opened(
    frame: ShareFrame,
    agent_id: Seq<char>,
    idx: u16,
    dealer: Seq<char>,
    holder: Seq<char>,
    holder_secret: Seq<u8>,
    plaintext: Seq<u8>,
)
    requires
        ships(frame, agent_id, idx, dealer, holder, plaintext),
        signing::public_key_of(dealer) is Some,
        signing::public_of(holder_secret) == Some(crypto::hex_bytes(holder)),
    ensures
        signing::message_from(holder_secret, dealer, frame->ciphertext@) == Ok::<
            Seq<u8>,
            Seq<char>,
        >(plaintext),
{
}

/// The record is never re-rooted: once there is one, nothing is written over it, whoever ships.
pub proof fn coordinator_is_never_replaced(recorded: Seq<char>, coordinator: Seq<char>)
    ensures
        kept_record(Some(recorded), coordinator) is Ok ==> kept_record(Some(recorded), coordinator)
            == Ok::<Option<Seq<char>>, bool>(None),
{
}

proof fn lemma_hex_is_not_white(s: Seq<char>)
    requires
        crypto::is_hex(s),
        s.len() > 0,
    ensures
        text::trim(s) == s,
{
    assert(crypto::hex_value(s[0]) is Some);
    assert(crypto::hex_value(s[s.len() - 1]) is Some);
    assert(!text::is_white(s[0]));
    assert(!text::is_white(s.last()));
}

/// What is put on record comes back, and provisioning by the same coordinator again changes
/// nothing, while another one's is refused.
pub proof fn recorded_coordinator_comes_back(coordinator: Seq<char>, other: Seq<char>)
    requires
        signing::is_public_key(coordinator),
        other != coordinator,
    ensures
        kept_record(None, coordinator) == Ok::<Option<Seq<char>>, bool>(Some(coordinator)),
        signing::public_key_of(text::trim(coordinator)) == Some(coordinator),
        kept_record(Some(coordinator), coordinator) == Ok::<Option<Seq<char>>, bool>(None),
        kept_record(Some(coordinator), other) == Err::<Option<Seq<char>>, bool>(true),
{
    lemma_hex_is_not_white(coordinator);
}

/// A refusal is never taken for a sealed share, nor an answer about another share for one about this.
pub proof fn only_an_ack_of_the_share_counts(idx: u16, reply: ShareFrame)
    requires
        ship_outcome(idx, reply) == Some(Ok::<(), Seq<char>>(())),
    ensures
        reply is ShipAck,
        reply->ShipAck_idx == idx,
        reply->ok,
{
}

// ---------------------------------------------------------------------------------------------
// What the calls come to
// ---------------------------------------------------------------------------------------------
/// From the dealer to the holder: the event that ships a share is the dealer's, addressed to the holder
/// of the sink, and carries a frame with the agent and the share's index; the holder that takes this
/// frame in from the dealer opens it to the very share that was shipped, under that agent and index.
pub proof fn share_arrives_as_it_was_shipped<G: DealerAuthorizer>(
    sink: RemoteShareSink,
    idx: u16,
    plaintext: &[u8],
    e: NostrEvent,
    frame: ShareFrame,
    gate: G,
    dealer: String,
    agent_id: String,
    ciphertext: String,
    accepted: AcceptedShip,
    holder_keys: NodeKeys,
    opened: Result<OpenedShare, ShipFault>,
)
    requires
        call_ensures(RemoteShareSink::ship, (&sink, idx, plaintext), Some(e)),
        is_share_event(e, sink.dealer(), sink.holder(), frame),
        ships(frame, sink.agent(), idx, sink.dealer(), sink.holder(), plaintext@),
        frame == (ShareFrame::Ship { agent_id, idx, ciphertext }),
        dealer@ == sink.dealer(),
        signing::public_key_of(sink.dealer()) is Some,
        call_ensures(
            accept_ship::<G>,
            (&gate, dealer, agent_id, idx, ciphertext),
            Ok(accepted),
        ),
        signing::public_of(holder_keys.secret()) == Some(crypto::hex_bytes(sink.holder())),
        call_ensures(AcceptedShip::open, (accepted, &holder_keys, false), opened),
    ensures
        gate.accepts(sink.agent(), sink.dealer()),
        frost::key_identifier(plaintext@) is Some ==> opened is Ok && opened->Ok_0.plaintext()
            == plaintext@ && opened->Ok_0.of_agent() == sink.agent() && opened->Ok_0.index() == idx
            && opened->Ok_0.from_dealer() == sink.dealer(),
        frost::key_identifier(plaintext@) is None ==> (opened matches Err(
            ShipFault::NotAKeyPackage,
        )),
{
    shipped_share_is_opened(
        frame,
        sink.agent(),
        idx,
        sink.dealer(),
        sink.holder(),
        holder_keys.secret(),
        plaintext@,
    );
}

/// What a dealer sends: authentic share events of the dealer's key, addressed to the sink's holder and
/// tagged with the agent. One ships the share with its index, the other asks for it; a share is never
/// asked back.
pub proof fn dealer_writes_to_its_holder(
    sink: RemoteShareSink,
    idx: u16,
    plaintext: &[u8],
    shipped: Option<NostrEvent>,
    query: NostrEvent,
    back: Result<Vec<u8>, ShareStaysRemote>,
)
    requires
        call_ensures(RemoteShareSink::ship, (&sink, idx, plaintext), shipped),
        call_ensures(RemoteShareSink::query, (&sink, idx), query),
        call_ensures(RemoteShareSink::get_share, (&sink, idx), back),
        sink.holder() != sink.dealer(),
    ensures
        back is Err,
        signing::authentic(query) && query.kind == 21005 && query.pubkey@ == sink.dealer(),
        nostr::tag_views(query.tags@)[0] == seq!["p"@, sink.holder()],
        nostr::tag_views(query.tags@)[2] == seq!["a"@, sink.agent()],
        query.content@ == "{\""@ + "HasQuery"@ + "\":{\"agent_id\":"@ + crypto::json_text(
            sink.agent(),
        ) + ",\"idx\":"@ + text::decimal(idx as nat) + "}}"@,
        shipped matches Some(e) ==> signing::authentic(e) && e.kind == 21005 && e.pubkey@
            == sink.dealer() && nostr::tag_views(e.tags@)[0] == seq!["p"@, sink.holder()]
            && nostr::tag_views(e.tags@)[2] == seq!["a"@, sink.agent()],
        shipped matches Some(e) ==> exists|sealed: Seq<char>| #[trigger]
            signing::sealed_for(
                sealed,
                crypto::hex_bytes(sink.dealer()),
                crypto::hex_bytes(sink.holder()),
                plaintext@,
            ) && e.content@ == "{\""@ + "Ship"@ + "\":{\"agent_id\":"@ + crypto::json_text(
                sink.agent(),
            ) + ",\"idx\":"@ + text::decimal(idx as nat) + ",\"ciphertext\":"@ + crypto::json_text(
                sealed,
            ) + "}}"@,
        plaintext@.len() == 0 ==> shipped is None,
{
    relay_frames::frame_tags_are_kept(sink.holder(), sink.agent(), sink.dealer());
    let asked = choose|frame: ShareFrame| #[trigger]
        is_share_event(query, sink.dealer(), sink.holder(), frame) && frame is HasQuery
            && frame_agent(frame) == sink.agent() && frame->HasQuery_idx == idx;
    assert(is_share_event(query, sink.dealer(), sink.holder(), asked));
    if shipped is Some {
        let e = shipped->0;
        let frame = choose|frame: ShareFrame| #[trigger]
            is_share_event(e, sink.dealer(), sink.holder(), frame) && ships(
                frame,
                sink.agent(),
                idx,
                sink.dealer(),
                sink.holder(),
                plaintext@,
            );
        assert(is_share_event(e, sink.dealer(), sink.holder(), frame));
        assert(signing::sealed_for(
            frame->ciphertext@,
            crypto::hex_bytes(sink.dealer()),
            crypto::hex_bytes(sink.holder()),
            plaintext@,
        ));
    }
}

/// The frames' JSON: each names its variant, its agent, its index and what else it holds.
pub proof fn frames_name_what_they_hold(frame: ShareFrame, json: String, agent: &str)
    requires
        call_ensures(ShareFrame::json, (&frame,), json),
        call_ensures(ShareFrame::agent_id, (&frame,), agent),
    ensures
        match frame {
            ShareFrame::Ship { agent_id, idx, ciphertext } => agent@ == agent_id@ && json@ == "{\""@
                + "Ship"@ + "\":{\"agent_id\":"@ + crypto::json_text(agent_id@) + ",\"idx\":"@
                + text::decimal(idx as nat) + ",\"ciphertext\":"@ + crypto::json_text(ciphertext@)
                + "}}"@,
            ShareFrame::ShipAck { agent_id, idx, ok, detail } => agent@ == agent_id@ && json@
                == "{\""@ + "ShipAck"@ + "\":{\"agent_id\":"@ + crypto::json_text(agent_id@)
                + ",\"idx\":"@ + text::decimal(idx as nat) + ",\"ok\":"@ + (if ok {
                "true"@
            } else {
                "false"@
            }) + ",\"detail\":"@ + (if detail is Some {
                crypto::json_text(detail->0@)
            } else {
                "null"@
            }) + "}}"@,
            ShareFrame::HasQuery { agent_id, idx } => agent@ == agent_id@ && json@ == "{\""@
                + "HasQuery"@ + "\":{\"agent_id\":"@ + crypto::json_text(agent_id@) + ",\"idx\":"@
                + text::decimal(idx as nat) + "}}"@,
            ShareFrame::HasReply { agent_id, idx, present } => agent@ == agent_id@ && json@ == "{\""@
                + "HasReply"@ + "\":{\"agent_id\":"@ + crypto::json_text(agent_id@) + ",\"idx\":"@
                + text::decimal(idx as nat) + ",\"present\":"@ + (if present {
                "true"@
            } else {
                "false"@
            }) + "}}"@,
        },
{
}

/// What counts as a share frame, and as the holder's reply: an authentic event of the kind of shares
/// that decodes; and as the reply one about the sink's agent that the sink's holder signed.
pub proof fn only_the_holders_own_reply_comes_in(
    sink: RemoteShareSink,
    event: NostrEvent,
    frame: Option<ShareFrame>,
    decoded: Result<(ShareFrame, String), ShareFrameError>,
    r: Option<ShareFrame>,
)
    requires
        call_ensures(decode_share_frame, (&event, frame), decoded),
        call_ensures(RemoteShareSink::inbound, (&sink, &event, frame), r),
    ensures
        decoded is Ok <==> signing::authentic(event) && event.kind == 21005 && frame is Some,
        decoded matches Ok(d) ==> frame == Some(d.0) && signing::public_key_of(event.pubkey@)
            == Some(d.1@),
        !signing::authentic(event) ==> decoded == Err::<(ShareFrame, String), _>(
            ShareFrameError::BadSignature,
        ),
        r is Some <==> decoded is Ok && signing::public_key_of(event.pubkey@) == Some(sink.holder())
            && frame_agent(frame->0) == sink.agent(),
        r is Some ==> r == frame,
{
    if signing::authentic(event) {
        signing::author_is_a_public_key(event);
    }
}

/// A holder's answer comes through: an acknowledgement of this share that says sealed is a success, one
/// that refuses gives the holder's reason, and what is about another share or something else says
/// nothing.
pub proof fn answer_comes_through(
    agent_id: String,
    idx: u16,
    other: u16,
    outcome: Result<(), String>,
    unsealed: Option<&Vec<u8>>,
    ack: ShareFrame,
    has: ShareFrame,
    read: Option<Result<(), String>>,
    read_other: Option<Result<(), String>>,
    crossed: Option<Result<(), String>>,
    present: Option<bool>,
    present_other: Option<bool>,
    loadable: bool,
)
    requires
        other != idx,
        call_ensures(ship_ack, (agent_id, idx, outcome), ack),
        call_ensures(has_reply, (agent_id, idx, unsealed), has),
        call_ensures(read_ship_ack, (idx, &ack), read),
        call_ensures(read_ship_ack, (other, &ack), read_other),
        call_ensures(read_ship_ack, (idx, &has), crossed),
        call_ensures(read_has_reply, (idx, &has), present),
        call_ensures(read_has_reply, (other, &has), present_other),
        call_ensures(share_is_loadable, (unsealed,), loadable),
    ensures
        outcome is Ok ==> read is Some && read->0 is Ok,
        outcome matches Err(why) ==> read is Some && read->0 is Err && read->0->Err_0@
            == "holder refused to seal share "@ + text::decimal(idx as nat) + ": "@ + why@,
        read_other is None,
        crossed is None,
        present == Some(loadable),
        present_other is None,
        loadable <==> unsealed is Some && frost::key_identifier(unsealed->0@) is Some,
        frame_agent(ack) == agent_id@,
        frame_agent(has) == agent_id@,
{
}

/// What a holder does with a frame: a shipped share is to be sealed and a query attested, each with the
/// frame's own agent and index; an answer is ignored.
pub proof fn holder_does_what_the_frame_asks(frame: ShareFrame, r: HolderTask)
    requires
        call_ensures(holder_task, (frame,), r),
    ensures
        frame is Ship ==> r == (HolderTask::Seal {
            agent_id: frame->Ship_agent_id,
            idx: frame->Ship_idx,
            ciphertext: frame->ciphertext,
        }),
        frame is HasQuery ==> r == (HolderTask::Attest {
            agent_id: frame->HasQuery_agent_id,
            idx: frame->HasQuery_idx,
        }),
        frame is ShipAck || frame is HasReply ==> r is Ignore,
{
}

/// What a holder takes in: a share of a dealer that its gate lets through, once. A share that it has is
/// not replaced, and what it cannot open or is no key package is refused.
pub proof fn holder_takes_a_share_in_once<G: DealerAuthorizer>(
    gate: G,
    dealer: String,
    agent_id: String,
    idx: u16,
    ciphertext: String,
    accepted: Result<AcceptedShip, ShipFault>,
    holder_keys: NodeKeys,
    held: bool,
    opened: Result<OpenedShare, ShipFault>,
)
    requires
        call_ensures(accept_ship::<G>, (&gate, dealer, agent_id, idx, ciphertext), accepted),
        accepted is Ok ==> call_ensures(
            AcceptedShip::open,
            (accepted->Ok_0, &holder_keys, held),
            opened,
        ),
    ensures
        accepted is Ok <==> gate.accepts(agent_id@, dealer@),
        accepted is Err ==> accepted->Err_0 is NotAuthorized,
        accepted is Ok && held ==> (opened matches Err(ShipFault::AlreadyHeld)),
        accepted is Ok && !held ==> match signing::message_from(
            holder_keys.secret(),
            dealer@,
            ciphertext@,
        ) {
            Ok(share) => if frost::key_identifier(share) is Some {
                opened is Ok && opened->Ok_0.plaintext() == share && opened->Ok_0.index() == idx
                    && opened->Ok_0.of_agent() == agent_id@ && opened->Ok_0.from_dealer()
                    == dealer@
            } else {
                opened matches Err(ShipFault::NotAKeyPackage)
            },
            Err(why) => opened matches Err(ShipFault::Undecryptable(said)) && said@ == why,
        },
{
}

/// Who is put on record: the first coordinator that provisions the holder; the same one again changes
/// nothing, another one is refused and named, and a record that does not read is refused.
pub proof fn first_coordinator_stays_on_record(
    recorded: Option<&str>,
    coordinator: &str,
    r: Result<RecordStep, RecordFault>,
    share: OpenedShare,
    sealed: Result<RecordStep, ShipFault>,
)
    requires
        call_ensures(persist_authorized_coordinator, (recorded, coordinator), r),
        call_ensures(OpenedShare::sealed, (share, recorded), sealed),
        share.from_dealer() == coordinator@,
    ensures
        recorded is None ==> (r matches Ok(RecordStep::Write(t)) && t@ == coordinator@),
        recorded matches Some(t) ==> match signing::public_key_of(text::trim(t@)) {
            Some(k) => if k == coordinator@ {
                r == Ok::<RecordStep, RecordFault>(RecordStep::Keep)
            } else {
                r matches Err(RecordFault::OtherCoordinator(named)) && named@ == k
            },
            None => r matches Err(RecordFault::BadRecord),
        },
        recorded is None ==> (sealed matches Ok(RecordStep::Write(t)) && t@ == coordinator@),
        recorded is Some && r is Ok ==> (sealed matches Ok(RecordStep::Keep)),
        r is Err ==> sealed is Err,
{
}

/// Where a holder keeps an agent's shares and its coordinator's record: in a directory of the agent's
/// own, so that no two agents share one.
pub proof fn agents_have_directories_of_their_own(
    base: &str,
    agent_id: &str,
    other: &str,
    dir: String,
    other_dir: String,
    record: String,
)
    requires
        call_ensures(holder_share_dir, (base, agent_id), dir),
        call_ensures(holder_share_dir, (base, other), other_dir),
        call_ensures(coordinator_path, (base, agent_id), record),
    ensures
        dir@ == text::joined(base@, "agent-"@ + agent_id@),
        record@ == text::joined(dir@, "coordinator.pubkey"@),
        dir@ == other_dir@ ==> agent_id@ == other@,
{
    if dir@ == other_dir@ {
        reveal_strlit("agent-");
        text::joined_names_differ(base@, "agent-"@ + agent_id@, "agent-"@ + other@);
        let p = "agent-"@;
        assert(agent_id@ =~= (p + agent_id@).skip(p.len() as int));
        assert(other@ =~= (p + other@).skip(p.len() as int));
    }
}

/// A holder's server and its agent's key come from the share alone: the server is of this share, with
/// the public keys of a quorum of two, and the agent's key is that group's, in hexadecimal.
pub proof fn server_comes_from_the_share_alone(
    share: Vec<u8>,
    server: Option<RemoteHolderServer>,
    raw: &[u8],
    q: Option<String>,
)
    requires
        call_ensures(load_remote_holder_server, (share,), server),
        raw@ == share@,
        call_ensures(holder_agent_q, (raw,), q),
    ensures
        server matches Some(s) ==> s.key() == share@ && Some(s.pubkeys()) == frost::own_pubkeys(
            share@,
            2,
        ) && Some(s.holder()) == frost::holder_of(share@),
        server is Some <==> frost::own_pubkeys(share@, 2) is Some && frost::holder_of(share@)
            is Some,
        q matches Some(k) ==> frost::own_pubkeys(share@, 2) is Some && frost::group_q(
            frost::own_pubkeys(share@, 2)->0,
        ) is Some && k@ == crypto::hex_text(
            frost::group_q(frost::own_pubkeys(share@, 2)->0)->0,
        ),
        q is None ==> frost::own_pubkeys(share@, 2) is None || frost::group_q(
            frost::own_pubkeys(share@, 2)->0,
        ) is None,
{
}

/// A wait has one budget: what is left and what was used make it up, and nothing is left once it is
/// used up, however often it is looked at.
pub proof fn wait_has_one_budget(
    budget_ms: u64,
    started_ms: u64,
    now_ms: u64,
    later_ms: u64,
    r: Option<u64>,
    later: Option<u64>,
)
    requires
        started_ms <= now_ms <= later_ms,
        call_ensures(time_left, (budget_ms, started_ms, now_ms), r),
        call_ensures(time_left, (budget_ms, started_ms, later_ms), later),
    ensures
        now_ms - started_ms < budget_ms <==> r is Some,
        r matches Some(left) ==> left == budget_ms - (now_ms - started_ms),
        r is None ==> later is None,
        r is Some && later is Some ==> r->0 - later->0 == later_ms - now_ms,
{
}

/// An open holder takes shares of every dealer.
pub proof fn open_holder_takes_every_dealer(
    gate: AllDealers,
    agent_id: &str,
    dealer: &str,
    r: bool,
)
    requires
        call_ensures(allow_all_dealers, (), gate),
        call_ensures(<AllDealers as DealerAuthorizer>::authorize, (&gate, agent_id, dealer), r),
    ensures
        r,
{
}

/// A coordinator that was put on record is read back from what was written, also where white space
/// has come around it.
pub proof fn written_record_is_read_back(
    coordinator: &str,
    step: Result<RecordStep, RecordFault>,
    before: Seq<char>,
    after: Seq<char>,
    recorded: &str,
    r: Option<String>,
)
    requires
        call_ensures(persist_authorized_coordinator, (None, coordinator), step),
        signing::is_public_key(coordinator@),
        forall|i: int| 0 <= i < before.len() ==> text::is_white(#[trigger] before[i]),
        forall|i: int| 0 <= i < after.len() ==> text::is_white(#[trigger] after[i]),
        step matches Ok(RecordStep::Write(t)) && recorded@ == before + t@ + after,
        call_ensures(load_authorized_coordinator, (recorded,), r),
    ensures
        r matches Some(k) && k@ == coordinator@,
{
    lemma_hex_is_not_white(coordinator@);
    text::trimming_takes_white_space_off(before, coordinator@, after);
}

/// A share that is not taken is answered with what was wrong, and with the share, the agent or the
/// dealer that it concerns.
pub proof fn refused_share_is_named(
    fault: ShipFault,
    agent_id: &str,
    idx: u16,
    dealer: &str,
    r: String,
)
    requires
        call_ensures(ShipFault::message, (&fault, agent_id, idx, dealer), r),
    ensures
        fault is NotAuthorized ==> r@ == "share ship from un-authorized dealer "@ + dealer@
            + " for agent "@ + agent_id@,
        fault is AlreadyHeld ==> r@ == "holder already holds share "@ + text::decimal(idx as nat)
            + " for agent "@ + agent_id@ + " (refusing to clobber)"@,
        fault matches ShipFault::Undecryptable(why) ==> r@ == "NIP-44 decrypt share "@
            + text::decimal(idx as nat) + ": "@ + why@,
        fault is NotAKeyPackage ==> r@ == "shipped share "@ + text::decimal(idx as nat)
            + " is not a valid KeyPackage"@,
        fault is NotRecorded ==> r@ == "persist the authorized coordinator at provision"@,
{
}

} // verus!
