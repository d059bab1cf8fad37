//! A quorum holder on another machine.
//!
//! The coordinator talks to it through a proxy that owns no share and no nonce. The holder's own
//! server draws its nonces, keeps them, uses each once, and signs only what its membrane lets
//! through. Frames carry public commitments, public packages and signature shares, and nothing else.
use std::collections::HashMap;
use vstd::prelude::*;
use vstd::string::StringExecFns;

use crate::bytes;
use crate::crypto;
use crate::frost;
use crate::text;

verus! {

broadcast use vstd::std_specs::hash::group_hash_axioms;

/// A holder's commitments (holder to coordinator).
pub const ROUND_COMMITMENT: u8 = 1;

/// A sign request (coordinator to holder).
pub const ROUND_PACKAGE: u8 = 2;

/// A holder's signature share (holder to coordinator).
pub const ROUND_SHARE: u8 = 3;

/// The request to commit (coordinator to holder).
pub const ROUND_COMMIT_REQUEST: u8 = 10;

/// A holder's refusal (holder to coordinator).
pub const ROUND_REFUSAL: u8 = 11;

/// A liveness probe (coordinator to holder).
pub const ROUND_PROBE: u8 = 12;

/// The answer to a probe (holder to coordinator).
pub const ROUND_PROBE_ACK: u8 = 13;

/// A request for a key-agreement contribution (coordinator to holder).
pub const ROUND_ECDH_REQUEST: u8 = 14;

/// A key-agreement contribution (holder to coordinator).
pub const ROUND_ECDH_CONTRIBUTION: u8 = 15;

/// The refusal of a key-agreement request (holder to coordinator).
pub const ROUND_ECDH_REFUSAL: u8 = 16;

/// The address of the coordinator, which is no holder's.
pub const COORDINATOR_ID: u16 = 65535;

/// A frame between a coordinator and a holder. Its payload is opaque to whatever carries it.
#[derive(Debug)]
pub struct CoSignEvent {
    pub session_id: u64,
    /// The sender's identifier, as its bytes.
    pub from: Vec<u8>,
    pub round: u8,
    pub payload: Vec<u8>,
}

/// Why a holder refuses.
#[derive(Debug)]
pub enum RefuseReason {
    /// The holder cannot sign.
    BadKeyset,
    /// The membrane refused: what it said, serialized.
    Membrane(Vec<u8>),
}

impl View for RefuseReason {
    type V = Seq<u8>;

    /// The reason as it goes over the wire.
    open spec fn view(&self) -> Seq<u8> {
        match self {
            RefuseReason::BadKeyset => vstd::utf8::encode_utf8("\"BadKeyset\""@),
            RefuseReason::Membrane(said) => said@,
        }
    }
}

impl RefuseReason {
    /// The reason as it goes over the wire.
    pub fn to_payload(&self) -> (r: Vec<u8>)
        ensures
            r@ == self@,
    {
        match self {
            RefuseReason::BadKeyset => bytes::copy_bytes("\"BadKeyset\"".as_bytes()),
            RefuseReason::Membrane(said) => bytes::copy_bytes(said.as_slice()),
        }
    }

    /// The reason that came over the wire, if the payload is one.
    pub fn decode(payload: &[u8]) -> (r: Option<RefuseReason>)
        ensures
            r is Some <==> refusal_decodes(payload@),
            r matches Some(reason) ==> reason@ == payload@ && (reason is BadKeyset <==> payload@
                == RefuseReason::BadKeyset@),
    {
        if bytes::bytes_eq(payload, "\"BadKeyset\"".as_bytes()) {
            Some(RefuseReason::BadKeyset)
        } else if crypto::is_json(payload) && opens_reason(payload) {
            Some(RefuseReason::Membrane(bytes::copy_bytes(payload)))
        } else {
            None
        }
    }

    /// The reason that came over the wire. A payload that is none is still a refusal.
    pub fn from_payload(payload: &[u8]) -> (r: RefuseReason)
        ensures
            r@ == read_refusal(payload@),
            r is BadKeyset <==> read_refusal(payload@) == RefuseReason::BadKeyset@,
    {
        match RefuseReason::decode(payload) {
            Some(reason) => reason,
            None => RefuseReason::BadKeyset,
        }
    }
}

/// The first byte of a JSON text behind its white space.
pub open spec fn first_mark(b: Seq<u8>) -> Option<u8>
    decreases b.len(),
{
    if b.len() == 0 {
        None
    } else if b[0] == 32 || b[0] == 9 || b[0] == 10 || b[0] == 13 {
        first_mark(b.skip(1))
    } else {
        Some(b[0])
    }
}

/// Whether a JSON text is a string or an object, as a reason's is: its name, or its name with what
/// it says.
fn opens_reason(b: &[u8]) -> (r: bool)
    ensures
        r == (first_mark(b@) == Some(34u8) || first_mark(b@) == Some(123u8)),
{
    let mut i: usize = 0;
    assert(b@.skip(0) =~= b@);
    while i < b.len()
        invariant
            i <= b@.len(),
            first_mark(b@) == first_mark(b@.skip(i as int)),
        decreases b@.len() - i,
    {
        assert(b@.skip(i as int)[0] == b@[i as int]);
        assert(b@.skip(i as int).skip(1) =~= b@.skip(i + 1));
        let c: u8 = b[i];
        if c != 32 && c != 9 && c != 10 && c != 13 {
            return c == 34 || c == 123;
        }
        i = i + 1;
    }
    false
}

/// Whether a payload is a reason to refuse. What a membrane says is a JSON string or object.
pub open spec fn refusal_decodes(payload: Seq<u8>) -> bool {
    payload == RefuseReason::BadKeyset@ || (crypto::json_form(payload) && (first_mark(payload)
        == Some(34u8) || first_mark(payload) == Some(123u8)))
}

/// The reason that a refusal's payload is read as.
pub open spec fn read_refusal(payload: Seq<u8>) -> Seq<u8> {
    if refusal_decodes(payload) {
        payload
    } else {
        RefuseReason::BadKeyset@
    }
}

// ---------------------------------------------------------------------------------------------
// The coordinator's side
// ---------------------------------------------------------------------------------------------
/// Frames in the order in which they crossed.
pub type Frames = Seq<CoSignEvent>;

/// A transport's failures in the order in which it reported them.
pub type Failures = Seq<Seq<char>>;

/// Carries frames to one holder and back.
pub trait HolderTransport {
    /// The frames that were handed over to be sent.
    spec fn sent(&self) -> Frames;

    /// The frames that were received.
    spec fn received(&self) -> Frames;

    /// The failures that were reported.
    spec fn failed(&self) -> Failures;

    /// Send a frame.
    fn send(&mut self, event: CoSignEvent) -> (r: Result<(), String>)
        ensures
            final(self).sent() == old(self).sent().push(event),
            final(self).received() == old(self).received(),
            final(self).failed() == match r {
                Ok(()) => old(self).failed(),
                Err(why) => old(self).failed().push(why@),
            },
    ;

    /// Receive the next frame.
    fn recv(&mut self) -> (r: Result<CoSignEvent, String>)
        ensures
            final(self).sent() == old(self).sent(),
            final(self).received() == match r {
                Ok(event) => old(self).received().push(event),
                Err(_) => old(self).received(),
            },
            final(self).failed() == match r {
                Ok(_) => old(self).failed(),
                Err(why) => old(self).failed().push(why@),
            },
    ;
}

/// Why a holder's commitments were not had.
#[derive(Debug)]
pub enum CommitFault {
    /// The transport failed.
    Transport(String),
    /// The reply is of another session.
    SessionMismatch { asked: u64, got: u64 },
    /// The reply is another holder's.
    WrongSender { from: Vec<u8> },
    /// The reply's payload is no commitments, and why it is none.
    Undecodable(String),
    /// The holder refused.
    Refused(RefuseReason),
    /// The holder refused, and the payload is no reason.
    UndecodableRefusal,
    /// The reply is neither commitments nor a refusal.
    UnexpectedRound(u8),
}

/// The characters of a byte string that is ASCII.
pub open spec fn ascii(b: Seq<u8>) -> Seq<char> {
    b.map_values(
        |c: u8|
            if c < 128 {
                c as char
            } else {
                '?'
            },
    )
}

/// A reason as a log names it: the name that the wire quotes, or what the wire says where that is no
/// quoted name.
pub open spec fn reason_name(said: Seq<u8>) -> Seq<char> {
    if said.len() >= 2 && said[0] == 34 && said.last() == 34 {
        ascii(said.subrange(1, said.len() - 1))
    } else {
        ascii(said)
    }
}

fn append_reason(out: &mut String, reason: &RefuseReason)
    ensures
        final(out)@ == old(out)@ + reason_name(reason@),
{
    let said = reason.to_payload();
    let n: usize = said.len();
    let quoted = n >= 2 && said[0] == 34 && said[n - 1] == 34;
    let start: usize = if quoted {
        1
    } else {
        0
    };
    let end: usize = if quoted {
        n - 1
    } else {
        n
    };
    let ghost inner = said@.subrange(start as int, end as int);
    let ghost head = out@;
    let mut i: usize = start;
    assert(head + ascii(inner.take(0)) =~= head);
    while i < end
        invariant
            start <= i <= end <= said@.len(),
            inner == said@.subrange(start as int, end as int),
            out@ == head + ascii(inner.take(i - start)),
        decreases end - i,
    {
        let c: u8 = said[i];
        out.push(
            if c < 128 {
                c as char
            } else {
                '?'
            },
        );
        assert(inner.take(i + 1 - start) =~= inner.take(i - start).push(c));
        assert(ascii(inner.take(i + 1 - start)) =~= ascii(inner.take(i - start)).push(
            if c < 128 {
                c as char
            } else {
                '?'
            },
        ));
        i = i + 1;
    }
    assert(inner.take(i - start) =~= inner);
    assert(said@.subrange(0, n as int) =~= said@);
}

/// A sender as a log names it: a small identifier by its number, another one by its digits.
pub open spec fn sender_name(from: Seq<u8>) -> Seq<char> {
    match frost::small_identifier(from) {
        Some(id) => text::decimal(id as nat),
        None => crypto::hex_text(from),
    }
}

impl CommitFault {
    /// What the fault says of holder `id`.
    pub open spec fn complaint(&self, id: u16) -> Seq<char> {
        match self {
            CommitFault::Transport(e) => e@,
            CommitFault::SessionMismatch { asked, got } => {
                " round-1 reply session mismatch (asked "@ + text::decimal(*asked as nat)
                    + ", got "@ + text::decimal(*got as nat) + ")"@
            },
            CommitFault::WrongSender { from } => " round-1 reply came from "@ + sender_name(from@)
                + " (expected "@ + text::decimal(id as nat) + ")"@,
            CommitFault::Undecodable(why) => " commitment decode: "@ + why@,
            CommitFault::Refused(reason) => " REFUSED at round 1 ("@ + reason_name(reason@) + ")"@,
            CommitFault::UndecodableRefusal => " refusal decode: not the JSON of a reason"@,
            CommitFault::UnexpectedRound(round) => " round-1 reply has unexpected round "@
                + text::decimal(*round as nat),
        }
    }

    /// The fault as a line of a log, for holder `id`. A transport's failure speaks for itself.
    pub fn message(&self, id: u16) -> (r: String)
        ensures
            r@ == match self {
                CommitFault::Transport(e) => e@,
                _ => "remote holder "@ + text::decimal(id as nat) + self.complaint(id),
            },
    {
        let mut s = "remote holder ".to_owned();
        text::append_decimal(&mut s, id as u64);
        let ghost head = s@;
        match self {
            CommitFault::Transport(e) => return e.clone(),
            CommitFault::SessionMismatch { asked, got } => {
                s.append(" round-1 reply session mismatch (asked ");
                text::append_decimal(&mut s, *asked);
                s.append(", got ");
                text::append_decimal(&mut s, *got);
                s.append(")");
            },
            CommitFault::WrongSender { from } => {
                s.append(" round-1 reply came from ");
                match frost::identifier_to_u16(from.as_slice()) {
                    Some(sender) => text::append_decimal(&mut s, sender as u64),
                    None => s.append(crypto::hex_encode(from.as_slice()).as_str()),
                }
                s.append(" (expected ");
                text::append_decimal(&mut s, id as u64);
                s.append(")");
            },
            CommitFault::Undecodable(why) => {
                s.append(" commitment decode: ");
                s.append(why.as_str());
            },
            CommitFault::Refused(reason) => {
                s.append(" REFUSED at round 1 (");
                append_reason(&mut s, reason);
                s.append(")");
            },
            CommitFault::UndecodableRefusal => s.append(" refusal decode: not the JSON of a reason"),
            CommitFault::UnexpectedRound(round) => {
                s.append(" round-1 reply has unexpected round ");
                text::append_decimal(&mut s, *round as u64);
            },
        }
        assert(s@ =~= head + self.complaint(id));
        s
    }
}

/// Whether a reply is this holder's in this session.
pub open spec fn is_bound(reply: CoSignEvent, id: u16, session_id: u64) -> bool {
    reply.session_id == session_id && frost::small_identifier(reply.from@) == Some(id)
}

/// What a reply to the request to commit is read as. It has to be of this session and from this
/// holder, whatever else it says.
pub open spec fn reads_commit(
    r: Result<Vec<u8>, CommitFault>,
    id: u16,
    session_id: u64,
    reply: CoSignEvent,
) -> bool {
    match r {
        Ok(commitments) => commit_accepts(reply, id, session_id) && commitments@ == reply.payload@,
        Err(CommitFault::SessionMismatch { asked, got }) => asked == session_id && got
            == reply.session_id && got != session_id,
        Err(CommitFault::WrongSender { from }) => reply.session_id == session_id && from@
            == reply.from@ && frost::small_identifier(from@) != Some(id),
        Err(CommitFault::Undecodable(why)) => is_bound(reply, id, session_id) && reply.round
            == ROUND_COMMITMENT && frost::commitments_fault(reply.payload@) == Some(why@),
        Err(CommitFault::Refused(reason)) => is_bound(reply, id, session_id) && reply.round
            == ROUND_REFUSAL && refusal_decodes(reply.payload@) && reason@ == reply.payload@,
        Err(CommitFault::UndecodableRefusal) => is_bound(reply, id, session_id) && reply.round
            == ROUND_REFUSAL && !refusal_decodes(reply.payload@),
        Err(CommitFault::UnexpectedRound(round)) => is_bound(reply, id, session_id) && round
            == reply.round && round != ROUND_COMMITMENT && round != ROUND_REFUSAL,
        Err(CommitFault::Transport(_)) => false,
    }
}

/// Whether a reply to the request to commit gives this holder's commitments.
pub open spec fn commit_accepts(reply: CoSignEvent, id: u16, session_id: u64) -> bool {
    is_bound(reply, id, session_id) && reply.round == ROUND_COMMITMENT && frost::commitments_form(
        reply.payload@,
    )
}

/// Whether a reply to a sign request gives this holder's share.
pub open spec fn sign_accepts(reply: CoSignEvent, id: u16, session_id: u64) -> bool {
    is_bound(reply, id, session_id) && reply.round == ROUND_SHARE && frost::share_form(
        reply.payload@,
    )
}

/// What a reply to a sign request is read as. Whatever is not this holder's share in this session is
/// a refusal.
pub open spec fn reads_sign(
    r: Result<Vec<u8>, RefuseReason>,
    id: u16,
    session_id: u64,
    reply: CoSignEvent,
) -> bool {
    match r {
        Ok(share) => sign_accepts(reply, id, session_id) && share@ == reply.payload@,
        Err(reason) => {
            &&& !sign_accepts(reply, id, session_id)
            &&& if is_bound(reply, id, session_id) && reply.round == ROUND_REFUSAL {
                &&& reason@ == read_refusal(reply.payload@)
                &&& reason is BadKeyset <==> read_refusal(reply.payload@)
                    == RefuseReason::BadKeyset@
            } else {
                reason is BadKeyset
            }
        },
    }
}

fn is_sent_by(reply: &CoSignEvent, id: u16) -> (r: bool)
    ensures
        r == (frost::small_identifier(reply.from@) == Some(id)),
{
    match frost::identifier_to_u16(reply.from.as_slice()) {
        Some(sender) => sender == id,
        None => false,
    }
}

/// Read a holder's reply to the request to commit. On success it is the commitments.
pub fn read_commit_reply(id: u16, session_id: u64, reply: CoSignEvent) -> (r: Result<
    Vec<u8>,
    CommitFault,
>)
    ensures
        reads_commit(r, id, session_id, reply),
{
    if reply.session_id != session_id {
        return Err(CommitFault::SessionMismatch { asked: session_id, got: reply.session_id });
    }
    if !is_sent_by(&reply, id) {
        return Err(CommitFault::WrongSender { from: reply.from });
    }
    if reply.round == ROUND_COMMITMENT {
        match frost::commitments_error(reply.payload.as_slice()) {
            None => Ok(reply.payload),
            Some(why) => Err(CommitFault::Undecodable(why)),
        }
    } else if reply.round == ROUND_REFUSAL {
        match RefuseReason::decode(reply.payload.as_slice()) {
            Some(reason) => Err(CommitFault::Refused(reason)),
            None => Err(CommitFault::UndecodableRefusal),
        }
    } else {
        Err(CommitFault::UnexpectedRound(reply.round))
    }
}

/// Read a holder's reply to a sign request. On success it is the share.
pub fn read_sign_reply(id: u16, session_id: u64, reply: CoSignEvent) -> (r: Result<
    Vec<u8>,
    RefuseReason,
>)
    ensures
        reads_sign(r, id, session_id, reply),
{
    if reply.session_id != session_id {
        return Err(RefuseReason::BadKeyset);
    }
    if !is_sent_by(&reply, id) {
        return Err(RefuseReason::BadKeyset);
    }
    if reply.round == ROUND_SHARE {
        if frost::is_signature_share(reply.payload.as_slice()) {
            Ok(reply.payload)
        } else {
            Err(RefuseReason::BadKeyset)
        }
    } else if reply.round == ROUND_REFUSAL {
        Err(RefuseReason::from_payload(reply.payload.as_slice()))
    } else {
        Err(RefuseReason::BadKeyset)
    }
}

/// The coordinator's proxy of a holder: the holder's identifier, which is public, and a transport.
pub struct RemoteHolder<T> {
    id_u16: u16,
    transport: T,
}

/// Whether `event` is the coordinator's request of `round` with `payload`.
pub open spec fn is_request(event: CoSignEvent, session_id: u64, round: u8, payload: Seq<u8>) -> bool {
    event.session_id == session_id && event.from@ == frost::identifier_bytes(COORDINATOR_ID)
        && event.round == round
        && event.payload@ == payload
}

impl<T: HolderTransport> RemoteHolder<T> {
    /// The holder's identifier.
    pub closed spec fn holder(&self) -> u16 {
        self.id_u16
    }

    /// The transport to the holder.
    pub closed spec fn link(&self) -> T {
        self.transport
    }

    /// A proxy of holder `id_u16`.
    pub fn new(id_u16: u16, transport: T) -> (r: Self)
        ensures
            r.holder() == id_u16,
            r.link() == transport,
    {
        RemoteHolder { id_u16, transport }
    }

    /// The holder's identifier.
    pub fn id(&self) -> (r: u16)
        ensures
            r == self.holder(),
    {
        self.id_u16
    }

    /// Whether `after` has handed over one more request: of `round`, with `payload`.
    pub open spec fn requested(
        &self,
        after: RemoteHolder<T>,
        session_id: u64,
        round: u8,
        payload: Seq<u8>,
    ) -> bool {
        &&& after.link().sent().len() == self.link().sent().len() + 1
        &&& after.link().sent().drop_last() == self.link().sent()
        &&& is_request(after.link().sent().last(), session_id, round, payload)
    }

    /// Whether `after` has received one more reply, and its transport has not failed.
    pub open spec fn replied(&self, after: RemoteHolder<T>) -> bool {
        &&& after.link().received().len() == self.link().received().len() + 1
        &&& after.link().received().drop_last() == self.link().received()
        &&& after.link().failed() == self.link().failed()
    }

    /// Whether the transport of `after` has failed once more, and received nothing.
    pub open spec fn cut_off(&self, after: RemoteHolder<T>) -> bool {
        &&& after.link().received() == self.link().received()
        &&& after.link().failed().len() == self.link().failed().len() + 1
        &&& after.link().failed().drop_last() == self.link().failed()
    }

    /// Round 1: ask the holder to commit. The outcome is what [`read_commit_reply`] makes of the one
    /// reply that was received, unless the transport failed.
    pub fn commit(&mut self, session_id: u64) -> (r: Result<Vec<u8>, CommitFault>)
        ensures
            final(self).holder() == old(self).holder(),
            old(self).requested(*final(self), session_id, ROUND_COMMIT_REQUEST, Seq::empty()),
            match r {
                Err(CommitFault::Transport(why)) => old(self).cut_off(*final(self)) && why@
                    == final(self).link().failed().last(),
                _ => old(self).replied(*final(self)) && reads_commit(
                    r,
                    old(self).holder(),
                    session_id,
                    final(self).link().received().last(),
                ),
            },
    {
        let request = CoSignEvent {
            session_id,
            from: frost::identifier_from_u16(COORDINATOR_ID),
            round: ROUND_COMMIT_REQUEST,
            payload: Vec::new(),
        };
        let handed = self.transport.send(request);
        assert(self.transport.sent().drop_last() =~= old(self).transport.sent());
        match handed {
            Ok(()) => {},
            Err(e) => {
                assert(self.transport.failed().drop_last() =~= old(self).transport.failed());
                return Err(CommitFault::Transport(e));
            },
        }
        let reply = match self.transport.recv() {
            Ok(reply) => reply,
            Err(e) => {
                assert(self.transport.failed().drop_last() =~= old(self).transport.failed());
                return Err(CommitFault::Transport(e));
            },
        };
        assert(self.transport.received().drop_last() =~= old(self).transport.received());
        read_commit_reply(self.id_u16, session_id, reply)
    }

    /// Round 2: have the holder validate and sign. `payload` is the sign request. The outcome is what
    /// [`read_sign_reply`] makes of the one reply that was received; a transport that fails is a
    /// refusal.
    pub fn validate_and_sign(&mut self, session_id: u64, payload: Vec<u8>) -> (r: Result<
        Vec<u8>,
        RefuseReason,
    >)
        ensures
            final(self).holder() == old(self).holder(),
            old(self).requested(*final(self), session_id, ROUND_PACKAGE, payload@),
            if old(self).cut_off(*final(self)) {
                r matches Err(reason) && reason is BadKeyset
            } else {
                &&& old(self).replied(*final(self))
                &&& reads_sign(
                    r,
                    old(self).holder(),
                    session_id,
                    final(self).link().received().last(),
                )
            },
    {
        let request = CoSignEvent {
            session_id,
            from: frost::identifier_from_u16(COORDINATOR_ID),
            round: ROUND_PACKAGE,
            payload,
        };
        let handed = self.transport.send(request);
        assert(self.transport.sent().drop_last() =~= old(self).transport.sent());
        if handed.is_err() {
            assert(self.transport.failed().drop_last() =~= old(self).transport.failed());
            return Err(RefuseReason::BadKeyset);
        }
        match self.transport.recv() {
            Ok(reply) => {
                assert(self.transport.received().drop_last() =~= old(self).transport.received());
                read_sign_reply(self.id_u16, session_id, reply)
            },
            Err(_) => {
                assert(self.transport.failed().drop_last() =~= old(self).transport.failed());
                Err(RefuseReason::BadKeyset)
            },
        }
    }
}

/// A spoofed reply is never accepted: no reply of another sender or session gives commitments or a
/// share.
pub proof fn spoofed_reply_is_never_accepted(reply: CoSignEvent, id: u16, session_id: u64)
    requires
        frost::small_identifier(reply.from@) != Some(id) || reply.session_id != session_id,
    ensures
        !commit_accepts(reply, id, session_id),
        !sign_accepts(reply, id, session_id),
{
}

// ---------------------------------------------------------------------------------------------
// The holder's side
// ---------------------------------------------------------------------------------------------
/// A sign request, as the holder has read it: the package to sign, and what the membrane says of it.
#[derive(Debug)]
pub struct SignRequest {
    pub package: Vec<u8>,
    /// The membrane's verdict on the request, by the holder's own public keys.
    pub verdict: Result<(), RefuseReason>,
}

/// The server of a holder: its share, its public keys, and the nonces of its open sessions.
pub struct RemoteHolderServer {
    key_package: Vec<u8>,
    own_pubkeys: Vec<u8>,
    id_u16: u16,
    nonces: HashMap<u64, Vec<u8>>,
}

/// Whether `reply` is `id`'s frame of `round` with `payload` in this session.
pub open spec fn is_reply(
    reply: CoSignEvent,
    session_id: u64,
    id: u16,
    round: u8,
    payload: Seq<u8>,
) -> bool {
    reply.session_id == session_id && reply.from@ == frost::identifier_bytes(id) && reply.round
        == round
        && reply.payload@ == payload
}

/// The round and payload with which a holder answers a sign request, given its nonce of the session.
pub open spec fn sign_answer(key: Seq<u8>, nonce: Option<Seq<u8>>, sign: Option<SignRequest>) -> (
    u8,
    Seq<u8>,
) {
    if sign is None || nonce is None {
        (ROUND_REFUSAL, RefuseReason::BadKeyset@)
    } else {
        match sign->0.verdict {
            Err(reason) => (ROUND_REFUSAL, reason@),
            Ok(()) => match frost::signature_share(sign->0.package@, nonce->0, key) {
                Some(share) => (ROUND_SHARE, share),
                None => (ROUND_REFUSAL, RefuseReason::BadKeyset@),
            },
        }
    }
}

impl RemoteHolderServer {
    /// The holder's share.
    pub closed spec fn key(&self) -> Seq<u8> {
        self.key_package@
    }

    /// The public keys that the membrane goes by.
    pub closed spec fn pubkeys(&self) -> Seq<u8> {
        self.own_pubkeys@
    }

    /// The holder's identifier.
    pub closed spec fn holder(&self) -> u16 {
        self.id_u16
    }

    /// The nonces of the open sessions.
    pub closed spec fn open_nonces(&self) -> Map<u64, Vec<u8>> {
        self.nonces@
    }

    /// The nonce of a session.
    pub open spec fn nonce_of(&self, session_id: u64) -> Option<Seq<u8>> {
        if self.open_nonces().contains_key(session_id) {
            Some(self.open_nonces()[session_id]@)
        } else {
            None
        }
    }

    /// The server of a share. Fails where the bytes are no key package of a small identifier.
    pub fn new(key_package: Vec<u8>, own_pubkeys: Vec<u8>) -> (r: Option<Self>)
        ensures
            r is Some <==> frost::holder_of(key_package@) is Some,
            r matches Some(s) ==> {
                &&& s.key() == key_package@
                &&& s.pubkeys() == own_pubkeys@
                &&& frost::holder_of(key_package@) == Some(s.holder())
                &&& s.open_nonces() == Map::<u64, Vec<u8>>::empty()
            },
    {
        match frost::key_package_holder(key_package.as_slice()) {
            Some(id_u16) => Some(
                RemoteHolderServer { key_package, own_pubkeys, id_u16, nonces: HashMap::new() },
            ),
            None => None,
        }
    }

    /// The holder's identifier.
    pub fn id(&self) -> (r: u16)
        ensures
            r == self.holder(),
    {
        self.id_u16
    }

    /// The public keys that the membrane goes by.
    pub fn own_pubkeys(&self) -> (r: &Vec<u8>)
        ensures
            r@ == self.pubkeys(),
    {
        &self.own_pubkeys
    }

    /// Whether the server is the same but for its open sessions.
    pub open spec fn same_holder(&self, other: RemoteHolderServer) -> bool {
        self.key() == other.key() && self.pubkeys() == other.pubkeys() && self.holder()
            == other.holder()
    }

    /// Handle one request: commit, sign, or refuse what is neither. `sign` is the sign request that
    /// the payload holds, if it holds one.
    pub fn handle(&mut self, event: CoSignEvent, sign: Option<SignRequest>) -> (reply: CoSignEvent)
        ensures
            answered(*old(self), *final(self), event.session_id, event.round, sign, reply),
    {
        if event.round == ROUND_COMMIT_REQUEST {
            self.handle_commit(event.session_id)
        } else if event.round == ROUND_PACKAGE {
            self.handle_sign(event.session_id, sign)
        } else {
            self.refuse(event.session_id, &RefuseReason::BadKeyset)
        }
    }

    /// What a request to commit does: a session that has a nonce keeps it and is refused; another
    /// one gets what the holder's key makes of some random bytes.
    pub open spec fn committed(
        &self,
        after: RemoteHolderServer,
        session_id: u64,
        reply: CoSignEvent,
    ) -> bool {
        if self.open_nonces().contains_key(session_id) {
            self.stays_shut(after, reply)
        } else {
            exists|draw: Seq<u8>| #[trigger] self.committed_from(after, session_id, reply, draw)
        }
    }

    /// A refusal to commit, which changes no session.
    pub open spec fn stays_shut(&self, after: RemoteHolderServer, reply: CoSignEvent) -> bool {
        &&& after.open_nonces() == self.open_nonces()
        &&& reply.round == ROUND_REFUSAL
        &&& reply.payload@ == RefuseReason::BadKeyset@
    }

    /// A commitment from the random bytes `draw`: the session gets the nonce that the holder's key
    /// makes of them, and its commitments are the reply. Where the key makes none of them, the
    /// session stays shut.
    pub open spec fn committed_from(
        &self,
        after: RemoteHolderServer,
        session_id: u64,
        reply: CoSignEvent,
        draw: Seq<u8>,
    ) -> bool {
        match frost::drawn_for(self.key(), draw) {
            Some(drawn) => {
                &&& reply.round == ROUND_COMMITMENT
                &&& reply.payload@ == drawn.1
                &&& frost::commitments_form(reply.payload@)
                &&& after.open_nonces().dom() == self.open_nonces().dom().insert(session_id)
                &&& after.open_nonces().remove(session_id) == self.open_nonces()
                &&& after.open_nonces()[session_id]@ == drawn.0
            },
            None => self.stays_shut(after, reply),
        }
    }

    /// What a sign request does: the session's nonce is gone, whether or not a share came of it. A
    /// request that does not read leaves it.
    pub open spec fn signed(
        &self,
        after: RemoteHolderServer,
        session_id: u64,
        sign: Option<SignRequest>,
        reply: CoSignEvent,
    ) -> bool {
        &&& after.open_nonces() == if sign is Some {
            self.open_nonces().remove(session_id)
        } else {
            self.open_nonces()
        }
        &&& (reply.round, reply.payload@) == sign_answer(
            self.key(),
            self.nonce_of(session_id),
            sign,
        )
        &&& reply.round == ROUND_SHARE ==> frost::share_form(reply.payload@)
    }

    fn handle_commit(&mut self, session_id: u64) -> (reply: CoSignEvent)
        ensures
            final(self).same_holder(*old(self)),
            reply.session_id == session_id,
            reply.from@ == frost::identifier_bytes(old(self).holder()),
            old(self).committed(*final(self), session_id, reply),
    {
        if self.nonces.contains_key(&session_id) {
            return self.refuse(session_id, &RefuseReason::BadKeyset);
        }
        let drawn = frost::draw_nonces(self.key_package.as_slice());
        let ghost draw = choose|draw: Seq<u8>|
            match drawn {
                Some(d) => (#[trigger] frost::drawn_for(self.key_package@, draw)) == Some(
                    (d.0@, d.1@),
                ),
                None => frost::drawn_for(self.key_package@, draw) is None,
            };
        let reply = self.open_session(session_id, drawn);
        assert(self.open_nonces().remove(session_id) =~= old(self).open_nonces());
        assert(old(self).committed_from(*self, session_id, reply, draw));
        reply
    }

    /// Open a session with a nonce and its commitments, as they were drawn for it. A session that is
    /// open stays as it is, and so does one for which nothing could be drawn: that is a refusal.
    pub fn open_session(&mut self, session_id: u64, drawn: Option<(Vec<u8>, Vec<u8>)>) -> (reply:
        CoSignEvent)
        ensures
            final(self).same_holder(*old(self)),
            match drawn {
                Some((nonces, commitments)) if !old(self).open_nonces().contains_key(
                    session_id,
                ) => {
                    &&& is_reply(
                        reply,
                        session_id,
                        old(self).holder(),
                        ROUND_COMMITMENT,
                        commitments@,
                    )
                    &&& final(self).open_nonces() == old(self).open_nonces().insert(
                        session_id,
                        nonces,
                    )
                },
                _ => {
                    &&& is_reply(
                        reply,
                        session_id,
                        old(self).holder(),
                        ROUND_REFUSAL,
                        RefuseReason::BadKeyset@,
                    )
                    &&& final(self).open_nonces() == old(self).open_nonces()
                },
            },
    {
        if self.nonces.contains_key(&session_id) {
            return self.refuse(session_id, &RefuseReason::BadKeyset);
        }
        match drawn {
            Some((nonces, commitments)) => {
                self.nonces.insert(session_id, nonces);
                CoSignEvent {
                    session_id,
                    from: frost::identifier_from_u16(self.id_u16),
                    round: ROUND_COMMITMENT,
                    payload: commitments,
                }
            },
            None => self.refuse(session_id, &RefuseReason::BadKeyset),
        }
    }

    fn handle_sign(&mut self, session_id: u64, sign: Option<SignRequest>) -> (reply: CoSignEvent)
        ensures
            final(self).same_holder(*old(self)),
            reply.session_id == session_id,
            reply.from@ == frost::identifier_bytes(old(self).holder()),
            old(self).signed(*final(self), session_id, sign, reply),
    {
        let sign = match sign {
            Some(s) => s,
            None => return self.refuse(session_id, &RefuseReason::BadKeyset),
        };
        let mut nonce = match self.nonces.remove(&session_id) {
            Some(n) => n,
            None => {
                assert(self.open_nonces() =~= old(self).open_nonces().remove(session_id));
                return self.refuse(session_id, &RefuseReason::BadKeyset);
            },
        };
        match sign.verdict {
            Err(reason) => {
                crypto::zeroize_bytes(&mut nonce);
                return self.refuse(session_id, &reason);
            },
            Ok(()) => {},
        }
        let share = frost::sign_share(
            sign.package.as_slice(),
            nonce.as_slice(),
            self.key_package.as_slice(),
        );
        crypto::zeroize_bytes(&mut nonce);
        match share {
            Some(payload) => CoSignEvent {
                session_id,
                from: frost::identifier_from_u16(self.id_u16),
                round: ROUND_SHARE,
                payload,
            },
            None => self.refuse(session_id, &RefuseReason::BadKeyset),
        }
    }

    fn refuse(&self, session_id: u64, reason: &RefuseReason) -> (reply: CoSignEvent)
        ensures
            is_reply(reply, session_id, self.holder(), ROUND_REFUSAL, reason@),
    {
        CoSignEvent {
            session_id,
            from: frost::identifier_from_u16(self.id_u16),
            round: ROUND_REFUSAL,
            payload: reason.to_payload(),
        }
    }
}

/// What a holder's server makes of a request: a request to commit or to sign is answered as such, and
/// another one is refused and changes nothing.
pub open spec fn answered(
    before: RemoteHolderServer,
    after: RemoteHolderServer,
    session_id: u64,
    round: u8,
    sign: Option<SignRequest>,
    reply: CoSignEvent,
) -> bool {
    &&& after.same_holder(before)
    &&& reply.session_id == session_id
    &&& reply.from@ == frost::identifier_bytes(before.holder())
    &&& if round == ROUND_COMMIT_REQUEST {
        before.committed(after, session_id, reply)
    } else if round == ROUND_PACKAGE {
        before.signed(after, session_id, sign, reply)
    } else {
        &&& after.open_nonces() == before.open_nonces()
        &&& reply.round == ROUND_REFUSAL
        &&& reply.payload@ == RefuseReason::BadKeyset@
    }
}

/// A nonce signs at most once: after a sign request that read, the session has no nonce, and the
/// next sign request in it is refused whatever it asks.
pub proof fn nonce_signs_at_most_once(
    before: RemoteHolderServer,
    after: RemoteHolderServer,
    session_id: u64,
    sign: SignRequest,
    reply: CoSignEvent,
    again: Option<SignRequest>,
)
    requires
        before.signed(after, session_id, Some(sign), reply),
    ensures
        after.nonce_of(session_id) is None,
        sign_answer(after.key(), after.nonce_of(session_id), again) == (
            ROUND_REFUSAL,
            RefuseReason::BadKeyset@,
        ),
{
}

/// The holder does not sign blindly: a request that the membrane refuses gets no share.
pub proof fn refused_request_gets_no_share(key: Seq<u8>, nonce: Option<Seq<u8>>, sign: SignRequest)
    requires
        sign.verdict is Err,
    ensures
        sign_answer(key, nonce, Some(sign)).0 == ROUND_REFUSAL,
{
}

/// A live nonce is never replaced: a request to commit in a session that has one leaves it, and
/// leaves every other session's.
pub proof fn live_nonce_is_never_replaced(
    before: RemoteHolderServer,
    after: RemoteHolderServer,
    session_id: u64,
    other: u64,
    reply: CoSignEvent,
)
    requires
        before.committed(after, session_id, reply),
        before.open_nonces().contains_key(other),
    ensures
        after.open_nonces().contains_key(other),
        after.open_nonces()[other] == before.open_nonces()[other],
{
    if other != session_id && !before.open_nonces().contains_key(session_id) && reply.round
        == ROUND_COMMITMENT {
        assert(after.open_nonces().remove(session_id)[other] == before.open_nonces()[other]);
        assert(after.open_nonces().remove(session_id).contains_key(other));
    }
}

/// What crosses the wire from a holder: a refusal, a nonce's public commitments, or a signature
/// share.
pub proof fn holder_replies_are_public(
    before: RemoteHolderServer,
    after: RemoteHolderServer,
    session_id: u64,
    sign: Option<SignRequest>,
    reply: CoSignEvent,
)
    requires
        before.committed(after, session_id, reply) || before.signed(
            after,
            session_id,
            sign,
            reply,
        ),
    ensures
        reply.round == ROUND_REFUSAL || (reply.round == ROUND_COMMITMENT
            && frost::commitments_form(reply.payload@)) || (reply.round == ROUND_SHARE
            && frost::share_form(reply.payload@)),
{
}

// ---------------------------------------------------------------------------------------------
// A link in one process
// ---------------------------------------------------------------------------------------------
/// A link to a holder's server in the same process: it logs what crosses, in both directions, and
/// reads none of it.
pub struct InProcessHolderLink {
    server: RemoteHolderServer,
    inbox: Vec<CoSignEvent>,
    wire_log: Vec<CoSignEvent>,
    read_ahead: Option<SignRequest>,
    requests: Ghost<Seq<CoSignEvent>>,
    replies: Ghost<Seq<CoSignEvent>>,
    failures: Ghost<Seq<Seq<char>>>,
}

/// Whether two frames are the same on the wire.
pub open spec fn same_frame(a: CoSignEvent, b: CoSignEvent) -> bool {
    a.session_id == b.session_id && a.from@ == b.from@ && a.round == b.round && a.payload@
        == b.payload@
}

fn copy_frame(e: &CoSignEvent) -> (r: CoSignEvent)
    ensures
        same_frame(r, *e),
{
    CoSignEvent {
        session_id: e.session_id,
        from: bytes::copy_bytes(e.from.as_slice()),
        round: e.round,
        payload: bytes::copy_bytes(e.payload.as_slice()),
    }
}

impl InProcessHolderLink {
    /// The server behind the link.
    pub closed spec fn far_end(&self) -> RemoteHolderServer {
        self.server
    }

    /// The replies that wait.
    pub closed spec fn waiting(&self) -> Seq<CoSignEvent> {
        self.inbox@
    }

    /// What has crossed.
    pub closed spec fn crossed(&self) -> Seq<CoSignEvent> {
        self.wire_log@
    }

    /// The requests among what has crossed.
    pub closed spec fn asked(&self) -> Seq<CoSignEvent> {
        self.requests@
    }

    /// The replies that were taken.
    pub closed spec fn taken(&self) -> Seq<CoSignEvent> {
        self.replies@
    }

    /// The failures that were reported.
    pub closed spec fn reported(&self) -> Seq<Seq<char>> {
        self.failures@
    }

    /// The sign request that the next request's payload will be read as.
    pub closed spec fn reads_next(&self) -> Option<SignRequest> {
        self.read_ahead
    }

    /// Whether `after` is this link once `event` was delivered, its payload read as `sign`: the
    /// request and the server's reply have crossed, and the reply waits behind the others.
    pub open spec fn delivered(
        &self,
        after: InProcessHolderLink,
        event: CoSignEvent,
        sign: Option<SignRequest>,
    ) -> bool {
        &&& after.asked() == self.asked().push(event)
        &&& after.taken() == self.taken()
        &&& after.reported() == self.reported()
        &&& after.crossed().len() == self.crossed().len() + 2
        &&& after.crossed().take(self.crossed().len() as int) == self.crossed()
        &&& same_frame(after.crossed()[self.crossed().len() as int], event)
        &&& same_frame(after.crossed().last(), after.waiting().last())
        &&& after.waiting().len() == self.waiting().len() + 1
        &&& after.waiting().drop_last() == self.waiting()
        &&& answered(
            self.far_end(),
            after.far_end(),
            event.session_id,
            event.round,
            sign,
            after.waiting().last(),
        )
    }

    /// A link to `server`.
    pub fn new(server: RemoteHolderServer) -> (r: Self)
        ensures
            r.far_end() == server,
            r.waiting().len() == 0,
            r.crossed().len() == 0,
            r.asked().len() == 0,
            r.taken().len() == 0,
            r.reported().len() == 0,
            r.reads_next() is None,
    {
        InProcessHolderLink {
            server,
            inbox: Vec::new(),
            wire_log: Vec::new(),
            read_ahead: None,
            requests: Ghost(Seq::empty()),
            replies: Ghost(Seq::empty()),
            failures: Ghost(Seq::empty()),
        }
    }

    /// Hold the sign request that the next request's payload will be read as.
    pub fn read_next_as(&mut self, sign: SignRequest)
        ensures
            final(self).far_end() == old(self).far_end(),
            final(self).waiting() == old(self).waiting(),
            final(self).crossed() == old(self).crossed(),
            final(self).asked() == old(self).asked(),
            final(self).taken() == old(self).taken(),
            final(self).reported() == old(self).reported(),
            final(self).reads_next() == Some(sign),
    {
        self.read_ahead = Some(sign);
    }

    /// What has crossed the link.
    pub fn wire_log(&self) -> (r: &Vec<CoSignEvent>)
        ensures
            r@ == self.crossed(),
    {
        &self.wire_log
    }

    /// The holder's identifier.
    pub fn holder_id(&self) -> (r: u16)
        ensures
            r == self.far_end().holder(),
    {
        self.server.id()
    }

    /// The public keys that the holder's membrane goes by.
    pub fn holder_pubkeys(&self) -> (r: &Vec<u8>)
        ensures
            r@ == self.far_end().pubkeys(),
    {
        self.server.own_pubkeys()
    }

    /// Send a request, and queue the server's reply. `sign` is the sign request that the payload
    /// holds, as the holder reads it.
    pub fn deliver(&mut self, event: CoSignEvent, sign: Option<SignRequest>)
        ensures
            old(self).delivered(*final(self), event, sign),
            final(self).reads_next() == old(self).reads_next(),
    {
        self.wire_log.push(copy_frame(&event));
        proof {
            self.requests@ = self.requests@.push(event);
        }
        let reply = self.server.handle(event, sign);
        self.wire_log.push(copy_frame(&reply));
        self.inbox.push(reply);
        assert(self.wire_log@.take(old(self).wire_log@.len() as int) =~= old(self).wire_log@);
        assert(self.inbox@.drop_last() =~= old(self).inbox@);
    }

    /// The next reply, if one waits.
    pub fn take_reply(&mut self) -> (r: Option<CoSignEvent>)
        ensures
            final(self).far_end() == old(self).far_end(),
            final(self).crossed() == old(self).crossed(),
            final(self).asked() == old(self).asked(),
            final(self).reported() == old(self).reported(),
            final(self).reads_next() == old(self).reads_next(),
            match r {
                Some(reply) => {
                    &&& old(self).waiting().len() > 0
                    &&& reply == old(self).waiting()[0]
                    &&& final(self).waiting() == old(self).waiting().skip(1)
                    &&& final(self).taken() == old(self).taken().push(reply)
                },
                None => {
                    &&& old(self).waiting().len() == 0
                    &&& final(self).waiting() == old(self).waiting()
                    &&& final(self).taken() == old(self).taken()
                },
            },
    {
        if self.inbox.len() == 0 {
            return None;
        }
        let reply = self.inbox.remove(0);
        assert(self.inbox@ =~= old(self).inbox@.skip(1));
        proof {
            self.replies@ = self.replies@.push(reply);
        }
        Some(reply)
    }
}

impl HolderTransport for InProcessHolderLink {
    closed spec fn sent(&self) -> Frames {
        self.asked()
    }

    closed spec fn received(&self) -> Frames {
        self.taken()
    }

    closed spec fn failed(&self) -> Failures {
        self.reported()
    }

    fn send(&mut self, event: CoSignEvent) -> (r: Result<(), String>)
        ensures
            r is Ok,
            old(self).delivered(*final(self), event, old(self).reads_next()),
            final(self).reads_next() is None,
    {
        let sign = self.read_ahead.take();
        self.deliver(event, sign);
        Ok(())
    }

    fn recv(&mut self) -> (r: Result<CoSignEvent, String>)
        ensures
            final(self).far_end() == old(self).far_end(),
            final(self).crossed() == old(self).crossed(),
            final(self).asked() == old(self).asked(),
            final(self).reads_next() == old(self).reads_next(),
            match r {
                Ok(reply) => {
                    &&& old(self).waiting().len() > 0
                    &&& reply == old(self).waiting()[0]
                    &&& final(self).waiting() == old(self).waiting().skip(1)
                    &&& final(self).taken() == old(self).taken().push(reply)
                    &&& final(self).reported() == old(self).reported()
                },
                Err(why) => {
                    &&& old(self).waiting().len() == 0
                    &&& final(self).waiting() == old(self).waiting()
                    &&& final(self).taken() == old(self).taken()
                    &&& final(self).reported() == old(self).reported().push(why@)
                    &&& why@ == "no reply queued from the remote holder"@
                },
            },
    {
        match self.take_reply() {
            Some(reply) => Ok(reply),
            None => {
                let why = "no reply queued from the remote holder".to_owned();
                proof {
                    self.failures@ = self.failures@.push(why@);
                }
                Err(why)
            },
        }
    }
}

// ---------------------------------------------------------------------------------------------
// What the calls come to
// ---------------------------------------------------------------------------------------------
/// The rounds as they go over the wire: each has its own number.
pub proof fn rounds_have_their_numbers()
    ensures
        ROUND_COMMITMENT == 1,
        ROUND_PACKAGE == 2,
        ROUND_SHARE == 3,
        ROUND_COMMIT_REQUEST == 10,
        ROUND_REFUSAL == 11,
        ROUND_PROBE == 12,
        ROUND_PROBE_ACK == 13,
        ROUND_ECDH_REQUEST == 14,
        ROUND_ECDH_CONTRIBUTION == 15,
        ROUND_ECDH_REFUSAL == 16,
        COORDINATOR_ID == 65535,
{
}

/// A ceremony with one holder: asked to commit in a new session, it answers with the commitments of a
/// nonce that its own key makes; asked to sign in that session what its membrane lets pass, it answers
/// with the share that this nonce and its own key give over the package. Asked to sign once more it
/// refuses, for the nonce is gone.
pub proof fn holder_signs_with_the_nonce_it_committed_to(
    opening: &mut RemoteHolderServer,
    signing: &mut RemoteHolderServer,
    again: &mut RemoteHolderServer,
    request: CoSignEvent,
    commitment: CoSignEvent,
    package: CoSignEvent,
    sign: SignRequest,
    answer: CoSignEvent,
    repeated: CoSignEvent,
    unread: Option<SignRequest>,
    second: SignRequest,
    refusal: CoSignEvent,
)
    requires
        request.round == 10,
        package.round == 2,
        repeated.round == 2,
        package.session_id == request.session_id,
        repeated.session_id == request.session_id,
        !old(opening).open_nonces().contains_key(request.session_id),
        call_ensures(RemoteHolderServer::handle, (opening, request, unread), commitment),
        *final(opening) == *old(signing),
        sign.verdict is Ok,
        call_ensures(RemoteHolderServer::handle, (signing, package, Some(sign)), answer),
        *final(signing) == *old(again),
        call_ensures(RemoteHolderServer::handle, (again, repeated, Some(second)), refusal),
    ensures
        commitment.round == 1 || commitment.round == 11,
        commitment.round == 1 ==> exists|draw: Seq<u8>, nonce: Seq<u8>|
            {
                &&& #[trigger] frost::drawn_for(old(opening).key(), draw) == Some(
                    (nonce, commitment.payload@),
                )
                &&& match #[trigger] frost::signature_share(
                    sign.package@,
                    nonce,
                    old(opening).key(),
                ) {
                    Some(share) => answer.round == 3 && answer.payload@ == share,
                    None => answer.round == 11,
                }
            },
        commitment.round == 11 ==> answer.round == 11,
        refusal.round == 11,
        refusal.payload@ == vstd::utf8::encode_utf8("\"BadKeyset\""@),
{
    let session_id = request.session_id;
    let before = *old(opening);
    let after = *final(opening);
    let draw = choose|draw: Seq<u8>| #[trigger]
        before.committed_from(after, session_id, commitment, draw);
    assert(before.committed_from(after, session_id, commitment, draw));
    if commitment.round == 1 {
        let nonce = after.open_nonces()[session_id]@;
        assert(frost::drawn_for(before.key(), draw) == Some((nonce, commitment.payload@)));
        assert(after.nonce_of(session_id) == Some(nonce));
        let share = frost::signature_share(sign.package@, nonce, before.key());
        assert(share is Some ==> answer.payload@ == share->0);
    }
}

/// Sessions do not disturb each other: whatever a holder is asked in one session, the nonce of every
/// other open session stays, and none is opened elsewhere. The holder stays the same.
pub proof fn sessions_do_not_disturb_each_other(
    server: &mut RemoteHolderServer,
    event: CoSignEvent,
    sign: Option<SignRequest>,
    reply: CoSignEvent,
    other: u64,
)
    requires
        call_ensures(RemoteHolderServer::handle, (server, event, sign), reply),
        other != event.session_id,
    ensures
        final(server).open_nonces().contains_key(other) == old(server).open_nonces().contains_key(
            other,
        ),
        old(server).open_nonces().contains_key(other) ==> final(server).open_nonces()[other] == old(server).open_nonces()[other],
        final(server).key() == old(server).key(),
        final(server).pubkeys() == old(server).pubkeys(),
        final(server).holder() == old(server).holder(),
{
    let before = *old(server);
    let after = *final(server);
    if event.round == 10 && !before.open_nonces().contains_key(event.session_id) {
        let draw = choose|draw: Seq<u8>| #[trigger]
            before.committed_from(after, event.session_id, reply, draw);
        assert(before.committed_from(after, event.session_id, reply, draw));
        if frost::drawn_for(before.key(), draw) is Some {
            assert(after.open_nonces().dom().contains(other) == before.open_nonces().dom().contains(
                other,
            ));
            assert(after.open_nonces().remove(event.session_id) == before.open_nonces());
            assert(before.open_nonces().contains_key(other) ==> after.open_nonces().remove(
                event.session_id,
            )[other] == after.open_nonces()[other]);
        }
    }
}

/// Every reply is the holder's own, in the session it was asked in. A request to commit in an open
/// session, a request that is neither to commit nor to sign, a sign request without a nonce and one
/// that does not read are refused; one that the membrane refuses is refused with what the membrane
/// said, and costs the nonce.
pub proof fn holder_refuses_what_it_must(
    server: &mut RemoteHolderServer,
    event: CoSignEvent,
    sign: Option<SignRequest>,
    reply: CoSignEvent,
)
    requires
        call_ensures(RemoteHolderServer::handle, (server, event, sign), reply),
    ensures
        reply.session_id == event.session_id,
        reply.from@.len() == 32,
        reply.from@[30] * 256 + reply.from@[31] == old(server).holder(),
        ({
            let open = old(server).open_nonces().contains_key(event.session_id);
            let plain = vstd::utf8::encode_utf8("\"BadKeyset\""@);
            &&& event.round == 10 && open ==> reply.round == 11 && reply.payload@ == plain && final(server).open_nonces() == old(server).open_nonces()
            &&& event.round != 10 && event.round != 2 ==> reply.round == 11 && reply.payload@
                == plain && final(server).open_nonces() == old(server).open_nonces()
            &&& event.round == 2 && sign is None ==> reply.round == 11 && reply.payload@ == plain
                && final(server).open_nonces() == old(server).open_nonces()
            &&& event.round == 2 && !open ==> reply.round == 11 && reply.payload@ == plain
            &&& event.round == 2 && sign is Some ==> !final(server).open_nonces().contains_key(
                event.session_id,
            )
            &&& event.round == 2 && open && sign is Some && sign->0.verdict is Err ==> reply.round
                == 11 && reply.payload@ == sign->0.verdict->Err_0@
            &&& reply.round == 3 ==> event.round == 2 && open && sign is Some && sign->0.verdict
                is Ok
            &&& reply.round == 1 ==> event.round == 10 && !open
        }),
{
    let before = *old(server);
    let after = *final(server);
    let id = before.holder();
    assert(reply.from@[30] == (id / 256) as u8 && reply.from@[31] == (id % 256) as u8);
    if event.round == 10 && !before.open_nonces().contains_key(event.session_id) {
        let draw = choose|draw: Seq<u8>| #[trigger]
            before.committed_from(after, event.session_id, reply, draw);
        assert(before.committed_from(after, event.session_id, reply, draw));
    }
}

/// A server is of the share it was given, and starts without a session.
pub proof fn new_server_is_of_its_share(
    key_package: Vec<u8>,
    own_pubkeys: Vec<u8>,
    r: Option<RemoteHolderServer>,
    id: u16,
    session_id: u64,
)
    requires
        call_ensures(RemoteHolderServer::new, (key_package, own_pubkeys), r),
        r is Some ==> call_ensures(RemoteHolderServer::id, (&r->0,), id),
    ensures
        r is Some <==> frost::holder_of(key_package@) is Some,
        r matches Some(s) ==> s.key() == key_package@ && s.pubkeys() == own_pubkeys@ && Some(id)
            == frost::holder_of(key_package@) && !s.open_nonces().contains_key(session_id),
{
}

/// What a drawn nonce opens: the commitments are the reply, the nonce is kept for that session, and a
/// session that is open keeps the nonce it has.
pub proof fn opened_session_keeps_its_nonce(
    server: &mut RemoteHolderServer,
    session_id: u64,
    nonces: Vec<u8>,
    commitments: Vec<u8>,
    reply: CoSignEvent,
)
    requires
        call_ensures(
            RemoteHolderServer::open_session,
            (server, session_id, Some((nonces, commitments))),
            reply,
        ),
    ensures
        reply.session_id == session_id,
        !old(server).open_nonces().contains_key(session_id) ==> reply.round == 1 && reply.payload@
            == commitments@ && final(server).open_nonces().contains_key(session_id) && final(server).open_nonces()[session_id] == nonces,
        old(server).open_nonces().contains_key(session_id) ==> reply.round == 11 && final(server).open_nonces() == old(server).open_nonces(),
{
}

/// The coordinator takes commitments and shares from the holder it asked, in the session it asked in,
/// and only in the round they belong to; what it takes is the payload as it came.
pub proof fn only_the_asked_holders_reply_counts(
    id: u16,
    session_id: u64,
    reply: CoSignEvent,
    commitments: Result<Vec<u8>, CommitFault>,
    share: Result<Vec<u8>, RefuseReason>,
)
    requires
        call_ensures(read_commit_reply, (id, session_id, reply), commitments),
        call_ensures(read_sign_reply, (id, session_id, reply), share),
    ensures
        ({
            let from = reply.from@;
            let asked = reply.session_id == session_id && id != 0 && from
                == frost::identifier_bytes(id);
            &&& commitments is Ok <==> asked && reply.round == 1 && frost::commitments_form(
                reply.payload@,
            )
            &&& share is Ok <==> asked && reply.round == 3 && frost::share_form(reply.payload@)
            &&& asked && reply.round == 11 && refusal_decodes(reply.payload@) ==> share is Err
                && share->Err_0@ == reply.payload@ && (commitments matches Err(
                CommitFault::Refused(reason),
            ) && reason@ == reply.payload@)
            &&& !asked ==> share is Err && share->Err_0 is BadKeyset && commitments is Err
        }),
        reply.session_id != session_id ==> (commitments matches Err(
            CommitFault::SessionMismatch { asked, got },
        ) && asked == session_id && got == reply.session_id),
        commitments matches Err(CommitFault::UnexpectedRound(round)) ==> round == reply.round && round
            != 1 && round != 11,
        commitments matches Ok(c) ==> c@ == reply.payload@,
        share matches Ok(s) ==> s@ == reply.payload@,
{
    if id != 0 {
        frost::identifier_round_trip(id);
    }
    frost::small_identifier_is_its_bytes(reply.from@);
}

/// What a proxy sends: one request, from the coordinator, in the asked session; to commit it carries
/// nothing, to sign it carries the given payload. What it returns is read from the one reply that
/// came back.
pub proof fn proxy_asks_its_holder<T: HolderTransport>(
    committing: &mut RemoteHolder<T>,
    signing: &mut RemoteHolder<T>,
    session_id: u64,
    payload: Vec<u8>,
    commitments: Result<Vec<u8>, CommitFault>,
    share: Result<Vec<u8>, RefuseReason>,
)
    requires
        call_ensures(RemoteHolder::<T>::commit, (committing, session_id), commitments),
        call_ensures(RemoteHolder::<T>::validate_and_sign, (signing, session_id, payload), share),
    ensures
        final(committing).holder() == old(committing).holder(),
        final(signing).holder() == old(signing).holder(),
        ({
            let sent = final(committing).link().sent();
            &&& sent.len() == old(committing).link().sent().len() + 1
            &&& sent.last().session_id == session_id
            &&& sent.last().round == 10
            &&& sent.last().payload@.len() == 0
            &&& sent.last().from@ == frost::identifier_bytes(65535)
        }),
        ({
            let sent = final(signing).link().sent();
            &&& sent.len() == old(signing).link().sent().len() + 1
            &&& sent.last().session_id == session_id
            &&& sent.last().round == 2
            &&& sent.last().payload@ == payload@
            &&& sent.last().from@ == frost::identifier_bytes(65535)
        }),
        commitments matches Ok(c) ==> {
            let reply = final(committing).link().received().last();
            &&& final(committing).link().received().len() == old(committing).link().received().len() + 1
            &&& reply.session_id == session_id
            &&& frost::small_identifier(reply.from@) == Some(old(committing).holder())
            &&& reply.round == 1
            &&& c@ == reply.payload@
        },
        share matches Ok(s) ==> {
            let reply = final(signing).link().received().last();
            &&& final(signing).link().received().len() == old(signing).link().received().len() + 1
            &&& reply.session_id == session_id
            &&& frost::small_identifier(reply.from@) == Some(old(signing).holder())
            &&& reply.round == 3
            &&& s@ == reply.payload@
        },
{
}

/// A refusal comes back: what a holder gives as its reason is what the coordinator reads, and what is
/// no reason is read as the plain one.
pub proof fn refusal_comes_back(
    reason: RefuseReason,
    wire: Vec<u8>,
    payload: &[u8],
    decoded: Option<RefuseReason>,
    read: RefuseReason,
)
    requires
        call_ensures(RefuseReason::to_payload, (&reason,), wire),
        payload@ == wire@,
        call_ensures(RefuseReason::decode, (payload,), decoded),
        call_ensures(RefuseReason::from_payload, (payload,), read),
    ensures
        reason is BadKeyset ==> wire@ == vstd::utf8::encode_utf8("\"BadKeyset\""@) && read
            is BadKeyset && decoded == Some(RefuseReason::BadKeyset),
        reason matches RefuseReason::Membrane(said) ==> wire@ == said@,
        decoded is Some ==> read@ == wire@ && decoded->0@ == wire@,
        decoded is None ==> read is BadKeyset,
        decoded is Some && wire@ != vstd::utf8::encode_utf8("\"BadKeyset\""@) ==> (
        decoded matches Some(RefuseReason::Membrane(said)) && said@ == wire@)
            && crypto::json_form(wire@),
{
}

/// The link hands replies out in the order in which they came, each once, and hands each request to the
/// server behind it: what a delivered request is answered with waits behind what waited before.
pub proof fn link_hands_replies_out_in_order(
    sending: &mut InProcessHolderLink,
    taking: &mut InProcessHolderLink,
    event: CoSignEvent,
    sign: Option<SignRequest>,
    r: Option<CoSignEvent>,
)
    requires
        call_ensures(InProcessHolderLink::deliver, (sending, event, sign), ()),
        *final(sending) == *old(taking),
        call_ensures(InProcessHolderLink::take_reply, (taking,), r),
    ensures
        r is Some,
        old(sending).waiting().len() > 0 ==> r->0 == old(sending).waiting()[0],
        old(sending).waiting().len() == 0 ==> r->0.session_id == event.session_id && r->0.from@
            == frost::identifier_bytes(old(sending).far_end().holder()) && final(taking).waiting().len() == 0,
        final(taking).far_end() == final(sending).far_end(),
        final(taking).far_end().key() == old(sending).far_end().key(),
        final(sending).crossed().len() == old(sending).crossed().len() + 2,
        final(taking).crossed() == final(sending).crossed(),
{
    let w = final(sending).waiting();
    assert(w.drop_last() == old(sending).waiting());
    if old(sending).waiting().len() > 0 {
        assert(w.drop_last()[0] == w[0]);
    }
}

/// What is read ahead is what the next request is read as, and reading ahead sends nothing: no reply
/// waits that did not wait before, and nothing has crossed.
pub proof fn reading_ahead_sends_nothing(
    link: &mut InProcessHolderLink,
    sign: SignRequest,
    log_before: &Vec<CoSignEvent>,
    log_after: &Vec<CoSignEvent>,
    r: (),
)
    requires
        call_ensures(InProcessHolderLink::wire_log, (&*old(link),), log_before),
        call_ensures(InProcessHolderLink::read_next_as, (link, sign), r),
        call_ensures(InProcessHolderLink::wire_log, (&*final(link),), log_after),
    ensures
        log_after@ == log_before@,
        final(link).reads_next() == Some(sign),
        final(link).waiting() == old(link).waiting(),
        final(link).far_end() == old(link).far_end(),
{
}

/// The log of a link holds each request that was sent, in its place, and behind it the reply that then
/// waits.
pub proof fn log_holds_requests_and_replies(
    link: &mut InProcessHolderLink,
    event: CoSignEvent,
    sign: Option<SignRequest>,
    log_before: &Vec<CoSignEvent>,
    log_after: &Vec<CoSignEvent>,
    r: (),
    i: int,
)
    requires
        call_ensures(InProcessHolderLink::wire_log, (&*old(link),), log_before),
        call_ensures(InProcessHolderLink::deliver, (link, event, sign), r),
        call_ensures(InProcessHolderLink::wire_log, (&*final(link),), log_after),
    ensures
        log_after@.len() == log_before@.len() + 2,
        0 <= i < log_before@.len() ==> log_after@[i] == log_before@[i],
        ({
            let n = log_before@.len() as int;
            &&& log_after@[n].session_id == event.session_id
            &&& log_after@[n].round == event.round
            &&& log_after@[n].payload@ == event.payload@
            &&& log_after@[n].from@ == event.from@
            &&& log_after@[n + 1].payload@ == final(link).waiting().last().payload@
            &&& log_after@[n + 1].session_id == event.session_id
        }),
{
    let n = log_before@.len() as int;
    if 0 <= i < n {
        assert(log_after@.take(n)[i] == log_before@[i]);
    }
}

/// A link is its server's: it goes by the server's identifier and by the server's public keys.
pub proof fn link_goes_by_its_server(
    server: RemoteHolderServer,
    link: InProcessHolderLink,
    id: u16,
    server_id: u16,
    keys: &Vec<u8>,
    server_keys: &Vec<u8>,
)
    requires
        call_ensures(InProcessHolderLink::new, (server,), link),
        call_ensures(InProcessHolderLink::holder_id, (&link,), id),
        call_ensures(RemoteHolderServer::id, (&server,), server_id),
        call_ensures(InProcessHolderLink::holder_pubkeys, (&link,), keys),
        call_ensures(RemoteHolderServer::own_pubkeys, (&server,), server_keys),
    ensures
        id == server_id,
        keys@ == server_keys@,
        link.crossed().len() == 0,
        link.waiting().len() == 0,
        link.reads_next() is None,
{
}

/// One call of a proxy is one exchange: what was sent and received before stays as it was, a transport
/// that fails is reported in its own words and brings no reply, and a reply comes without a failure.
pub proof fn proxy_keeps_to_one_exchange<T: HolderTransport>(
    committing: &mut RemoteHolder<T>,
    signing: &mut RemoteHolder<T>,
    session_id: u64,
    payload: Vec<u8>,
    commitments: Result<Vec<u8>, CommitFault>,
    share: Result<Vec<u8>, RefuseReason>,
    i: int,
)
    requires
        call_ensures(RemoteHolder::<T>::commit, (committing, session_id), commitments),
        call_ensures(RemoteHolder::<T>::validate_and_sign, (signing, session_id, payload), share),
    ensures
        0 <= i < old(committing).link().sent().len() ==> final(committing).link().sent()[i] == old(committing).link().sent()[i],
        0 <= i < old(committing).link().received().len() ==> final(committing).link().received()[i] == old(committing).link().received()[i],
        0 <= i < old(committing).link().failed().len() ==> final(committing).link().failed()[i]
            == old(committing).link().failed()[i],
        commitments matches Err(CommitFault::Transport(why)) ==> {
            &&& final(committing).link().received() == old(committing).link().received()
            &&& final(committing).link().failed().len() == old(committing).link().failed().len() + 1
            &&& why@ == final(committing).link().failed().last()
        },
        !(commitments matches Err(CommitFault::Transport(_))) ==> {
            &&& final(committing).link().failed() == old(committing).link().failed()
            &&& final(committing).link().received().len() == old(committing).link().received().len()
                + 1
        },
        0 <= i < old(signing).link().sent().len() ==> final(signing).link().sent()[i] == old(signing).link().sent()[i],
        0 <= i < old(signing).link().received().len() ==> final(signing).link().received()[i]
            == old(signing).link().received()[i],
        0 <= i < old(signing).link().failed().len() ==> final(signing).link().failed()[i] == old(signing).link().failed()[i],
        final(signing).link().failed() != old(signing).link().failed() ==> {
            &&& final(signing).link().failed().len() == old(signing).link().failed().len() + 1
            &&& final(signing).link().received() == old(signing).link().received()
            &&& share matches Err(reason) && reason is BadKeyset
        },
        final(signing).link().failed() == old(signing).link().failed() ==> final(signing).link().received().len() == old(signing).link().received().len() + 1,
{
    let b = final(committing).link();
    lemma_kept_in_front(b.sent(), i);
    lemma_kept_in_front(b.received(), i);
    lemma_kept_in_front(b.failed(), i);
    let d = final(signing).link();
    lemma_kept_in_front(d.sent(), i);
    lemma_kept_in_front(d.received(), i);
    lemma_kept_in_front(d.failed(), i);
}

proof fn lemma_kept_in_front<A>(s: Seq<A>, i: int)
    ensures
        0 <= i < s.len() - 1 ==> s.drop_last()[i] == s[i],
{
}

proof fn lemma_first_mark(white: Seq<u8>, mark: u8, rest: Seq<u8>)
    requires
        forall|i: int|
            0 <= i < white.len() ==> {
                let c = #[trigger] white[i];
                c == 32 || c == 9 || c == 10 || c == 13
            },
        mark != 32 && mark != 9 && mark != 10 && mark != 13,
    ensures
        first_mark(white + seq![mark] + rest) == Some(mark),
    decreases white.len(),
{
    let all = white + seq![mark] + rest;
    if white.len() > 0 {
        let shorter = white.skip(1);
        assert forall|i: int| 0 <= i < shorter.len() implies {
            let c = #[trigger] shorter[i];
            c == 32 || c == 9 || c == 10 || c == 13
        } by {
            assert(shorter[i] == white[i + 1]);
        }
        assert(all[0] == white[0]);
        assert(all.skip(1) =~= shorter + seq![mark] + rest);
        lemma_first_mark(shorter, mark, rest);
    } else {
        assert(all[0] == mark);
    }
}

/// A membrane's reason is JSON that opens, behind white space, with a quote or a brace: with either it
/// is read, with another mark it is none.
pub proof fn reason_is_a_string_or_an_object(
    white: Seq<u8>,
    mark: u8,
    rest: Seq<u8>,
    payload: &[u8],
    decoded: Option<RefuseReason>,
)
    requires
        call_ensures(RefuseReason::decode, (payload,), decoded),
        payload@ == white + seq![mark] + rest,
        payload@ != vstd::utf8::encode_utf8("\"BadKeyset\""@),
        forall|i: int|
            0 <= i < white.len() ==> {
                let c = #[trigger] white[i];
                c == 32 || c == 9 || c == 10 || c == 13
            },
        mark != 32 && mark != 9 && mark != 10 && mark != 13,
    ensures
        decoded is Some <==> crypto::json_form(payload@) && (mark == '"' as u8 || mark == '{' as u8),
        decoded matches Some(reason) ==> reason is Membrane && reason@ == payload@,
{
    lemma_first_mark(white, mark, rest);
}

/// A fault's line begins with its holder and says what was wrong; a transport's failure speaks for
/// itself.
pub proof fn fault_says_what_was_wrong(fault: CommitFault, id: u16, r: String)
    requires
        call_ensures(CommitFault::message, (&fault, id), r),
    ensures
        ({
            let head = "remote holder "@ + text::decimal(id as nat);
            match fault {
                CommitFault::Transport(e) => r@ == e@,
                CommitFault::SessionMismatch { asked, got } => r@ == head + (
                " round-1 reply session mismatch (asked "@ + text::decimal(asked as nat)
                    + ", got "@ + text::decimal(got as nat) + ")"@),
                CommitFault::WrongSender { from } => {
                    frost::small_identifier(from@) matches Some(sender) ==> r@ == head + (
                    " round-1 reply came from "@ + text::decimal(sender as nat) + " (expected "@
                        + text::decimal(id as nat) + ")"@)
                },
                CommitFault::Undecodable(why) => r@ == head + (" commitment decode: "@ + why@),
                CommitFault::Refused(_) => (head + " REFUSED at round 1 ("@).is_prefix_of(r@),
                CommitFault::UndecodableRefusal => r@ == head
                    + " refusal decode: not the JSON of a reason"@,
                CommitFault::UnexpectedRound(round) => r@ == head + (
                " round-1 reply has unexpected round "@ + text::decimal(round as nat)),
            }
        }),
{
    let head = "remote holder "@ + text::decimal(id as nat);
    if let CommitFault::Refused(reason) = fault {
        let start = head + " REFUSED at round 1 ("@;
        assert(r@ =~= start + (reason_name(reason@) + ")"@));
        assert(r@.take(start.len() as int) =~= start);
    }
}

/// A refusal's line gives the reason that the wire quotes, without the quotes, character by character;
/// what is not quoted it gives as it is.
pub proof fn refusal_is_named_by_its_reason(
    name: Seq<u8>,
    quoted: bool,
    named: Seq<char>,
    said: Vec<u8>,
    id: u16,
    r: String,
)
    requires
        call_ensures(
            CommitFault::message,
            (&CommitFault::Refused(RefuseReason::Membrane(said)), id),
            r,
        ),
        quoted ==> said@ == seq!['"' as u8] + name + seq!['"' as u8],
        !quoted ==> said@ == name && !(name.len() >= 2 && name[0] == 34 && name.last() == 34),
        named.len() == name.len(),
        forall|i: int|
            0 <= i < name.len() ==> (#[trigger] name[i]) < 128 && named[i] == name[i] as char,
    ensures
        r@ == "remote holder "@ + text::decimal(id as nat) + (" REFUSED at round 1 ("@ + named
            + ")"@),
{
    if quoted {
        assert(said@.subrange(1, said@.len() - 1) =~= name);
    }
    assert(ascii(name) =~= named);
}

/// Commitments are taken where nothing is wrong with them, and where something is, the fault says what.
pub proof fn faulty_commitments_are_refused(
    id: u16,
    session_id: u64,
    reply: CoSignEvent,
    r: Result<Vec<u8>, CommitFault>,
)
    requires
        call_ensures(read_commit_reply, (id, session_id, reply), r),
        reply.session_id == session_id,
        frost::small_identifier(reply.from@) == Some(id),
        reply.round == 1,
    ensures
        frost::commitments_fault(reply.payload@) is None ==> r is Ok && r->Ok_0@ == reply.payload@,
        frost::commitments_fault(reply.payload@) matches Some(why) ==> (r matches Err(
            CommitFault::Undecodable(said),
        ) && said@ == why),
{
}

} // verus!
