//! Which reply goes to whom: the coordinator's routes, and what a relay connection lets through.
//!
//! Threads, channels and sockets are the caller's. A route leads to a channel, which is a number
//! that the caller chose.
use vstd::prelude::*;
use vstd::string::StringExecFns;

use crate::crypto;
use crate::keyed::KeyedRows;
use crate::nostr;
use crate::nostr::NostrEvent;
use crate::relay_frames;
use crate::relay_frames::{BadAddress, CoSignWire, DecodedFrame};
use crate::remote_holder::{
    CoSignEvent, ROUND_ECDH_CONTRIBUTION, ROUND_ECDH_REFUSAL, ROUND_PROBE_ACK,
};
use crate::sessions::{SessionKey, SessionTable};
use crate::signing;
use crate::signing::NodeKeys;
use crate::text;

verus! {

/// How long a coordinator waits for a reply, in seconds.
pub const DEFAULT_WIRE_TIMEOUT_SECS: u64 = 10;

/// What a transport is for.
#[derive(Debug, Clone, Copy, PartialEq, Eq, Structural)]
pub enum Scope {
    /// Signing: one route per holder.
    Signing,
    /// One probe.
    Probe(u64),
    /// One key agreement.
    Ecdh(u64),
}

/// A connection to a holder.
#[derive(Debug)]
pub struct RelayHolderTransport {
    /// The holder's transport key.
    pub holder: String,
    /// The channel that its replies come in by.
    pub channel: u64,
    pub scope: Scope,
}

/// Where replies go: signing replies by their sender, and the replies of a probe or a key agreement
/// by their sender and session. The three never share a route.
pub struct Routes {
    pub signing: Map<Seq<char>, u64>,
    pub probes: Map<SessionKey, u64>,
    pub ecdh: Map<SessionKey, u64>,
}

/// The channel for a reply.
pub open spec fn route_for(routes: Routes, sender: Seq<char>, session_id: u64, round: u8) -> Option<
    u64,
> {
    let key: SessionKey = (sender, session_id, 0u8);
    if round == ROUND_PROBE_ACK {
        if routes.probes.contains_key(key) {
            Some(routes.probes[key])
        } else {
            None
        }
    } else if round == ROUND_ECDH_CONTRIBUTION || round == ROUND_ECDH_REFUSAL {
        if routes.ecdh.contains_key(key) {
            Some(routes.ecdh[key])
        } else {
            None
        }
    } else if routes.signing.contains_key(sender) {
        Some(routes.signing[sender])
    } else {
        None
    }
}

/// The routes with one more.
pub open spec fn with_route(routes: Routes, holder: Seq<char>, scope: Scope, channel: u64) -> Routes {
    match scope {
        Scope::Signing => Routes { signing: routes.signing.insert(holder, channel), ..routes },
        Scope::Probe(session) => Routes {
            probes: routes.probes.insert((holder, session, 0u8), channel),
            ..routes
        },
        Scope::Ecdh(session) => Routes {
            ecdh: routes.ecdh.insert((holder, session, 0u8), channel),
            ..routes
        },
    }
}

/// The routes after a transport is gone. A signing route stays.
pub open spec fn without_route(routes: Routes, holder: Seq<char>, scope: Scope) -> Routes {
    match scope {
        Scope::Signing => routes,
        Scope::Probe(session) => Routes {
            probes: routes.probes.remove((holder, session, 0u8)),
            ..routes
        },
        Scope::Ecdh(session) => Routes {
            ecdh: routes.ecdh.remove((holder, session, 0u8)),
            ..routes
        },
    }
}

/// The coordinator of an agent's holders: its key, its agent and its routes.
pub struct CoordinatorRelayHub {
    coordinator_keys: NodeKeys,
    agent_id: String,
    signing_routes: KeyedRows<u64>,
    probe_routes: SessionTable,
    ecdh_routes: SessionTable,
}

impl CoordinatorRelayHub {
    /// The agent.
    pub closed spec fn agent(&self) -> Seq<char> {
        self.agent_id@
    }

    /// The coordinator's transport key.
    pub closed spec fn key(&self) -> Seq<char> {
        self.coordinator_keys.public()
    }

    /// The routes.
    pub closed spec fn routes(&self) -> Routes {
        Routes {
            signing: self.signing_routes@,
            probes: self.probe_routes@,
            ecdh: self.ecdh_routes@,
        }
    }

    /// A hub without routes.
    pub fn start(coordinator_keys: NodeKeys, agent_id: &str) -> (r: Self)
        ensures
            r.agent() == agent_id@,
            r.key() == coordinator_keys.public(),
            r.routes() == (Routes {
                signing: Map::empty(),
                probes: Map::empty(),
                ecdh: Map::empty(),
            }),
    {
        CoordinatorRelayHub {
            coordinator_keys,
            agent_id: agent_id.to_owned(),
            signing_routes: KeyedRows::new(),
            probe_routes: SessionTable::new(),
            ecdh_routes: SessionTable::new(),
        }
    }

    fn connect_scoped(&mut self, address: &str, scope: Scope, channel: u64) -> (r: Result<
        RelayHolderTransport,
        BadAddress,
    >)
        ensures
            final(self).agent() == old(self).agent(),
            final(self).key() == old(self).key(),
            connected(*old(self), *final(self), address@, scope, channel, r),
    {
        let holder = match relay_frames::parse_holder_address(address) {
            Ok(a) => a.pubkey,
            Err(e) => return Err(e),
        };
        match scope {
            Scope::Signing => {
                self.signing_routes.insert(holder.as_str(), channel);
            },
            Scope::Probe(session) => {
                self.probe_routes.insert(holder.as_str(), session, 0, channel);
            },
            Scope::Ecdh(session) => {
                self.ecdh_routes.insert(holder.as_str(), session, 0, channel);
            },
        }
        Ok(RelayHolderTransport { holder, channel, scope })
    }

    /// Connect to a holder for signing. Its replies come in by `channel` from now on.
    pub fn connect(&mut self, address: &str, channel: u64) -> (r: Result<
        RelayHolderTransport,
        BadAddress,
    >)
        ensures
            final(self).agent() == old(self).agent(),
            final(self).key() == old(self).key(),
            connected(*old(self), *final(self), address@, Scope::Signing, channel, r),
    {
        self.connect_scoped(address, Scope::Signing, channel)
    }

    /// Connect to a holder for one probe.
    pub fn connect_probe(&mut self, address: &str, session_id: u64, channel: u64) -> (r: Result<
        RelayHolderTransport,
        BadAddress,
    >)
        ensures
            final(self).agent() == old(self).agent(),
            final(self).key() == old(self).key(),
            connected(*old(self), *final(self), address@, Scope::Probe(session_id), channel, r),
    {
        self.connect_scoped(address, Scope::Probe(session_id), channel)
    }

    /// Connect to a holder for one key agreement.
    pub fn connect_ecdh(&mut self, address: &str, session_id: u64, channel: u64) -> (r: Result<
        RelayHolderTransport,
        BadAddress,
    >)
        ensures
            final(self).agent() == old(self).agent(),
            final(self).key() == old(self).key(),
            connected(*old(self), *final(self), address@, Scope::Ecdh(session_id), channel, r),
    {
        self.connect_scoped(address, Scope::Ecdh(session_id), channel)
    }

    /// A transport is gone: a probe's and a key agreement's route goes with it.
    pub fn disconnect(&mut self, transport: &RelayHolderTransport)
        ensures
            final(self).agent() == old(self).agent(),
            final(self).key() == old(self).key(),
            final(self).routes() == without_route(
                old(self).routes(),
                transport.holder@,
                transport.scope,
            ),
    {
        match transport.scope {
            Scope::Signing => {},
            Scope::Probe(session) => {
                self.probe_routes.remove(transport.holder.as_str(), session, 0);
            },
            Scope::Ecdh(session) => {
                self.ecdh_routes.remove(transport.holder.as_str(), session, 0);
            },
        }
    }

    /// The signed event that takes a frame to a holder.
    pub fn request(&self, transport: &RelayHolderTransport, event: &CoSignEvent) -> (r: NostrEvent)
        ensures
            relay_frames::is_frame_event(
                r,
                self.agent(),
                self.key(),
                transport.holder@,
                *event,
            ),
    {
        relay_frames::encode_cosign_frame(
            self.agent_id.as_str(),
            event,
            transport.holder.as_str(),
            &self.coordinator_keys,
        )
    }

    /// Where an inbound event goes: a reply of this agent's holders to its channel, and everything
    /// else nowhere.
    pub fn demux(&self, event: &NostrEvent, wire: Option<CoSignWire>) -> (r: Option<
        (u64, CoSignEvent),
    >)
        ensures
            match r {
                Some((channel, cosign)) => {
                    &&& relay_frames::frame_error(*event, wire) is None
                    &&& wire->0.agent_id@ == self.agent()
                    &&& route_for(
                        self.routes(),
                        signing::public_key_of(event.pubkey@)->0,
                        cosign.session_id,
                        cosign.round,
                    ) == Some(channel)
                    &&& exists|d: DecodedFrame|
                        d.cosign == cosign && #[trigger] relay_frames::is_frame_of(
                            d,
                            *event,
                            wire->0,
                        )
                },
                None => {
                    ||| relay_frames::frame_error(*event, wire) is Some
                    ||| wire->0.agent_id@ != self.agent()
                    ||| route_for(
                        self.routes(),
                        signing::public_key_of(event.pubkey@)->0,
                        wire->0.session_id,
                        wire->0.round,
                    ) is None
                },
            },
    {
        let d = match relay_frames::decode_cosign_frame(event, wire) {
            Ok(d) => d,
            Err(_) => return None,
        };
        if !text::str_eq(d.agent_id.as_str(), self.agent_id.as_str()) {
            return None;
        }
        let session: u64 = d.cosign.session_id;
        let route: Option<u64> = if d.cosign.round == ROUND_PROBE_ACK {
            self.probe_routes.get(d.sender.as_str(), session, 0)
        } else if d.cosign.round == ROUND_ECDH_CONTRIBUTION || d.cosign.round
            == ROUND_ECDH_REFUSAL {
            self.ecdh_routes.get(d.sender.as_str(), session, 0)
        } else {
            match self.signing_routes.get(d.sender.as_str()) {
                Some(c) => Some(*c),
                None => None,
            }
        };
        match route {
            Some(channel) => {
                assert(relay_frames::is_frame_of(d, *event, wire->0));
                Some((channel, d.cosign))
            },
            None => None,
        }
    }
}

/// What connecting does: a good address gives a transport and one more route, a bad one nothing.
pub open spec fn connected(
    before: CoordinatorRelayHub,
    after: CoordinatorRelayHub,
    address: Seq<char>,
    scope: Scope,
    channel: u64,
    r: Result<RelayHolderTransport, BadAddress>,
) -> bool {
    match signing::public_key_of(text::trim(relay_frames::address_key(address))) {
        Some(holder) => {
            &&& r is Ok
            &&& r->Ok_0.holder@ == holder
            &&& r->Ok_0.channel == channel
            &&& r->Ok_0.scope == scope
            &&& after.routes() == with_route(before.routes(), holder, scope, channel)
        },
        None => r is Err && after.routes() == before.routes(),
    }
}

/// A probe and a live ceremony keep their routes: connecting for a probe or a key agreement, or
/// letting go of it, changes nothing for the signing replies of any holder.
pub proof fn session_routes_leave_signing_replies(
    routes: Routes,
    holder: Seq<char>,
    scope: Scope,
    channel: u64,
    sender: Seq<char>,
    session_id: u64,
    round: u8,
)
    requires
        scope != Scope::Signing,
        round != ROUND_PROBE_ACK,
        round != ROUND_ECDH_CONTRIBUTION,
        round != ROUND_ECDH_REFUSAL,
    ensures
        route_for(with_route(routes, holder, scope, channel), sender, session_id, round)
            == route_for(routes, sender, session_id, round),
        route_for(without_route(routes, holder, scope), sender, session_id, round) == route_for(
            routes,
            sender,
            session_id,
            round,
        ),
{
}

/// And the other way round: connecting for signing changes nothing for the replies of a probe or a
/// key agreement, and neither of these for the other's.
pub proof fn signing_routes_leave_session_replies(
    routes: Routes,
    holder: Seq<char>,
    scope: Scope,
    channel: u64,
    sender: Seq<char>,
    session_id: u64,
)
    ensures
        !(scope is Probe) ==> route_for(
            with_route(routes, holder, scope, channel),
            sender,
            session_id,
            ROUND_PROBE_ACK,
        ) == route_for(routes, sender, session_id, ROUND_PROBE_ACK),
        !(scope is Ecdh) ==> route_for(
            with_route(routes, holder, scope, channel),
            sender,
            session_id,
            ROUND_ECDH_CONTRIBUTION,
        ) == route_for(routes, sender, session_id, ROUND_ECDH_CONTRIBUTION),
{
}

/// The answer to a probe finds its probe, and no other: it comes in by the channel of the probe of
/// its session.
pub proof fn probe_answer_finds_its_probe(
    routes: Routes,
    holder: Seq<char>,
    session_id: u64,
    channel: u64,
    other: u64,
    other_channel: u64,
)
    requires
        session_id != other,
    ensures
        route_for(
            with_route(
                with_route(routes, holder, Scope::Probe(session_id), channel),
                holder,
                Scope::Probe(other),
                other_channel,
            ),
            holder,
            session_id,
            ROUND_PROBE_ACK,
        ) == Some(channel),
        route_for(
            without_route(
                with_route(routes, holder, Scope::Probe(session_id), channel),
                holder,
                Scope::Probe(session_id),
            ),
            holder,
            session_id,
            ROUND_PROBE_ACK,
        ) is None,
{
}

// ---------------------------------------------------------------------------------------------
// The relay connection
// ---------------------------------------------------------------------------------------------
/// How many events a connection remembers.
pub const SEEN_EVENT_CAP: usize = 4096;

/// The events seen lately, the oldest first: a frame that comes over several relays counts once.
pub struct SeenEvents {
    order: Vec<String>,
}

impl View for SeenEvents {
    type V = Seq<Seq<char>>;

    closed spec fn view(&self) -> Seq<Seq<char>> {
        text::views(self.order@)
    }
}

/// The events remembered after one more.
pub open spec fn remembered(seen: Seq<Seq<char>>, id: Seq<char>) -> Seq<Seq<char>> {
    if seen.contains(id) {
        seen
    } else if seen.len() >= SEEN_EVENT_CAP {
        seen.push(id).skip(1)
    } else {
        seen.push(id)
    }
}

impl SeenEvents {
    #[verifier::type_invariant]
    spec fn bounded(&self) -> bool {
        self.order@.len() <= SEEN_EVENT_CAP
    }

    /// Nothing seen yet.
    pub fn new() -> (r: Self)
        ensures
            r@.len() == 0,
    {
        SeenEvents { order: Vec::new() }
    }

    /// Record an event. Returns whether it is seen for the first time.
    pub fn first_sight(&mut self, id: &str) -> (r: bool)
        ensures
            r == !old(self)@.contains(id@),
            final(self)@ == remembered(old(self)@, id@),
            final(self)@.len() <= SEEN_EVENT_CAP,
    {
        proof {
            use_type_invariant(&*self);
        }
        if text::names_contain(&self.order, id) {
            return false;
        }
        let mut order: Vec<String> = Vec::new();
        std::mem::swap(&mut order, &mut self.order);
        let ghost before = order@;
        text::push_str(&mut order, id);
        if order.len() > SEEN_EVENT_CAP {
            let _old = order.remove(0);
            assert(text::views(order@) =~= text::views(before).push(id@).skip(1));
        }
        self.order = order;
        true
    }
}

/// A frame is yielded once: seen again before the cap's worth of others, it is a duplicate.
pub proof fn duplicate_is_suppressed(seen: Seq<Seq<char>>, id: Seq<char>)
    requires
        seen.len() <= SEEN_EVENT_CAP,
    ensures
        remembered(seen, id).contains(id),
        remembered(remembered(seen, id), id) == remembered(seen, id),
{
    if !seen.contains(id) {
        let all = seen.push(id);
        if seen.len() >= SEEN_EVENT_CAP {
            assert(all.skip(1)[seen.len() - 1] == id);
        } else {
            assert(all[seen.len() as int] == id);
        }
    }
}

/// A connection to a set of relays, for one transport key.
pub struct NostrRelayConn {
    me: String,
    relays: Vec<String>,
    seen: SeenEvents,
}

/// Why a connection cannot be made.
#[derive(Debug, Clone, Copy, PartialEq, Eq, Structural)]
pub enum ConnError {
    /// The address is no address.
    BadAddress,
    /// There is no relay to connect to.
    NoRelay,
}

/// What a relay pool reports.
#[derive(Debug)]
pub enum PoolNotice {
    /// An event with this id.
    Event(String),
    /// Another message.
    Message,
    /// Notices were lost.
    Lagged,
    /// The pool is gone.
    Shutdown,
    /// The stream of notices is closed.
    Closed,
}

/// What a notice calls for.
#[derive(Debug, Clone, Copy, PartialEq, Eq, Structural)]
pub enum PoolStep {
    /// Hand the event on.
    Yield,
    /// Wait for the next notice.
    Wait,
    /// The connection is over.
    Stop,
}

/// A frame reached no relay.
#[derive(Debug, Clone, Copy, PartialEq, Eq, Structural)]
pub struct ReachedNoRelay {
    pub failed: usize,
}

/// A frame is published if one relay took it at least.
pub fn published(success: usize, failed: usize) -> (r: Result<(), ReachedNoRelay>)
    ensures
        r == if success == 0 {
            Err::<(), ReachedNoRelay>(ReachedNoRelay { failed })
        } else {
            Ok(())
        },
{
    if success == 0 {
        Err(ReachedNoRelay { failed })
    } else {
        Ok(())
    }
}

impl NostrRelayConn {
    /// The transport key whose frames the connection takes.
    pub closed spec fn own_key(&self) -> Seq<char> {
        self.me@
    }

    /// The relays.
    pub closed spec fn reach(&self) -> Seq<Seq<char>> {
        text::views(self.relays@)
    }

    /// The events seen lately.
    pub closed spec fn lately(&self) -> Seq<Seq<char>> {
        self.seen@
    }

    /// A connection for `me`. Fails without a relay.
    pub fn new(me: String, relays: Vec<String>) -> (r: Result<Self, ConnError>)
        ensures
            match r {
                Ok(c) => {
                    &&& relays@.len() > 0
                    &&& c.own_key() == me@
                    &&& c.reach() == text::views(relays@)
                    &&& c.lately().len() == 0
                },
                Err(e) => relays@.len() == 0 && e == ConnError::NoRelay,
            },
    {
        if relays.len() == 0 {
            return Err(ConnError::NoRelay);
        }
        Ok(NostrRelayConn { me, relays, seen: SeenEvents::new() })
    }

    /// A connection for the holder of an address, over its relays.
    pub fn from_address(address: &str) -> (r: Result<Self, ConnError>)
        ensures
            ({
                let key = signing::public_key_of(text::trim(relay_frames::address_key(address@)));
                let relays = relay_frames::relays_of(
                    relay_frames::parts(relay_frames::address_reach(address@), ','),
                );
                match r {
                    Ok(c) => key == Some(c.own_key()) && relays.len() > 0 && c.reach() == relays
                        && c.lately().len() == 0,
                    Err(ConnError::BadAddress) => key is None,
                    Err(ConnError::NoRelay) => key is Some && relays.len() == 0,
                }
            }),
    {
        match relay_frames::parse_holder_address(address) {
            Ok(a) => {
                assert(text::views(a.relays@).len() == a.relays@.len());
                Self::new(a.pubkey, a.relays)
            },
            Err(_) => Err(ConnError::BadAddress),
        }
    }

    /// The relays.
    pub fn relays(&self) -> (r: &Vec<String>)
        ensures
            text::views(r@) == self.reach(),
    {
        &self.relays
    }

    /// The name of the connection's one subscription. Subscribing again takes its place.
    pub fn subscription_id(&self) -> (r: String)
        ensures
            r@ == "kirby-frost-cosign-"@ + self.own_key(),
    {
        let mut s = "kirby-frost-cosign-".to_owned();
        s.append(self.me.as_str());
        s
    }

    /// What a notice calls for. An event is handed on the first time it is seen; lost notices do not
    /// end the connection.
    pub fn on_notice(&mut self, notice: &PoolNotice) -> (r: PoolStep)
        ensures
            final(self).own_key() == old(self).own_key(),
            final(self).reach() == old(self).reach(),
            match notice {
                PoolNotice::Event(id) => {
                    &&& r == if old(self).lately().contains(id@) {
                        PoolStep::Wait
                    } else {
                        PoolStep::Yield
                    }
                    &&& final(self).lately() == remembered(old(self).lately(), id@)
                },
                PoolNotice::Message | PoolNotice::Lagged => r == PoolStep::Wait
                    && final(self).lately() == old(self).lately(),
                PoolNotice::Shutdown | PoolNotice::Closed => r == PoolStep::Stop
                    && final(self).lately() == old(self).lately(),
            },
    {
        match notice {
            PoolNotice::Event(id) => {
                if self.seen.first_sight(id.as_str()) {
                    PoolStep::Yield
                } else {
                    PoolStep::Wait
                }
            },
            PoolNotice::Message => PoolStep::Wait,
            PoolNotice::Lagged => PoolStep::Wait,
            PoolNotice::Shutdown => PoolStep::Stop,
            PoolNotice::Closed => PoolStep::Stop,
        }
    }
}

// ---------------------------------------------------------------------------------------------
// Replies and their channels
// ---------------------------------------------------------------------------------------------
/// Connecting to one holder for signing leaves every other holder's signing route, and gives that
/// holder its own.
pub proof fn signing_routes_are_kept_per_holder(
    routes: Routes,
    holder: Seq<char>,
    channel: u64,
    sender: Seq<char>,
    session_id: u64,
    round: u8,
)
    requires
        round != ROUND_PROBE_ACK,
        round != ROUND_ECDH_CONTRIBUTION,
        round != ROUND_ECDH_REFUSAL,
    ensures
        sender != holder ==> route_for(
            with_route(routes, holder, Scope::Signing, channel),
            sender,
            session_id,
            round,
        ) == route_for(routes, sender, session_id, round),
        sender == holder ==> route_for(
            with_route(routes, holder, Scope::Signing, channel),
            sender,
            session_id,
            round,
        ) == Some(channel),
{
}

/// A quorum with several remote holders can sign: after two holders were connected, one after the
/// other, the signing replies of the first come in by its channel and those of the second by its
/// own.
pub proof fn each_holder_answers_by_its_own_channel(
    first: &mut CoordinatorRelayHub,
    second: &mut CoordinatorRelayHub,
    address_a: &str,
    channel_a: u64,
    a: RelayHolderTransport,
    address_b: &str,
    channel_b: u64,
    b: RelayHolderTransport,
    event: NostrEvent,
    wire: CoSignWire,
    r: Option<(u64, CoSignEvent)>,
)
    requires
        call_ensures(CoordinatorRelayHub::connect, (first, address_a, channel_a), Ok(a)),
        *final(first) == *old(second),
        call_ensures(CoordinatorRelayHub::connect, (second, address_b, channel_b), Ok(b)),
        a.holder@ != b.holder@,
        wire.round != ROUND_PROBE_ACK,
        wire.round != ROUND_ECDH_CONTRIBUTION,
        wire.round != ROUND_ECDH_REFUSAL,
        wire.agent_id@ == old(first).agent(),
        relay_frames::frame_error(event, Some(wire)) is None,
        call_ensures(CoordinatorRelayHub::demux, (&*final(second), &event, Some(wire)), r),
    ensures
        signing::public_key_of(event.pubkey@) == Some(a.holder@) ==> r is Some && (r->0).0
            == channel_a,
        signing::public_key_of(event.pubkey@) == Some(b.holder@) ==> r is Some && (r->0).0
            == channel_b,
{
}

/// Connecting for signing changes nothing for any reply but the signing replies of that holder:
/// every other inbound event goes where it went before, or nowhere as before.
pub proof fn connecting_moves_no_other_reply(
    hub: &mut CoordinatorRelayHub,
    address: &str,
    channel: u64,
    t: Result<RelayHolderTransport, BadAddress>,
    event: NostrEvent,
    wire: Option<CoSignWire>,
    before: Option<(u64, CoSignEvent)>,
    after: Option<(u64, CoSignEvent)>,
)
    requires
        call_ensures(CoordinatorRelayHub::connect, (hub, address, channel), t),
        call_ensures(CoordinatorRelayHub::demux, (&*old(hub), &event, wire), before),
        call_ensures(CoordinatorRelayHub::demux, (&*final(hub), &event, wire), after),
        t is Err || signing::public_key_of(event.pubkey@) != Some(t->Ok_0.holder@) || (wire is Some
            && (wire->0.round == ROUND_PROBE_ACK || wire->0.round == ROUND_ECDH_CONTRIBUTION
            || wire->0.round == ROUND_ECDH_REFUSAL)),
    ensures
        before is Some <==> after is Some,
        before is Some ==> (before->0).0 == (after->0).0,
{
    if signing::authentic(event) {
        signing::author_is_a_public_key(event);
    }
}

/// A probe's answer and a key agreement's contribution find the session they belong to: they come in
/// by the channel that was connected for it, and once that transport is gone they go nowhere. The
/// other way round, no signing reply comes in by such a channel because of it.
pub proof fn session_replies_find_their_session(
    hub: &mut CoordinatorRelayHub,
    gone: &mut CoordinatorRelayHub,
    address: &str,
    session_id: u64,
    channel: u64,
    ecdh: bool,
    t: RelayHolderTransport,
    event: NostrEvent,
    wire: CoSignWire,
    during: Option<(u64, CoSignEvent)>,
    after: Option<(u64, CoSignEvent)>,
)
    requires
        ecdh ==> call_ensures(
            CoordinatorRelayHub::connect_ecdh,
            (hub, address, session_id, channel),
            Ok(t),
        ),
        !ecdh ==> call_ensures(
            CoordinatorRelayHub::connect_probe,
            (hub, address, session_id, channel),
            Ok(t),
        ),
        *final(hub) == *old(gone),
        call_ensures(CoordinatorRelayHub::disconnect, (gone, &t), ()),
        relay_frames::frame_error(event, Some(wire)) is None,
        wire.agent_id@ == old(hub).agent(),
        wire.session_id == session_id,
        ecdh ==> wire.round == ROUND_ECDH_CONTRIBUTION || wire.round == ROUND_ECDH_REFUSAL,
        !ecdh ==> wire.round == ROUND_PROBE_ACK,
        signing::public_key_of(event.pubkey@) == Some(t.holder@),
        call_ensures(CoordinatorRelayHub::demux, (&*final(hub), &event, Some(wire)), during),
        call_ensures(CoordinatorRelayHub::demux, (&*final(gone), &event, Some(wire)), after),
    ensures
        during is Some,
        (during->0).0 == channel,
        after is None,
{
}

/// A started hub lets nothing through, and no hub ever lets through what is not an authentic frame
/// of its agent.
pub proof fn only_frames_of_the_agent_come_in(
    keys: NodeKeys,
    agent_id: &str,
    fresh: CoordinatorRelayHub,
    hub: CoordinatorRelayHub,
    event: NostrEvent,
    wire: Option<CoSignWire>,
    unconnected: Option<(u64, CoSignEvent)>,
    r: Option<(u64, CoSignEvent)>,
)
    requires
        call_ensures(CoordinatorRelayHub::start, (keys, agent_id), fresh),
        call_ensures(CoordinatorRelayHub::demux, (&fresh, &event, wire), unconnected),
        call_ensures(CoordinatorRelayHub::demux, (&hub, &event, wire), r),
    ensures
        unconnected is None,
        fresh.agent() == agent_id@,
        fresh.key() == keys.public(),
        r is Some ==> signing::authentic(event) && event.kind == 21004 && wire is Some
            && wire->0.agent_id@ == hub.agent(),
        r is Some ==> (r->0).1.session_id == wire->0.session_id && (r->0).1.round == wire->0.round
            && crypto::is_hex(wire->0.payload_hex@) && (r->0).1.payload@ == crypto::hex_bytes(
            wire->0.payload_hex@,
        ),
{
}

/// A transport is the holder's of its address: its key stands before the `@`, and the transport
/// keeps the channel and what it is for. An address without a key gives none.
pub proof fn transport_is_the_holders_of_its_address(
    hub: &mut CoordinatorRelayHub,
    address: &str,
    session_id: u64,
    channel: u64,
    key: Seq<char>,
    reach: Seq<char>,
    signing_r: Result<RelayHolderTransport, BadAddress>,
    probe_r: Result<RelayHolderTransport, BadAddress>,
    ecdh_r: Result<RelayHolderTransport, BadAddress>,
)
    requires
        address@ == key + seq!['@'] + reach,
        !key.contains('@'),
        call_ensures(CoordinatorRelayHub::connect, (hub, address, channel), signing_r),
        call_ensures(
            CoordinatorRelayHub::connect_probe,
            (hub, address, session_id, channel),
            probe_r,
        ),
        call_ensures(
            CoordinatorRelayHub::connect_ecdh,
            (hub, address, session_id, channel),
            ecdh_r,
        ),
    ensures
        signing_r is Ok <==> signing::public_key_of(text::trim(key)) is Some,
        probe_r is Ok <==> signing_r is Ok,
        ecdh_r is Ok <==> signing_r is Ok,
        signing_r matches Ok(t) ==> signing::public_key_of(text::trim(key)) == Some(t.holder@)
            && t.channel == channel && t.scope == Scope::Signing,
        probe_r matches Ok(t) ==> signing::public_key_of(text::trim(key)) == Some(t.holder@)
            && t.channel == channel && t.scope == Scope::Probe(session_id),
        ecdh_r matches Ok(t) ==> signing::public_key_of(text::trim(key)) == Some(t.holder@)
            && t.channel == channel && t.scope == Scope::Ecdh(session_id),
{
    relay_frames::key_stands_before_the_at(key, reach);
}

/// A request goes to the transport's holder, signed by the coordinator: it is an authentic co-sign
/// event that carries the agent, the session, the round, the sender and the payload of the frame.
pub proof fn request_goes_to_the_transports_holder(
    hub: CoordinatorRelayHub,
    transport: RelayHolderTransport,
    event: CoSignEvent,
    r: NostrEvent,
)
    requires
        call_ensures(CoordinatorRelayHub::request, (&hub, &transport, &event), r),
        transport.holder@ != hub.key(),
    ensures
        signing::authentic(r),
        r.kind == 21004,
        r.pubkey@ == hub.key(),
        nostr::tag_views(r.tags@)[0] == seq!["p"@, transport.holder@],
        nostr::tag_views(r.tags@).contains(seq!["a"@, hub.agent()]),
        exists|wire: CoSignWire| #[trigger]
            relay_frames::wire_json(wire) == r.content@ && wire.agent_id@ == hub.agent()
                && wire.session_id == event.session_id && wire.round == event.round && wire.from@
                == crypto::hex_text(event.from@) && wire.payload_hex@ == crypto::hex_text(
                event.payload@,
            ),
{
    relay_frames::frame_tags_are_kept(transport.holder@, hub.agent(), hub.key());
    let tags = nostr::tag_views(r.tags@);
    assert(tags[2] == seq!["a"@, hub.agent()]);
}

/// A frame that reaches one relay is published, one that reaches none is not.
pub proof fn one_relay_is_enough(success: usize, failed: usize, r: Result<(), ReachedNoRelay>)
    requires
        call_ensures(published, (success, failed), r),
    ensures
        r is Ok <==> success > 0,
        r matches Err(e) ==> e.failed == failed,
{
}

/// A connection hands each event on once: the first sight of an id is handed on, every further sight
/// is not, as long as fewer than the cap's worth of others came between. Seeing one event makes no
/// other one a duplicate.
pub proof fn event_is_handed_on_once(
    conn: &mut NostrRelayConn,
    again: &mut NostrRelayConn,
    id: String,
    other: String,
    first: PoolStep,
    second: PoolStep,
)
    requires
        old(conn).lately().len() <= 4096,
        call_ensures(NostrRelayConn::on_notice, (conn, &PoolNotice::Event(id)), first),
        *final(conn) == *old(again),
        call_ensures(NostrRelayConn::on_notice, (again, &PoolNotice::Event(other)), second),
    ensures
        !old(conn).lately().contains(id@) ==> first == PoolStep::Yield,
        old(conn).lately().contains(id@) ==> first == PoolStep::Wait,
        other@ == id@ ==> second == PoolStep::Wait,
        other@ != id@ && !old(conn).lately().contains(other@) ==> second == PoolStep::Yield,
        other@ != id@ && old(conn).lately().contains(other@) && old(conn).lately().len() < 4096
            ==> second == PoolStep::Wait,
{
    let seen = old(conn).lately();
    duplicate_is_suppressed(seen, id@);
    if !seen.contains(id@) {
        let all = seen.push(id@);
        if seen.contains(other@) {
            let i = choose|i: int| 0 <= i < seen.len() && seen[i] == other@;
            assert(all[i] == other@);
        }
    }
}

/// A full memory forgets its oldest event for a new one, and no other: what stood behind the oldest is
/// still a duplicate, and the oldest, once forgotten, would be handed on again.
pub proof fn full_memory_forgets_the_oldest(
    conn: &mut NostrRelayConn,
    again: &mut NostrRelayConn,
    id: String,
    other: String,
    first: PoolStep,
    second: PoolStep,
    i: int,
)
    requires
        old(conn).lately().len() == 4096,
        !old(conn).lately().contains(id@),
        call_ensures(NostrRelayConn::on_notice, (conn, &PoolNotice::Event(id)), first),
        *final(conn) == *old(again),
        call_ensures(NostrRelayConn::on_notice, (again, &PoolNotice::Event(other)), second),
        0 <= i < 4096,
        other@ == old(conn).lately()[i],
    ensures
        i > 0 ==> second == PoolStep::Wait,
        (forall|k: int| 0 < k < 4096 ==> (#[trigger] old(conn).lately()[k]) != other@)
            ==> second == PoolStep::Yield,
        final(conn).lately().len() == 4096,
{
    let seen = old(conn).lately();
    let kept = seen.push(id@).skip(1);
    assert(final(conn).lately() == kept);
    if i > 0 {
        assert(kept[i - 1] == seen[i]);
    }
    if forall|k: int| 0 < k < 4096 ==> (#[trigger] seen[k]) != other@ {
        if kept.contains(other@) {
            let k = choose|k: int| 0 <= k < kept.len() && kept[k] == other@;
            if k < 4095 {
                assert(kept[k] == seen[k + 1]);
            } else {
                assert(kept[k] == id@);
                assert(seen.contains(other@));
            }
        }
    }
}

/// A connection is for its own key over its own relays: made for a key, or for the holder of an
/// address, it has that key and those relays, has seen nothing, and subscribes under a name of its
/// own. Without a relay there is none.
pub proof fn connection_is_for_its_key_and_relays(
    me: String,
    relays: Vec<String>,
    r: Result<NostrRelayConn, ConnError>,
    name: String,
    listed: &Vec<String>,
    address: &str,
    by_address: Result<NostrRelayConn, ConnError>,
    parsed: Result<relay_frames::HolderAddress, BadAddress>,
)
    requires
        call_ensures(NostrRelayConn::new, (me, relays), r),
        r is Ok ==> call_ensures(NostrRelayConn::subscription_id, (&r->Ok_0,), name),
        r is Ok ==> call_ensures(NostrRelayConn::relays, (&r->Ok_0,), listed),
        call_ensures(NostrRelayConn::from_address, (address,), by_address),
        call_ensures(relay_frames::parse_holder_address, (address,), parsed),
    ensures
        r is Ok <==> relays@.len() > 0,
        r matches Err(e) ==> e == ConnError::NoRelay,
        r is Ok ==> name@ == "kirby-frost-cosign-"@ + me@ && text::views(listed@) == text::views(
            relays@,
        ) && r->Ok_0.own_key() == me@ && r->Ok_0.lately().len() == 0,
        parsed is Err <==> by_address == Err::<NostrRelayConn, _>(ConnError::BadAddress),
        parsed matches Ok(a) ==> (a.relays@.len() == 0 <==> by_address == Err::<NostrRelayConn, _>(
            ConnError::NoRelay,
        )),
        by_address matches Ok(c) ==> parsed is Ok && c.own_key() == parsed->Ok_0.pubkey@
            && c.reach() == text::views(parsed->Ok_0.relays@),
{
    if parsed is Ok {
        assert(text::views(parsed->Ok_0.relays@).len() == parsed->Ok_0.relays@.len());
    }
}

/// A connection keeps going through other messages and lost notices, and is over once the pool is
/// gone or the stream closed. Neither makes it forget an event.
pub proof fn only_the_pools_end_ends_a_connection(
    conn: &mut NostrRelayConn,
    notice: PoolNotice,
    r: PoolStep,
)
    requires
        call_ensures(NostrRelayConn::on_notice, (conn, &notice), r),
    ensures
        r == PoolStep::Stop <==> notice is Shutdown || notice is Closed,
        notice is Message || notice is Lagged ==> r == PoolStep::Wait,
        !(notice is Event) ==> final(conn).lately() == old(conn).lately(),
        final(conn).own_key() == old(conn).own_key(),
        final(conn).reach() == old(conn).reach(),
{
}

/// A round over the wire is waited for at most ten seconds.
pub proof fn wire_wait_is_bounded()
    ensures
        DEFAULT_WIRE_TIMEOUT_SECS == 10,
{
}

} // verus!
