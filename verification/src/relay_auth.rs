//! Who may drive a holder, and when: the coordinator gate, the lease that keeps it open, and the
//! guard against replays.
use vstd::prelude::*;

use crate::keyed::KeyedRows;
use crate::nostr;
use crate::nostr::{NostrEvent, KIND_KIRBY_LEASE};
use crate::relay_frames;
use crate::relay_frames::{CoSignWire, DecodedFrame, FrameError};
use crate::relay_lease;
use crate::remote_holder;
use crate::remote_holder::{CoSignEvent, RemoteHolderServer, SignRequest};
use crate::sessions;
use crate::sessions::{SessionKey, SessionTable};
use crate::signing;
use crate::signing::NodeKeys;
use crate::text;

verus! {

// ---------------------------------------------------------------------------------------------
// The lease view
// ---------------------------------------------------------------------------------------------
/// What a holder reads in a lease's content.
#[derive(Debug)]
pub struct LeaseFreshness {
    pub agent_id: String,
    pub term: u64,
    pub issued_at: u64,
}

/// The term and time of the latest lease seen.
#[derive(Debug, Clone, Copy, PartialEq, Eq, Structural)]
pub struct LeaseMark {
    pub term: u64,
    pub issued_at: u64,
}

/// The latest lease seen of each agent.
pub struct LeaseView {
    marks: KeyedRows<LeaseMark>,
}

impl View for LeaseView {
    type V = Map<Seq<char>, LeaseMark>;

    closed spec fn view(&self) -> Map<Seq<char>, LeaseMark> {
        self.marks@
    }
}

/// The leases seen after one more: only a higher term counts.
pub open spec fn with_lease(
    marks: Map<Seq<char>, LeaseMark>,
    agent_id: Seq<char>,
    mark: LeaseMark,
) -> Map<Seq<char>, LeaseMark> {
    if marks.contains_key(agent_id) && marks[agent_id].term >= mark.term {
        marks
    } else {
        marks.insert(agent_id, mark)
    }
}

/// Whether the lease seen of an agent is fresh at `now`. Nothing seen is not fresh.
pub open spec fn lease_is_fresh(
    marks: Map<Seq<char>, LeaseMark>,
    agent_id: Seq<char>,
    now: u64,
) -> bool {
    marks.contains_key(agent_id) && !relay_lease::stale(marks[agent_id].issued_at, now)
}

impl LeaseView {
    /// Nothing seen yet.
    pub fn new() -> (r: Self)
        ensures
            r@ == Map::<Seq<char>, LeaseMark>::empty(),
    {
        LeaseView { marks: KeyedRows::new() }
    }

    /// Fold in a lease, forward only.
    pub fn observe(&mut self, agent_id: &str, term: u64, issued_at: u64)
        ensures
            final(self)@ == with_lease(old(self)@, agent_id@, (LeaseMark { term, issued_at })),
    {
        match self.marks.get(agent_id) {
            Some(seen) => {
                if seen.term >= term {
                    return ;
                }
            },
            None => {},
        }
        self.marks.insert(agent_id, LeaseMark { term, issued_at });
    }

    /// Whether an agent has a fresh lease at `now`.
    pub fn is_fresh(&self, agent_id: &str, now: u64) -> (r: bool)
        ensures
            r == lease_is_fresh(self@, agent_id@, now),
    {
        match self.marks.get(agent_id) {
            Some(seen) => !relay_lease::is_stale(seen.issued_at, now),
            None => false,
        }
    }
}

/// Whether a lease event is to be believed: it verifies, the agent's own key `agent_q` signed it,
/// and its content and address both name the agent.
pub open spec fn believed(
    agent_q: Seq<char>,
    agent_id: Seq<char>,
    event: NostrEvent,
    content: Option<LeaseFreshness>,
) -> bool {
    &&& signing::authentic(event)
    &&& signing::public_key_of(event.pubkey@) == Some(agent_q)
    &&& event.kind == KIND_KIRBY_LEASE
    &&& content is Some
    &&& content->0.agent_id@ == agent_id
    &&& nostr::first_valued_tag(nostr::tag_views(event.tags@), "d"@) == Some(agent_id)
}

/// Verify a lease event and fold it into the view. `content` is what the event's content decodes
/// to. Returns whether the event is to be believed; its term may still be an old one.
pub fn observe_lease_frame(
    view: &mut LeaseView,
    agent_q: &str,
    agent_id: &str,
    event: &NostrEvent,
    content: Option<LeaseFreshness>,
) -> (r: bool)
    ensures
        r == believed(agent_q@, agent_id@, *event, content),
        final(view)@ == if r {
            with_lease(
                old(view)@,
                agent_id@,
                (LeaseMark { term: content->0.term, issued_at: content->0.issued_at }),
            )
        } else {
            old(view)@
        },
{
    if !signing::is_authentic(event) {
        return false;
    }
    match signing::parse_public_key(event.pubkey.as_str()) {
        Some(author) => {
            if !text::str_eq(author.as_str(), agent_q) {
                return false;
            }
        },
        None => return false,
    }
    if event.kind != KIND_KIRBY_LEASE as u32 {
        return false;
    }
    let content = match content {
        Some(c) => c,
        None => return false,
    };
    if !text::str_eq(content.agent_id.as_str(), agent_id) {
        return false;
    }
    match nostr::valued_tag(&event.tags, "d") {
        Some(d) => {
            if !text::str_eq(d.as_str(), agent_id) {
                return false;
            }
        },
        None => return false,
    }
    view.observe(agent_id, content.term, content.issued_at);
    true
}

/// The view moves forward only: whatever is observed, no agent's term falls, and no agent but the
/// one observed changes.
pub proof fn lease_view_moves_forward(
    marks: Map<Seq<char>, LeaseMark>,
    agent_id: Seq<char>,
    mark: LeaseMark,
    other: Seq<char>,
)
    requires
        marks.contains_key(other),
    ensures
        with_lease(marks, agent_id, mark).contains_key(other),
        with_lease(marks, agent_id, mark)[other].term >= marks[other].term,
        other != agent_id ==> with_lease(marks, agent_id, mark)[other] == marks[other],
{
}

// ---------------------------------------------------------------------------------------------
// The coordinator gate
// ---------------------------------------------------------------------------------------------
/// Which coordinators may drive a holder. Keys are in canonical form.
#[derive(Debug)]
pub enum CoordinatorAuthorizer {
    /// Every one. For tests.
    Anyone,
    /// The one the holder was provisioned by.
    Provisioned(String),
    /// The one the holder was provisioned by, while the agent has a fresh lease.
    ProvisionedAndLeased(String),
}

/// Whether a gate lets `sender` drive a holder of `agent_id` at `now`.
pub open spec fn entitled(
    gate: CoordinatorAuthorizer,
    marks: Map<Seq<char>, LeaseMark>,
    agent_id: Seq<char>,
    sender: Seq<char>,
    now: u64,
) -> bool {
    match gate {
        CoordinatorAuthorizer::Anyone => true,
        CoordinatorAuthorizer::Provisioned(coordinator) => sender == coordinator@,
        CoordinatorAuthorizer::ProvisionedAndLeased(coordinator) => sender == coordinator@
            && lease_is_fresh(marks, agent_id, now),
    }
}

/// Let every coordinator drive the holder.
pub fn allow_all_coordinators() -> (r: CoordinatorAuthorizer)
    ensures
        r == CoordinatorAuthorizer::Anyone,
{
    CoordinatorAuthorizer::Anyone
}

/// Let only the provisioned coordinator drive the holder.
pub fn coordinator_authorizer(coordinator: String) -> (r: CoordinatorAuthorizer)
    ensures
        r == CoordinatorAuthorizer::Provisioned(coordinator),
{
    CoordinatorAuthorizer::Provisioned(coordinator)
}

/// Let only the provisioned coordinator drive the holder, while the agent has a fresh lease.
pub fn coordinator_authorizer_with_lease(coordinator: String) -> (r: CoordinatorAuthorizer)
    ensures
        r == CoordinatorAuthorizer::ProvisionedAndLeased(coordinator),
{
    CoordinatorAuthorizer::ProvisionedAndLeased(coordinator)
}

impl CoordinatorAuthorizer {
    /// Whether `sender` may drive a holder of `agent_id` at `now`, by the leases seen.
    pub fn authorizes(&self, view: &LeaseView, agent_id: &str, sender: &str, now: u64) -> (r: bool)
        ensures
            r == entitled(*self, view@, agent_id@, sender@, now),
    {
        match self {
            CoordinatorAuthorizer::Anyone => true,
            CoordinatorAuthorizer::Provisioned(coordinator) => text::str_eq(
                sender,
                coordinator.as_str(),
            ),
            CoordinatorAuthorizer::ProvisionedAndLeased(coordinator) => text::str_eq(
                sender,
                coordinator.as_str(),
            ) && view.is_fresh(agent_id, now),
        }
    }
}

/// A rogue node is refused whatever leases are about.
pub proof fn only_the_coordinator_is_entitled(
    coordinator: String,
    marks: Map<Seq<char>, LeaseMark>,
    agent_id: Seq<char>,
    sender: Seq<char>,
    now: u64,
)
    requires
        sender != coordinator@,
    ensures
        !entitled(CoordinatorAuthorizer::Provisioned(coordinator), marks, agent_id, sender, now),
        !entitled(
            CoordinatorAuthorizer::ProvisionedAndLeased(coordinator),
            marks,
            agent_id,
            sender,
            now,
        ),
{
}

/// A coordinator whose agent's lease has lapsed is refused, and so is one whose agent was never
/// seen to hold a lease, although it is the provisioned one.
pub proof fn lapsed_lease_shuts_the_gate(
    coordinator: String,
    marks: Map<Seq<char>, LeaseMark>,
    agent_id: Seq<char>,
    now: u64,
)
    requires
        !marks.contains_key(agent_id) || now > marks[agent_id].issued_at
            + relay_lease::LEASE_TTL_SECS,
    ensures
        !entitled(
            CoordinatorAuthorizer::ProvisionedAndLeased(coordinator),
            marks,
            agent_id,
            coordinator@,
            now,
        ),
{
}

// ---------------------------------------------------------------------------------------------
// Replays
// ---------------------------------------------------------------------------------------------
/// How far a frame's time may be from now, in seconds.
pub const FRESHNESS_WINDOW_SECS: u64 = 120;

/// Why a frame is refused.
#[derive(Debug, Clone, Copy, PartialEq, Eq, Structural)]
pub enum ReplayFault {
    /// Its time is too far from now.
    Stale,
    /// Its coordinator, session and round were seen within the window.
    Replayed,
}

/// Whether a frame's time is too far from now.
pub open spec fn outside_window(created_at: u64, now: u64) -> bool {
    created_at + FRESHNESS_WINDOW_SECS < now || created_at > now + FRESHNESS_WINDOW_SECS
}

/// The later of two times.
pub open spec fn later(a: u64, b: u64) -> u64 {
    if a > b {
        a
    } else {
        b
    }
}

/// What of the record still lies within the window before `now`.
pub open spec fn in_window(seen: Map<SessionKey, u64>, now: u64) -> Map<SessionKey, u64> {
    sessions::at_least(seen, now - FRESHNESS_WINDOW_SECS)
}

/// What the guard says of a frame, and what it has seen then.
pub open spec fn screened(
    seen: Map<SessionKey, u64>,
    key: SessionKey,
    created_at: u64,
    now: u64,
) -> (Option<ReplayFault>, Map<SessionKey, u64>) {
    if outside_window(created_at, now) {
        (Some(ReplayFault::Stale), seen)
    } else if in_window(seen, now).contains_key(key) {
        (Some(ReplayFault::Replayed), in_window(seen, now))
    } else {
        (None, in_window(seen, now).insert(key, later(created_at, now)))
    }
}

/// The frames seen lately, by coordinator, session and round. Each stands under the time it was let
/// through, or under its own time where that is later, and so it stays on record for as long as it
/// is fresh.
pub struct ReplayGuard {
    seen: SessionTable,
}

impl View for ReplayGuard {
    type V = Map<SessionKey, u64>;

    closed spec fn view(&self) -> Map<SessionKey, u64> {
        self.seen@
    }
}

impl ReplayGuard {
    /// Nothing seen yet.
    pub fn new() -> (r: Self)
        ensures
            r@ == Map::<SessionKey, u64>::empty(),
    {
        ReplayGuard { seen: SessionTable::new() }
    }

    /// Let a frame through and record it, or say why it is refused. What is older than the window is
    /// forgotten on the way.
    pub fn screen(
        &mut self,
        coordinator: &str,
        session_id: u64,
        round: u8,
        created_at: u64,
        now: u64,
    ) -> (r: Result<(), ReplayFault>)
        ensures
            match r {
                Ok(()) => screened(
                    old(self)@,
                    (coordinator@, session_id, round),
                    created_at,
                    now,
                ).0 is None,
                Err(fault) => screened(
                    old(self)@,
                    (coordinator@, session_id, round),
                    created_at,
                    now,
                ).0 == Some(fault),
            },
            final(self)@ == screened(
                old(self)@,
                (coordinator@, session_id, round),
                created_at,
                now,
            ).1,
    {
        if created_at.saturating_add(FRESHNESS_WINDOW_SECS) < now || created_at
            > now.saturating_add(FRESHNESS_WINDOW_SECS) {
            return Err(ReplayFault::Stale);
        }
        self.seen.keep_from(now.saturating_sub(FRESHNESS_WINDOW_SECS));
        assert(self.seen@ =~= in_window(old(self)@, now));
        if self.seen.get(coordinator, session_id, round).is_some() {
            return Err(ReplayFault::Replayed);
        }
        let until: u64 = if created_at > now {
            created_at
        } else {
            now
        };
        self.seen.insert(coordinator, session_id, round, until);
        Ok(())
    }
}

/// One frame that comes before the guard.
pub struct Arrival {
    pub key: SessionKey,
    pub created_at: u64,
    pub now: u64,
}

/// What the guard has seen after some arrivals.
pub open spec fn seen_after(seen: Map<SessionKey, u64>, arrivals: Seq<Arrival>) -> Map<
    SessionKey,
    u64,
>
    decreases arrivals.len(),
{
    if arrivals.len() == 0 {
        seen
    } else {
        let last = arrivals.last();
        screened(
            seen_after(seen, arrivals.drop_last()),
            last.key,
            last.created_at,
            last.now,
        ).1
    }
}

/// Whether arrivals come in the order of their times, none before `from` and none after `to`.
pub open spec fn in_time(arrivals: Seq<Arrival>, from: u64, to: u64) -> bool {
    &&& from <= to
    &&& forall|i: int| 0 <= i < arrivals.len() ==> from <= (#[trigger] arrivals[i]).now <= to
    &&& forall|i: int, j: int|
        0 <= i <= j < arrivals.len() ==> (#[trigger] arrivals[i]).now <= (
        #[trigger] arrivals[j]).now
}

/// Whether the guard would still refuse the frame at `now`: it is stale, or on record.
spec fn remembered(seen: Map<SessionKey, u64>, key: SessionKey, created_at: u64, now: u64) -> bool {
    created_at + FRESHNESS_WINDOW_SECS < now || (seen.contains_key(key) && seen[key] >= created_at)
}

proof fn lemma_stays_remembered(
    seen: Map<SessionKey, u64>,
    key: SessionKey,
    created_at: u64,
    arrivals: Seq<Arrival>,
    from: u64,
    to: u64,
)
    requires
        remembered(seen, key, created_at, from),
        in_time(arrivals, from, to),
    ensures
        remembered(seen_after(seen, arrivals), key, created_at, to),
    decreases arrivals.len(),
{
    if arrivals.len() > 0 {
        let last = arrivals.last();
        let before = arrivals.drop_last();
        assert forall|i: int| 0 <= i < before.len() implies from <= (
        #[trigger] before[i]).now <= last.now by {
            assert(before[i] == arrivals[i]);
            assert(arrivals[i].now <= arrivals[arrivals.len() - 1].now);
        }
        assert forall|i: int, j: int| 0 <= i <= j < before.len() implies (
        #[trigger] before[i]).now <= (#[trigger] before[j]).now by {
            assert(arrivals[i].now <= arrivals[j].now);
        }
        assert(from <= arrivals[arrivals.len() - 1].now <= to);
        lemma_stays_remembered(seen, key, created_at, before, from, last.now);
    }
}

/// A replay never drives a holder: once a frame was let through at `taken`, the same frame is refused
/// at every later time, whatever other frames came before the guard in between.
pub proof fn replay_is_refused(
    seen: Map<SessionKey, u64>,
    key: SessionKey,
    created_at: u64,
    taken: u64,
    arrivals: Seq<Arrival>,
    again: u64,
)
    requires
        screened(seen, key, created_at, taken).0 is None,
        in_time(arrivals, taken, again),
    ensures
        screened(
            seen_after(screened(seen, key, created_at, taken).1, arrivals),
            key,
            created_at,
            again,
        ).0 is Some,
{
    let after = screened(seen, key, created_at, taken).1;
    lemma_stays_remembered(after, key, created_at, arrivals, taken, again);
}

/// The guard's record is bounded by the window: after it let a frame through, nothing in it is older.
pub proof fn record_is_within_the_window(
    seen: Map<SessionKey, u64>,
    key: SessionKey,
    created_at: u64,
    now: u64,
    other: SessionKey,
)
    requires
        screened(seen, key, created_at, now).0 is None,
        screened(seen, key, created_at, now).1.contains_key(other),
    ensures
        screened(seen, key, created_at, now).1[other] + FRESHNESS_WINDOW_SECS >= now,
{
}

// ---------------------------------------------------------------------------------------------
// The holder's endpoint
// ---------------------------------------------------------------------------------------------
/// Why a holder drops a frame.
#[derive(Debug, Clone, Copy, PartialEq, Eq, Structural)]
pub enum Dropped {
    /// It is no frame.
    NoFrame(FrameError),
    /// It is about another agent.
    OtherAgent,
    /// Its sender may not drive this holder.
    NotEntitled,
    /// The guard refuses it.
    Replay(ReplayFault),
}

/// What a holder goes by: its agent, its gate and the leases seen.
pub struct HolderEndpoint {
    pub agent_id: String,
    pub gate: CoordinatorAuthorizer,
    pub leases: LeaseView,
}

/// The canonical key of an event's author.
pub open spec fn author(event: NostrEvent) -> Seq<char> {
    signing::public_key_of(event.pubkey@)->0
}

/// Why a holder drops a frame, if it does: the first rule it breaks.
pub open spec fn drop_reason(
    endpoint: HolderEndpoint,
    seen: Map<SessionKey, u64>,
    event: NostrEvent,
    wire: Option<CoSignWire>,
    now: u64,
) -> Option<Dropped> {
    match relay_frames::frame_error(event, wire) {
        Some(e) => Some(Dropped::NoFrame(e)),
        None => if wire->0.agent_id@ != endpoint.agent_id@ {
            Some(Dropped::OtherAgent)
        } else if !entitled(
            endpoint.gate,
            endpoint.leases@,
            endpoint.agent_id@,
            author(event),
            now,
        ) {
            Some(Dropped::NotEntitled)
        } else {
            match screened(
                seen,
                (author(event), wire->0.session_id, wire->0.round),
                event.created_at,
                now,
            ).0 {
                Some(fault) => Some(Dropped::Replay(fault)),
                None => None,
            }
        },
    }
}

/// What the guard has seen after a frame came before the endpoint: only what got as far as the guard
/// changes it.
pub open spec fn seen_then(
    endpoint: HolderEndpoint,
    seen: Map<SessionKey, u64>,
    event: NostrEvent,
    wire: Option<CoSignWire>,
    now: u64,
) -> Map<SessionKey, u64> {
    match drop_reason(endpoint, seen, event, wire, now) {
        None | Some(Dropped::Replay(_)) => screened(
            seen,
            (author(event), wire->0.session_id, wire->0.round),
            event.created_at,
            now,
        ).1,
        _ => seen,
    }
}

/// Whether `reply` takes the server's answer to a frame back to the frame's sender.
pub open spec fn is_answer(
    reply: NostrEvent,
    endpoint: HolderEndpoint,
    holder: Seq<char>,
    event: NostrEvent,
    wire: CoSignWire,
    sign: Option<SignRequest>,
    before: RemoteHolderServer,
    after: RemoteHolderServer,
) -> bool {
    exists|answer: CoSignEvent| #[trigger]
        relay_frames::is_frame_event(reply, endpoint.agent_id@, holder, author(event), answer)
            && remote_holder::answered(
            before,
            after,
            wire.session_id,
            wire.round,
            sign,
            answer,
        )
}

impl HolderEndpoint {
    /// Screen a frame: verify and decode it, then hold it to the agent, the authorizer and the guard, in
    /// this order.
    pub fn screen(
        &self,
        guard: &mut ReplayGuard,
        event: &NostrEvent,
        wire: Option<CoSignWire>,
        now: u64,
    ) -> (r: Result<DecodedFrame, Dropped>)
        ensures
            match r {
                Ok(d) => drop_reason(*self, old(guard)@, *event, wire, now) is None
                    && relay_frames::is_frame_of(d, *event, wire->0),
                Err(why) => drop_reason(*self, old(guard)@, *event, wire, now) == Some(why),
            },
            final(guard)@ == seen_then(*self, old(guard)@, *event, wire, now),
    {
        let frame = match relay_frames::decode_cosign_frame(event, wire) {
            Ok(d) => d,
            Err(e) => return Err(Dropped::NoFrame(e)),
        };
        if !text::str_eq(frame.agent_id.as_str(), self.agent_id.as_str()) {
            return Err(Dropped::OtherAgent);
        }
        if !self.gate.authorizes(&self.leases, self.agent_id.as_str(), frame.sender.as_str(), now) {
            return Err(Dropped::NotEntitled);
        }
        match guard.screen(
            frame.sender.as_str(),
            frame.cosign.session_id,
            frame.cosign.round,
            event.created_at,
            now,
        ) {
            Ok(()) => Ok(frame),
            Err(fault) => Err(Dropped::Replay(fault)),
        }
    }

    /// Handle one frame: screen it, let the holder's server answer it, and sign the answer to the
    /// frame's sender. A dropped frame does not reach the server. `sign` is the sign request that
    /// the frame's payload holds, if it holds one.
    pub fn handle_holder_frame(
        &self,
        holder_keys: &NodeKeys,
        server: &mut RemoteHolderServer,
        guard: &mut ReplayGuard,
        event: &NostrEvent,
        wire: Option<CoSignWire>,
        sign: Option<SignRequest>,
        now: u64,
    ) -> (r: Result<NostrEvent, Dropped>)
        ensures
            final(guard)@ == seen_then(*self, old(guard)@, *event, wire, now),
            match r {
                Ok(reply) => {
                    &&& drop_reason(*self, old(guard)@, *event, wire, now) is None
                    &&& is_answer(
                        reply,
                        *self,
                        holder_keys.public(),
                        *event,
                        wire->0,
                        sign,
                        *old(server),
                        *final(server),
                    )
                },
                Err(why) => drop_reason(*self, old(guard)@, *event, wire, now) == Some(why)
                    && *final(server) == *old(server),
            },
    {
        let frame = match self.screen(guard, event, wire, now) {
            Ok(d) => d,
            Err(why) => return Err(why),
        };
        let coordinator = frame.sender;
        let answer = server.handle(frame.cosign, sign);
        let reply = relay_frames::encode_cosign_frame(
            self.agent_id.as_str(),
            &answer,
            coordinator.as_str(),
            holder_keys,
        );
        assert(relay_frames::is_frame_event(
            reply,
            self.agent_id@,
            holder_keys.public(),
            author(*event),
            answer,
        ));
        Ok(reply)
    }
}

// ---------------------------------------------------------------------------------------------
// What the calls come to
// ---------------------------------------------------------------------------------------------
/// What a view says after a lease was folded in: a lease of a higher term than the one known counts,
/// and makes its agent fresh for thirty seconds from its issue on; one of the same term or a lower one
/// changes nothing. No other agent is affected.
pub proof fn view_goes_by_the_highest_term(
    view: &mut LeaseView,
    agent_id: &str,
    term: u64,
    issued_at: u64,
    asked: &str,
    now: u64,
    before: bool,
    after: bool,
)
    requires
        call_ensures(LeaseView::observe, (view, agent_id, term, issued_at), ()),
        call_ensures(LeaseView::is_fresh, (&*old(view), asked, now), before),
        call_ensures(LeaseView::is_fresh, (&*final(view), asked, now), after),
    ensures
        before <==> old(view)@.contains_key(asked@) && now <= old(view)@[asked@].issued_at + 30,
        asked@ != agent_id@ ==> after == before,
        asked@ == agent_id@ && old(view)@.contains_key(agent_id@) && old(view)@[agent_id@].term
            >= term ==> after == before && final(view)@ == old(view)@,
        asked@ == agent_id@ && !(old(view)@.contains_key(agent_id@) && old(view)@[agent_id@].term
            >= term) ==> (after <==> now <= issued_at + 30) && final(view)@[agent_id@].term == term
            && final(view)@[agent_id@].issued_at == issued_at,
{
}

/// Which lease events a holder believes: authentic ones of the agent's own key, of the kind of leases,
/// whose content and address both name the agent. Any other event changes nothing.
pub proof fn holder_believes_the_agents_own_lease(
    view: &mut LeaseView,
    agent_q: &str,
    agent_id: &str,
    event: NostrEvent,
    content: Option<LeaseFreshness>,
    r: bool,
    other: Seq<char>,
)
    requires
        call_ensures(observe_lease_frame, (view, agent_q, agent_id, &event, content), r),
    ensures
        r <==> {
            &&& signing::authentic(event)
            &&& signing::public_key_of(event.pubkey@) == Some(agent_q@)
            &&& event.kind == 31002
            &&& content is Some
            &&& content->0.agent_id@ == agent_id@
            &&& nostr::first_valued_tag(nostr::tag_views(event.tags@), "d"@) == Some(agent_id@)
        },
        !r ==> final(view)@ == old(view)@,
        r ==> final(view)@.contains_key(agent_id@) && final(view)@[agent_id@].term
            >= content->0.term,
        r && !old(view)@.contains_key(agent_id@) ==> final(view)@[agent_id@].term == content->0.term
            && final(view)@[agent_id@].issued_at == content->0.issued_at,
        other != agent_id@ ==> final(view)@.contains_key(other) == old(view)@.contains_key(other)
            && final(view)@[other] == old(view)@[other],
{
}

/// Who drives a holder: behind the plain gate the provisioned coordinator and nobody else, behind the
/// leased gate the same one and only while its agent's lease is fresh.
pub proof fn gate_lets_the_provisioned_coordinator_through(
    coordinator: String,
    plain: CoordinatorAuthorizer,
    leased: CoordinatorAuthorizer,
    anyone: CoordinatorAuthorizer,
    view: LeaseView,
    agent_id: &str,
    sender: &str,
    now: u64,
    by_plain: bool,
    by_leased: bool,
    by_anyone: bool,
)
    requires
        call_ensures(coordinator_authorizer, (coordinator,), plain),
        call_ensures(coordinator_authorizer_with_lease, (coordinator,), leased),
        call_ensures(allow_all_coordinators, (), anyone),
        call_ensures(
            CoordinatorAuthorizer::authorizes,
            (&plain, &view, agent_id, sender, now),
            by_plain,
        ),
        call_ensures(
            CoordinatorAuthorizer::authorizes,
            (&leased, &view, agent_id, sender, now),
            by_leased,
        ),
        call_ensures(
            CoordinatorAuthorizer::authorizes,
            (&anyone, &view, agent_id, sender, now),
            by_anyone,
        ),
    ensures
        by_anyone,
        by_plain <==> sender@ == coordinator@,
        by_leased <==> sender@ == coordinator@ && view@.contains_key(agent_id@) && now
            <= view@[agent_id@].issued_at + 30,
{
}

/// Which frames the guard lets through: those whose time lies within 120 seconds of now, and that it
/// has not let through before within the window. A frame of another coordinator, session or round
/// never stands in the way.
pub proof fn guard_refuses_replays_and_nothing_else(
    guard: &mut ReplayGuard,
    again: &mut ReplayGuard,
    coordinator: &str,
    session_id: u64,
    round: u8,
    created_at: u64,
    now: u64,
    r: Result<(), ReplayFault>,
    second: Result<(), ReplayFault>,
    other: SessionKey,
)
    requires
        call_ensures(
            ReplayGuard::screen,
            (guard, coordinator, session_id, round, created_at, now),
            r,
        ),
        *final(guard) == *old(again),
        call_ensures(
            ReplayGuard::screen,
            (again, coordinator, session_id, round, created_at, now),
            second,
        ),
    ensures
        ({
            let key = (coordinator@, session_id, round);
            let timely = created_at + 120 >= now && created_at <= now + 120;
            let on_record = old(guard)@.contains_key(key) && old(guard)@[key] + 120 >= now;
            &&& r is Ok <==> timely && !on_record
            &&& r == Err::<(), _>(ReplayFault::Stale) <==> !timely
            &&& r == Err::<(), _>(ReplayFault::Replayed) <==> timely && on_record
            &&& r is Ok ==> final(guard)@.contains_key(key) && final(guard)@[key] >= created_at
                && final(guard)@[key] >= now
            &&& other != key && old(guard)@.contains_key(other) && old(guard)@[other] + 120 >= now
                ==> final(guard)@.contains_key(other) && final(guard)@[other] == old(guard)@[other]
            &&& other != key && final(guard)@.contains_key(other) ==> old(guard)@.contains_key(
                other,
            )
        }),
        second is Err,
{
}

/// Which frames reach a holder's server: authentic co-sign frames about its agent, from a coordinator
/// that its gate lets through, that its guard lets through. A frame that is dropped before the guard
/// leaves no trace in it.
pub proof fn only_screened_frames_reach_the_holder(
    endpoint: HolderEndpoint,
    guard: &mut ReplayGuard,
    event: NostrEvent,
    wire: Option<CoSignWire>,
    now: u64,
    r: Result<DecodedFrame, Dropped>,
)
    requires
        call_ensures(HolderEndpoint::screen, (&endpoint, guard, &event, wire, now), r),
    ensures
        r matches Ok(d) ==> {
            let sender = signing::public_key_of(event.pubkey@);
            &&& signing::authentic(event)
            &&& event.kind == 21004
            &&& wire is Some
            &&& wire->0.agent_id@ == endpoint.agent_id@
            &&& sender == Some(d.sender@)
            &&& match endpoint.gate {
                CoordinatorAuthorizer::Anyone => true,
                CoordinatorAuthorizer::Provisioned(c) => d.sender@ == c@,
                CoordinatorAuthorizer::ProvisionedAndLeased(c) => d.sender@ == c@
                    && endpoint.leases@.contains_key(endpoint.agent_id@) && now
                    <= endpoint.leases@[endpoint.agent_id@].issued_at + 30,
            }
            &&& event.created_at + 120 >= now && event.created_at <= now + 120
            &&& d.agent_id@ == wire->0.agent_id@
            &&& d.cosign.session_id == wire->0.session_id
            &&& d.cosign.round == wire->0.round
            &&& final(guard)@.contains_key((d.sender@, wire->0.session_id, wire->0.round))
        },
        r matches Err(Dropped::NoFrame(_)) ==> final(guard)@ == old(guard)@,
        r matches Err(Dropped::OtherAgent) ==> final(guard)@ == old(guard)@ && wire->0.agent_id@
            != endpoint.agent_id@,
        r matches Err(Dropped::NotEntitled) ==> final(guard)@ == old(guard)@,
        !signing::authentic(event) ==> r == Err::<DecodedFrame, _>(
            Dropped::NoFrame(FrameError::BadSignature),
        ),
{
}

/// What comes of a frame: a dropped one does not touch the holder's server; one that passed is answered
/// by an authentic co-sign event of the holder's key, addressed to the frame's author, about the
/// agent, that carries the server's answer in the frame's session.
pub proof fn answer_goes_back_to_the_author(
    endpoint: HolderEndpoint,
    holder_keys: NodeKeys,
    server: &mut RemoteHolderServer,
    guard: &mut ReplayGuard,
    event: NostrEvent,
    wire: Option<CoSignWire>,
    sign: Option<SignRequest>,
    now: u64,
    r: Result<NostrEvent, Dropped>,
)
    requires
        call_ensures(
            HolderEndpoint::handle_holder_frame,
            (&endpoint, &holder_keys, server, guard, &event, wire, sign, now),
            r,
        ),
    ensures
        r is Err ==> *final(server) == *old(server),
        r matches Ok(reply) ==> {
            &&& signing::authentic(reply)
            &&& reply.kind == 21004
            &&& reply.pubkey@ == holder_keys.public()
            &&& signing::public_key_of(event.pubkey@)->0 != holder_keys.public()
                ==> nostr::tag_views(reply.tags@)[0] == seq![
                "p"@,
                signing::public_key_of(event.pubkey@)->0,
            ]
            &&& exists|answer: CoSignWire| #[trigger]
                relay_frames::wire_json(answer) == reply.content@ && answer.agent_id@
                    == endpoint.agent_id@ && answer.session_id == wire->0.session_id
        },
        final(server).key() == old(server).key(),
        final(server).holder() == old(server).holder(),
{
    if r is Ok {
        let reply = r->Ok_0;
        let to = signing::public_key_of(event.pubkey@)->0;
        if to != holder_keys.public() {
            relay_frames::frame_tags_are_kept(to, endpoint.agent_id@, holder_keys.public());
        }
        let answer = choose|answer: CoSignEvent| #[trigger]
            relay_frames::is_frame_event(
                reply,
                endpoint.agent_id@,
                holder_keys.public(),
                author(event),
                answer,
            ) && remote_holder::answered(
                *old(server),
                *final(server),
                wire->0.session_id,
                wire->0.round,
                sign,
                answer,
            );
        let w = choose|w: CoSignWire|
            relay_frames::carries(w, endpoint.agent_id@, answer) && reply.content@
                == #[trigger] relay_frames::wire_json(w);
        assert(relay_frames::wire_json(w) == reply.content@);
    }
}

} // verus!
