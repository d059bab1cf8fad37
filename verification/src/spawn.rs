//! Spawning agents from signed relay events.
//!
//! A spawn request is an event that anyone can publish: its signature says which key signed, not
//! whether that key may spawn. Each event passes a row of gates before anything is launched, and an
//! agent is reserved durably before it is launched, so that it is launched once.
//!
//! A request's content is JSON. Callers decode it and hand it over next to the event; content that
//! does not decode is `None`.
use vstd::prelude::*;
use vstd::string::StringExecFns;

use crate::config;
use crate::config::{LabelError, TenantConfig};
use crate::crypto;
use crate::keyed::KeyedRows;
use crate::lease::{LeaseNodeId, NoFence, SpawnFenceView};
use crate::nostr;
use crate::nostr::{NostrEvent, KIND_KIRBY_SPAWN_REQUEST};
use crate::signing;
use crate::signing::NodeKeys;
use crate::text;

verus! {

/// The longest content of a spawn request, in bytes.
pub const MAX_SPAWN_CONTENT_BYTES: usize = 8192;

/// What a request asks the agent's treasury to be seeded with.
#[derive(Debug, Clone, Copy, PartialEq, Eq, Structural)]
pub struct FundingRequest {
    pub seed_sats: u64,
}

/// A spawn request.
#[derive(Debug)]
pub struct SpawnRequest {
    /// The agent's label.
    pub agent_id: String,
    /// The genome's configuration as JSON. It is bounded with the rest of the content and shapes
    /// nothing.
    pub genome_config: String,
    /// The image to run.
    pub image_ref: String,
    pub funding: FundingRequest,
    /// The requester's key, or nothing. It must not contradict the signer.
    pub requester_pubkey: String,
}

/// Why an event is dropped.
#[derive(Debug)]
pub enum SpawnReject {
    /// The event is no spawn request.
    WrongKind(u32),
    /// The event's id or signature does not verify.
    BadSignature,
    /// The content is longer than [`MAX_SPAWN_CONTENT_BYTES`].
    OversizedContent(usize),
    /// The content is no spawn request.
    MalformedContent,
    /// The agent's label is no label.
    InvalidAgentId(LabelError),
    /// The content names a requester that did not sign.
    RequesterMismatch,
    /// The image is not staged on this node.
    UnknownImage(String),
    /// The requester may not spawn.
    Unauthorized(String),
    /// The funding is refused.
    Funding(String),
}

/// The texts of label errors.
pub open spec fn label_error_text(e: LabelError) -> Seq<char> {
    match e {
        LabelError::Empty => "empty label"@,
        LabelError::TooLong => "label longer than 64 characters"@,
        LabelError::BadCharacter => "label holds a character outside [A-Za-z0-9._-]"@,
        LabelError::PathComponent => "label is a directory"@,
    }
}

impl SpawnReject {
    /// The reject as a line of a log.
    pub open spec fn spec_message(&self) -> Seq<char> {
        match self {
            SpawnReject::WrongKind(k) => "wrong kind "@ + text::decimal(*k as nat)
                + " (not a spawn request)"@,
            SpawnReject::BadSignature => "bad signature / id (forged or corrupt)"@,
            SpawnReject::OversizedContent(n) => "content too large ("@ + text::decimal(*n as nat)
                + " bytes)"@,
            SpawnReject::MalformedContent => "malformed spawn-request JSON"@,
            SpawnReject::InvalidAgentId(e) => "invalid agent_id: "@ + label_error_text(*e),
            SpawnReject::RequesterMismatch => "requester_pubkey disagrees with the signing key"@,
            SpawnReject::UnknownImage(i) => "image_ref "@ + text::debug_text(i@)
                + " not in the pre-staged allowlist"@,
            SpawnReject::Unauthorized(why) => "unauthorized: "@ + why@,
            SpawnReject::Funding(why) => "funding refused: "@ + why@,
        }
    }

    /// The reject as a line of a log.
    pub fn message(&self) -> (r: String)
        ensures
            r@ == self.spec_message(),
    {
        match self {
            SpawnReject::WrongKind(k) => {
                let mut s = "wrong kind ".to_owned();
                text::append_decimal(&mut s, *k as u64);
                s.append(" (not a spawn request)");
                s
            },
            SpawnReject::BadSignature => "bad signature / id (forged or corrupt)".to_owned(),
            SpawnReject::OversizedContent(n) => {
                let mut s = "content too large (".to_owned();
                text::append_decimal(&mut s, *n as u64);
                s.append(" bytes)");
                s
            },
            SpawnReject::MalformedContent => "malformed spawn-request JSON".to_owned(),
            SpawnReject::InvalidAgentId(e) => {
                let mut s = "invalid agent_id: ".to_owned();
                match e {
                    LabelError::Empty => s.append("empty label"),
                    LabelError::TooLong => s.append("label longer than 64 characters"),
                    LabelError::BadCharacter => s.append(
                        "label holds a character outside [A-Za-z0-9._-]",
                    ),
                    LabelError::PathComponent => s.append("label is a directory"),
                }
                s
            },
            SpawnReject::RequesterMismatch => {
                "requester_pubkey disagrees with the signing key".to_owned()
            },
            SpawnReject::UnknownImage(i) => {
                let mut s = "image_ref ".to_owned();
                s.append(text::debug_string(i.as_str()).as_str());
                s.append(" not in the pre-staged allowlist");
                s
            },
            SpawnReject::Unauthorized(why) => {
                let mut s = "unauthorized: ".to_owned();
                s.append(why.as_str());
                s
            },
            SpawnReject::Funding(why) => {
                let mut s = "funding refused: ".to_owned();
                s.append(why.as_str());
                s
            },
        }
    }
}

/// Why a well-formed, authorized request is left alone.
#[derive(Debug, Clone, Copy, PartialEq, Eq, Structural)]
pub enum SpawnSkip {
    /// The node hosts as many tenants as it may.
    OverCapacity,
    /// This node has launched the agent before.
    AlreadySpawned,
    /// Another node holds a fresh lease of the agent.
    AlreadyClaimedElsewhere { holder: LeaseNodeId, term: u64 },
}

/// What came of one event.
#[derive(Debug)]
pub enum SpawnOutcome {
    /// The agent was launched.
    Launched { agent_id: String, frost_npub: String, lease_term: u64 },
    Skipped(SpawnSkip),
    Rejected(SpawnReject),
    /// The request passed, but it could not be reserved, or the launch failed and the reservation
    /// was released.
    LaunchFailed(String),
}

// ---------------------------------------------------------------------------------------------
// Authorization
// ---------------------------------------------------------------------------------------------
/// Whether a requester may spawn.
#[derive(Debug)]
pub enum SpawnDecision {
    Allow,
    /// The requester may not, and why.
    Deny(String),
}

/// Decides whether the signer of a request may spawn.
pub trait SpawnAuthorizer: Sized {
    /// Why the requester may not spawn at `now_secs`, if it may not.
    spec fn denial(&self, req: SpawnRequest, requester: Seq<char>, now_secs: u64) -> Option<
        Seq<char>,
    >;

    /// Whether `after` is this authorizer once it has decided on the request.
    spec fn has_decided(
        &self,
        after: Self,
        req: SpawnRequest,
        requester: Seq<char>,
        now_secs: u64,
    ) -> bool;

    /// Decide on a request of `requester`, the key that signed it.
    fn authorize(&mut self, req: &SpawnRequest, requester: &str, now_secs: u64) -> (r:
        SpawnDecision)
        ensures
            old(self).has_decided(*final(self), *req, requester@, now_secs),
            match r {
                SpawnDecision::Allow => old(self).denial(*req, requester@, now_secs) is None,
                SpawnDecision::Deny(why) => old(self).denial(*req, requester@, now_secs) == Some(
                    why@,
                ),
            },
    ;
}

/// The spawns of one requester since the start of its window.
#[derive(Debug, Clone, Copy, PartialEq, Eq, Structural)]
pub struct Window {
    pub start: u64,
    pub count: u32,
}

/// The window a request at `now` falls into: the open one, or a new one.
pub open spec fn window_at(known: Option<Window>, now: u64, window_secs: u64) -> Window {
    match known {
        Some(w) => if (if now >= w.start {
            now - w.start
        } else {
            0
        }) >= window_secs {
            Window { start: now, count: 0 }
        } else {
            w
        },
        None => Window { start: now, count: 0 },
    }
}

/// An operator allowlist and a limit on each requester's spawns per window. A non-empty allowlist is
/// enforced; an empty one lets any signer spawn. The limit holds in both cases.
pub struct AllowlistAuthorizer {
    allowed: Vec<String>,
    max_per_window: u32,
    window_secs: u64,
    recent: KeyedRows<Window>,
}

impl AllowlistAuthorizer {
    /// The operators' keys.
    pub closed spec fn operators(&self) -> Seq<Seq<char>> {
        text::views(self.allowed@)
    }

    /// The most spawns of one requester in a window.
    pub closed spec fn limit(&self) -> u32 {
        self.max_per_window
    }

    /// How long a window is.
    pub closed spec fn window_len(&self) -> u64 {
        self.window_secs
    }

    /// The requesters' windows.
    pub closed spec fn windows(&self) -> Map<Seq<char>, Window> {
        self.recent@
    }

    /// The window that a request of `requester` at `now` falls into.
    pub open spec fn window_of(&self, requester: Seq<char>, now: u64) -> Window {
        window_at(
            if self.windows().contains_key(requester) {
                Some(self.windows()[requester])
            } else {
                None
            },
            now,
            self.window_len(),
        )
    }

    /// Whether the allowlist admits `requester`.
    pub open spec fn listed(&self, requester: Seq<char>) -> bool {
        self.operators().len() == 0 || self.operators().contains(requester)
    }

    /// An authorizer that lets `allowed` spawn, `max_per_window` times per `window_secs` each.
    pub fn new(allowed: Vec<String>, max_per_window: u32, window_secs: u64) -> (r: Self)
        ensures
            r.operators() == text::views(allowed@),
            r.limit() == max_per_window,
            r.window_len() == window_secs,
            r.windows() == Map::<Seq<char>, Window>::empty(),
    {
        AllowlistAuthorizer { allowed, max_per_window, window_secs, recent: KeyedRows::new() }
    }
}

impl SpawnAuthorizer for AllowlistAuthorizer {
    open spec fn denial(&self, req: SpawnRequest, requester: Seq<char>, now_secs: u64) -> Option<
        Seq<char>,
    > {
        if !self.listed(requester) {
            Some("requester "@ + requester + " is not in the operator allowlist"@)
        } else if self.window_of(requester, now_secs).count >= self.limit() {
            Some(
                "rate limit: "@ + text::decimal(self.window_of(requester, now_secs).count as nat)
                    + " spawns within "@ + text::decimal(self.window_len() as nat) + "s for "@
                    + requester,
            )
        } else {
            None
        }
    }

    open spec fn has_decided(
        &self,
        after: Self,
        req: SpawnRequest,
        requester: Seq<char>,
        now_secs: u64,
    ) -> bool {
        let w = self.window_of(requester, now_secs);
        &&& after.operators() == self.operators()
        &&& after.limit() == self.limit()
        &&& after.window_len() == self.window_len()
        &&& after.windows() == if !self.listed(requester) {
            self.windows()
        } else if w.count >= self.limit() {
            self.windows().insert(requester, w)
        } else {
            self.windows().insert(
                requester,
                Window { start: w.start, count: (w.count + 1) as u32 },
            )
        }
    }

    fn authorize(&mut self, req: &SpawnRequest, requester: &str, now_secs: u64) -> (r:
        SpawnDecision) {
        if self.allowed.len() != 0 && !text::names_contain(&self.allowed, requester) {
            let mut why = "requester ".to_owned();
            why.append(requester);
            why.append(" is not in the operator allowlist");
            return SpawnDecision::Deny(why);
        }
        let mut w = match self.recent.get(requester) {
            Some(w) => *w,
            None => Window { start: now_secs, count: 0 },
        };
        if now_secs.saturating_sub(w.start) >= self.window_secs {
            w = Window { start: now_secs, count: 0 };
        }
        assert(w == old(self).window_of(requester@, now_secs));
        if w.count >= self.max_per_window {
            self.recent.insert(requester, w);
            let mut why = "rate limit: ".to_owned();
            text::append_decimal(&mut why, w.count as u64);
            why.append(" spawns within ");
            text::append_decimal(&mut why, self.window_secs);
            why.append("s for ");
            why.append(requester);
            return SpawnDecision::Deny(why);
        }
        self.recent.insert(requester, Window { start: w.start, count: w.count + 1 });
        SpawnDecision::Allow
    }
}

/// How many of a requester's requests at `times` are allowed, from the window known of it.
pub open spec fn allowed_among(
    known: Option<Window>,
    times: Seq<u64>,
    limit: u32,
    window_secs: u64,
) -> nat
    decreases times.len(),
{
    if times.len() == 0 {
        0
    } else {
        let w = window_at(known, times[0], window_secs);
        if w.count >= limit {
            allowed_among(Some(w), times.skip(1), limit, window_secs)
        } else {
            1 + allowed_among(
                Some(Window { start: w.start, count: (w.count + 1) as u32 }),
                times.skip(1),
                limit,
                window_secs,
            )
        }
    }
}

/// The rate limit: of a requester's requests in one window, at most the limit are allowed, however
/// many it makes.
pub proof fn rate_limit_bounds_a_window(w: Window, times: Seq<u64>, limit: u32, window_secs: u64)
    requires
        w.count <= limit,
        window_secs > 0,
        forall|i: int| 0 <= i < times.len() ==> (#[trigger] times[i]) - w.start < window_secs,
    ensures
        w.count + allowed_among(Some(w), times, limit, window_secs) <= limit,
    decreases times.len(),
{
    if times.len() > 0 {
        assert(times[0] - w.start < window_secs);
        assert(window_at(Some(w), times[0], window_secs) == w);
        assert forall|i: int| 0 <= i < times.skip(1).len() implies (#[trigger] times.skip(1)[i])
            - w.start < window_secs by {
            assert(times.skip(1)[i] == times[i + 1]);
        }
        if w.count >= limit {
            rate_limit_bounds_a_window(w, times.skip(1), limit, window_secs);
        } else {
            rate_limit_bounds_a_window(
                Window { start: w.start, count: (w.count + 1) as u32 },
                times.skip(1),
                limit,
                window_secs,
            );
        }
    }
}

// ---------------------------------------------------------------------------------------------
// Funding
// ---------------------------------------------------------------------------------------------
/// What an agent's treasury starts with.
#[derive(Debug, Clone, Copy, PartialEq, Eq, Structural)]
pub struct Funding {
    pub initial_sats: u64,
}

/// Clears a request's funding.
pub trait SpawnFunder {
    /// What the request's funding clears to, or why it is refused.
    spec fn granted(&self, req: SpawnRequest) -> Result<u64, Seq<char>>;

    /// Clear a request's funding.
    fn fund(&self, req: &SpawnRequest) -> (r: Result<Funding, String>)
        ensures
            match r {
                Ok(f) => self.granted(*req) == Ok::<u64, Seq<char>>(f.initial_sats),
                Err(why) => self.granted(*req) == Err::<u64, Seq<char>>(why@),
            },
    ;
}

/// Takes the declared seed, between 1 and a ceiling.
#[derive(Debug)]
pub struct SeedFunder {
    max_seed_sats: u64,
}

impl SeedFunder {
    /// The ceiling.
    pub closed spec fn ceiling(&self) -> u64 {
        self.max_seed_sats
    }

    /// A funder with a ceiling per spawn.
    pub fn new(max_seed_sats: u64) -> (r: Self)
        ensures
            r.ceiling() == max_seed_sats,
    {
        SeedFunder { max_seed_sats }
    }
}

impl SpawnFunder for SeedFunder {
    open spec fn granted(&self, req: SpawnRequest) -> Result<u64, Seq<char>> {
        if req.funding.seed_sats == 0 {
            Err("seed amount is zero (the real-money path refuses an unfunded agent)"@)
        } else if req.funding.seed_sats > self.ceiling() {
            Err(
                "seed "@ + text::decimal(req.funding.seed_sats as nat)
                    + " exceeds the per-spawn ceiling "@ + text::decimal(self.ceiling() as nat),
            )
        } else {
            Ok(req.funding.seed_sats)
        }
    }

    fn fund(&self, req: &SpawnRequest) -> (r: Result<Funding, String>) {
        let seed: u64 = req.funding.seed_sats;
        if seed == 0 {
            return Err(
                "seed amount is zero (the real-money path refuses an unfunded agent)".to_owned(),
            );
        }
        if seed > self.max_seed_sats {
            let mut why = "seed ".to_owned();
            text::append_decimal(&mut why, seed);
            why.append(" exceeds the per-spawn ceiling ");
            text::append_decimal(&mut why, self.max_seed_sats);
            return Err(why);
        }
        Ok(Funding { initial_sats: seed })
    }
}

// ---------------------------------------------------------------------------------------------
// The durable set of spawned agents
// ---------------------------------------------------------------------------------------------
/// What reserving an agent found.
#[derive(Debug, Clone, Copy, PartialEq, Eq, Structural)]
pub enum ReserveOutcome {
    /// The agent is reserved now.
    Fresh,
    /// It was reserved, and the launch was never confirmed: the launch may be tried again.
    ResumePending,
    /// It has been launched.
    AlreadyLaunched,
}

/// Reserving an agent: `phases` maps each reserved agent to whether it has been launched.
pub open spec fn reserve_outcome(phases: Map<Seq<char>, bool>, agent_id: Seq<char>) -> ReserveOutcome {
    if !phases.contains_key(agent_id) {
        ReserveOutcome::Fresh
    } else if phases[agent_id] {
        ReserveOutcome::AlreadyLaunched
    } else {
        ReserveOutcome::ResumePending
    }
}

/// The set after reserving an agent.
pub open spec fn reserved(phases: Map<Seq<char>, bool>, agent_id: Seq<char>) -> Map<
    Seq<char>,
    bool,
> {
    if phases.contains_key(agent_id) {
        phases
    } else {
        phases.insert(agent_id, false)
    }
}

/// Agents, and whether each has been launched.
pub type Phases = Map<Seq<char>, bool>;

/// A call of a ledger, and what came of it.
pub enum LedgerCall {
    /// An agent was to be reserved: what was found, or why that failed.
    Reserve(Seq<char>, Result<ReserveOutcome, Seq<char>>),
    /// A launch was to be confirmed: whether that was done.
    Finalize(Seq<char>, bool),
    /// A reservation was to be given up: whether that was done.
    Release(Seq<char>, bool),
}

/// The calls of a ledger in their order.
pub type LedgerCalls = Seq<LedgerCall>;

/// The durable set of agents that this node has spawned, each pending or launched.
pub trait SpawnLedger {
    /// The reserved agents, and whether each has been launched.
    spec fn phases(&self) -> Phases;

    /// Whether the store works: a ledger that does never fails.
    spec fn works(&self) -> bool;

    /// The calls that were made.
    spec fn calls(&self) -> LedgerCalls;

    /// Reserve an agent, as pending if it is new.
    fn reserve(&mut self, agent_id: &str) -> (r: Result<ReserveOutcome, String>)
        ensures
            old(self).works() ==> r is Ok && final(self).works(),
            r matches Ok(found) ==> found == reserve_outcome(old(self).phases(), agent_id@)
                && final(self).phases() == reserved(old(self).phases(), agent_id@),
            final(self).calls() == old(self).calls().push(
                LedgerCall::Reserve(
                    agent_id@,
                    match r {
                        Ok(found) => Ok(found),
                        Err(why) => Err(why@),
                    },
                ),
            ),
    ;

    /// Confirm that a reserved agent has been launched.
    fn finalize(&mut self, agent_id: &str) -> (r: Result<(), String>)
        ensures
            old(self).works() ==> r is Ok && final(self).works(),
            r is Ok ==> final(self).phases() == old(self).phases().insert(agent_id@, true),
            final(self).calls() == old(self).calls().push(
                LedgerCall::Finalize(agent_id@, r is Ok),
            ),
    ;

    /// Give up the reservation of an agent whose launch failed.
    fn release(&mut self, agent_id: &str) -> (r: Result<(), String>)
        ensures
            old(self).works() ==> r is Ok && final(self).works(),
            r is Ok ==> final(self).phases() == old(self).phases().remove(agent_id@),
            final(self).calls() == old(self).calls().push(
                LedgerCall::Release(agent_id@, r is Ok),
            ),
    ;
}

/// The stored phase of an agent that is reserved and not confirmed.
pub const SPAWN_STATE_PENDING: u8 = 80;

/// The stored phase of an agent that has been launched.
pub const SPAWN_STATE_LAUNCHED: u8 = 76;

/// What a stored phase means. `stored` is what was there before the attempt to store the pending
/// phase in its place: nothing, if the attempt succeeded.
pub fn reserve_from_stored(stored: Option<&[u8]>) -> (r: ReserveOutcome)
    ensures
        r == match stored {
            None => ReserveOutcome::Fresh,
            Some(v) => if v@ == seq![SPAWN_STATE_LAUNCHED] {
                ReserveOutcome::AlreadyLaunched
            } else {
                ReserveOutcome::ResumePending
            },
        },
{
    match stored {
        None => ReserveOutcome::Fresh,
        Some(v) => {
            if v.len() == 1 && v[0] == SPAWN_STATE_LAUNCHED {
                assert(v@ =~= seq![SPAWN_STATE_LAUNCHED]);
                ReserveOutcome::AlreadyLaunched
            } else {
                ReserveOutcome::ResumePending
            }
        },
    }
}

/// A ledger in memory.
pub struct MemLedger {
    launched: KeyedRows<bool>,
    history: Ghost<LedgerCalls>,
}

impl MemLedger {
    /// An empty ledger.
    pub fn new() -> (r: Self)
        ensures
            r.phases() == Map::<Seq<char>, bool>::empty(),
            r.works(),
            r.calls().len() == 0,
    {
        MemLedger { launched: KeyedRows::new(), history: Ghost(Seq::empty()) }
    }
}

impl SpawnLedger for MemLedger {
    closed spec fn phases(&self) -> Map<Seq<char>, bool> {
        self.launched@
    }

    open spec fn works(&self) -> bool {
        true
    }

    closed spec fn calls(&self) -> LedgerCalls {
        self.history@
    }

    fn reserve(&mut self, agent_id: &str) -> (r: Result<ReserveOutcome, String>) {
        let known: Option<bool> = match self.launched.get(agent_id) {
            Some(done) => Some(*done),
            None => None,
        };
        let found = match known {
            Some(true) => ReserveOutcome::AlreadyLaunched,
            Some(false) => ReserveOutcome::ResumePending,
            None => {
                self.launched.insert(agent_id, false);
                ReserveOutcome::Fresh
            },
        };
        proof {
            self.history@ = self.history@.push(LedgerCall::Reserve(agent_id@, Ok(found)));
        }
        Ok(found)
    }

    fn finalize(&mut self, agent_id: &str) -> (r: Result<(), String>) {
        self.launched.insert(agent_id, true);
        proof {
            self.history@ = self.history@.push(LedgerCall::Finalize(agent_id@, true));
        }
        Ok(())
    }

    fn release(&mut self, agent_id: &str) -> (r: Result<(), String>) {
        self.launched.remove(agent_id);
        proof {
            self.history@ = self.history@.push(LedgerCall::Release(agent_id@, true));
        }
        Ok(())
    }
}

/// A launched agent stays launched: it is not launched again, however often it is requested.
pub proof fn launched_agent_is_never_reserved_again(
    phases: Map<Seq<char>, bool>,
    agent_id: Seq<char>,
    other: Seq<char>,
)
    ensures
        reserve_outcome(phases.insert(agent_id, true), agent_id) == ReserveOutcome::AlreadyLaunched,
        reserved(phases.insert(agent_id, true), other)[agent_id],
        reserve_outcome(reserved(phases.insert(agent_id, true), other), agent_id)
            == ReserveOutcome::AlreadyLaunched,
{
}

/// A crash between reserving and confirming strands nothing: the next request for the agent resumes.
pub proof fn pending_agent_is_resumed(phases: Map<Seq<char>, bool>, agent_id: Seq<char>)
    requires
        reserve_outcome(phases, agent_id) != ReserveOutcome::AlreadyLaunched,
    ensures
        reserve_outcome(reserved(phases, agent_id), agent_id) == ReserveOutcome::ResumePending,
{
}

/// A failed launch poisons nothing: once released, the agent can be reserved afresh.
pub proof fn released_agent_is_fresh(phases: Map<Seq<char>, bool>, agent_id: Seq<char>)
    ensures
        reserve_outcome(phases.remove(agent_id), agent_id) == ReserveOutcome::Fresh,
{
}

// ---------------------------------------------------------------------------------------------
// The launch target
// ---------------------------------------------------------------------------------------------
/// A launched tenant.
#[derive(Debug)]
pub struct TenantRecord {
    pub agent_id: String,
    pub frost_npub: String,
    pub lease_term: u64,
}

/// Launches in the order they were asked for: each agent, and what its treasury starts with.
pub type Launches = Seq<(Seq<char>, u64)>;

/// What launches came to, in their order: a tenant, or why there is none.
pub type LaunchAnswers = Seq<Result<TenantRecord, String>>;

/// Where agents are launched.
pub trait SpawnSink {
    /// How many tenants the node hosts.
    spec fn hosted(&self) -> usize;

    /// The launches that were asked for.
    spec fn asked(&self) -> Launches;

    /// What came of each.
    spec fn answered(&self) -> LaunchAnswers;

    /// How many tenants the node hosts.
    fn tenant_count(&self) -> (r: usize)
        ensures
            r == self.hosted(),
    ;

    /// Launch one tenant.
    fn launch(&mut self, tenant: &TenantConfig) -> (r: Result<TenantRecord, String>)
        ensures
            final(self).asked() == old(self).asked().push((tenant.agent_id@, tenant.initial_sats)),
            final(self).answered() == old(self).answered().push(r),
    ;
}

// ---------------------------------------------------------------------------------------------
// Requests
// ---------------------------------------------------------------------------------------------
/// Why an event is no spawn request of its signer, if it is none: the first rule it breaks.
pub open spec fn parse_reject(e: NostrEvent, parsed: Option<SpawnRequest>) -> Option<SpawnReject> {
    if e.kind != KIND_KIRBY_SPAWN_REQUEST {
        Some(SpawnReject::WrongKind(e.kind))
    } else if !signing::authentic(e) {
        Some(SpawnReject::BadSignature)
    } else if vstd::utf8::encode_utf8(e.content@).len() > MAX_SPAWN_CONTENT_BYTES {
        Some(SpawnReject::OversizedContent(vstd::utf8::encode_utf8(e.content@).len() as usize))
    } else if parsed is None {
        Some(SpawnReject::MalformedContent)
    } else if config::label_error(parsed->0.agent_id@) is Some {
        Some(SpawnReject::InvalidAgentId(config::label_error(parsed->0.agent_id@)->0))
    } else if parsed->0.requester_pubkey@.len() > 0 && Some(parsed->0.requester_pubkey@)
        != signing::public_key_of(e.pubkey@) {
        Some(SpawnReject::RequesterMismatch)
    } else {
        None
    }
}

/// Check that an event is an authentic, well-formed spawn request of its signer. `parsed` is its
/// decoded content.
fn validated(event: &NostrEvent, parsed: Option<SpawnRequest>) -> (r: Result<
    SpawnRequest,
    SpawnReject,
>)
    ensures
        match r {
            Ok(req) => parse_reject(*event, parsed) is None && parsed == Some(req),
            Err(reject) => parse_reject(*event, parsed) == Some(reject),
        },
{
    if event.kind != KIND_KIRBY_SPAWN_REQUEST as u32 {
        return Err(SpawnReject::WrongKind(event.kind));
    }
    if !signing::is_authentic(event) {
        return Err(SpawnReject::BadSignature);
    }
    let len: usize = event.content.as_str().as_bytes().len();
    if len > MAX_SPAWN_CONTENT_BYTES {
        return Err(SpawnReject::OversizedContent(len));
    }
    let req = match parsed {
        Some(req) => req,
        None => return Err(SpawnReject::MalformedContent),
    };
    match config::validate_agent_label(req.agent_id.as_str()) {
        Ok(()) => {},
        Err(e) => return Err(SpawnReject::InvalidAgentId(e)),
    }
    proof {
        reveal_strlit("");
        assert(req.requester_pubkey@.len() == 0 ==> req.requester_pubkey@ =~= ""@);
    }
    if !text::str_eq(req.requester_pubkey.as_str(), "") {
        let signer = signing::parse_public_key(event.pubkey.as_str());
        if !text::opt_str_eq(&signer, req.requester_pubkey.as_str()) {
            return Err(SpawnReject::RequesterMismatch);
        }
    }
    Ok(req)
}

/// The compact JSON of a request, with its fields in the order of declaration.
pub open spec fn request_json(req: SpawnRequest) -> Seq<char> {
    "{\"agent_id\":"@ + crypto::json_text(req.agent_id@) + ",\"genome_config\":"@
        + req.genome_config@ + ",\"image_ref\":"@ + crypto::json_text(req.image_ref@)
        + ",\"funding\":{\"seed_sats\":"@ + text::decimal(req.funding.seed_sats as nat)
        + "},\"requester_pubkey\":"@ + crypto::json_text(req.requester_pubkey@) + "}"@
}

/// The tags of a spawn request: the agent as its address, the fleet's topic and the agent.
pub open spec fn request_tags(agent_id: Seq<char>) -> Seq<Seq<Seq<char>>> {
    seq![seq!["d"@, agent_id], seq!["t"@, "kirby"@], seq!["a"@, agent_id]]
}

/// None of a request's tags addresses it to its author.
proof fn lemma_request_tags_are_kept(agent_id: Seq<char>, author: Seq<char>)
    ensures
        signing::signed_tags(request_tags(agent_id), author) == request_tags(agent_id),
{
    let tags = request_tags(agent_id);
    let keep = |t: Seq<Seq<char>>| !signing::is_self_address(t, author);
    reveal_strlit("d");
    reveal_strlit("t");
    reveal_strlit("a");
    reveal_strlit("p");
    assert("d"@[0] != "p"@[0] && "t"@[0] != "p"@[0] && "a"@[0] != "p"@[0]);
    assert(tags.drop_last().drop_last().drop_last() =~= Seq::<Seq<Seq<char>>>::empty());
    reveal(Seq::filter);
    assert(tags.drop_last().drop_last().drop_last().filter(keep) =~= Seq::<
        Seq<Seq<char>>,
    >::empty());
    assert(tags.drop_last().drop_last().filter(keep) =~= seq![tags[0]]);
    assert(tags.drop_last().filter(keep) =~= seq![tags[0], tags[1]]);
    assert(tags.filter(keep) =~= tags);
}

/// Sign a spawn request. The signer is the requester.
pub fn build_spawn_request_event(keys: &NodeKeys, req: &SpawnRequest) -> (e: NostrEvent)
    ensures
        signing::authentic(e),
        e.kind == KIND_KIRBY_SPAWN_REQUEST,
        e.pubkey@ == keys.public(),
        e.content@ == request_json(*req),
        nostr::tag_views(e.tags@) == request_tags(req.agent_id@),
{
    let mut content = "{\"agent_id\":".to_owned();
    content.append(crypto::json_string(req.agent_id.as_str()).as_str());
    content.append(",\"genome_config\":");
    content.append(req.genome_config.as_str());
    content.append(",\"image_ref\":");
    content.append(crypto::json_string(req.image_ref.as_str()).as_str());
    content.append(",\"funding\":{\"seed_sats\":");
    text::append_decimal(&mut content, req.funding.seed_sats);
    content.append("},\"requester_pubkey\":");
    content.append(crypto::json_string(req.requester_pubkey.as_str()).as_str());
    content.append("}");
    assert(content@ =~= request_json(*req));
    let mut tags: Vec<Vec<String>> = Vec::new();
    assert(nostr::tag_views(tags@) =~= Seq::<Seq<Seq<char>>>::empty());
    nostr::push_tag(&mut tags, nostr::pair_tag("d", req.agent_id.as_str()));
    nostr::push_tag(&mut tags, nostr::pair_tag("t", "kirby"));
    nostr::push_tag(&mut tags, nostr::pair_tag("a", req.agent_id.as_str()));
    assert(nostr::tag_views(tags@) =~= request_tags(req.agent_id@));
    proof {
        nostr::lemma_tag_lengths(tags@);
        lemma_request_tags_are_kept(req.agent_id@, keys.public());
    }
    keys.sign(KIND_KIRBY_SPAWN_REQUEST, &tags, content.as_str())
}

/// A signed request is accepted back: an event with the author's signature over a request passes
/// exactly if the request is short enough, its label is a label, and it names no other requester.
pub proof fn built_request_is_accepted_back(e: NostrEvent, req: SpawnRequest)
    requires
        signing::authentic(e),
        e.kind == KIND_KIRBY_SPAWN_REQUEST,
        e.content@ == request_json(req),
    ensures
        parse_reject(e, Some(req)) is None <==> {
            &&& vstd::utf8::encode_utf8(request_json(req)).len() <= MAX_SPAWN_CONTENT_BYTES
            &&& config::label_error(req.agent_id@) is None
            &&& req.requester_pubkey@.len() == 0 || signing::public_key_of(e.pubkey@) == Some(
                req.requester_pubkey@,
            )
        },
{
}

// ---------------------------------------------------------------------------------------------
// The consumer
// ---------------------------------------------------------------------------------------------
/// The rule that turned a request away, and what it said.
pub enum Refusal {
    Parse(SpawnReject),
    Image(Seq<char>),
    Denied(Seq<char>),
    Unfunded(Seq<char>),
    Full,
    Elsewhere(LeaseNodeId, u64),
}

/// Whether an outcome reports a refusal.
pub open spec fn reports(outcome: SpawnOutcome, refusal: Refusal) -> bool {
    match refusal {
        Refusal::Parse(reject) => outcome == SpawnOutcome::Rejected(reject),
        Refusal::Image(image) => outcome matches SpawnOutcome::Rejected(
            SpawnReject::UnknownImage(s),
        ) && s@ == image,
        Refusal::Denied(why) => outcome matches SpawnOutcome::Rejected(SpawnReject::Unauthorized(s))
            && s@ == why,
        Refusal::Unfunded(why) => outcome matches SpawnOutcome::Rejected(SpawnReject::Funding(s))
            && s@ == why,
        Refusal::Full => outcome == SpawnOutcome::Skipped(SpawnSkip::OverCapacity),
        Refusal::Elsewhere(holder, term) => outcome == SpawnOutcome::Skipped(
            SpawnSkip::AlreadyClaimedElsewhere { holder, term },
        ),
    }
}

/// The outcome of a request whose launch came to `launched`.
pub open spec fn launch_outcome(launched: Result<TenantRecord, String>) -> SpawnOutcome {
    match launched {
        Ok(record) => SpawnOutcome::Launched {
            agent_id: record.agent_id,
            frost_npub: record.frost_npub,
            lease_term: record.lease_term,
        },
        Err(why) => SpawnOutcome::LaunchFailed(why),
    }
}

/// Whether an outcome reports that the agent could not be reserved, for the reason `why`.
pub open spec fn reports_no_reserve(outcome: SpawnOutcome, why: Seq<char>) -> bool {
    outcome matches SpawnOutcome::LaunchFailed(s) && s@ == "durable reserve failed: "@ + why
}

/// Whether `call` settles a launch of `agent_id`: one that succeeded is confirmed, one that failed
/// is given up. Where the ledger did it, `before` became `after`; one that works did.
pub open spec fn settles(
    call: LedgerCall,
    agent_id: Seq<char>,
    launched: bool,
    works: bool,
    before: Phases,
    after: Phases,
) -> bool {
    match call {
        LedgerCall::Finalize(a, done) => {
            &&& launched && a == agent_id
            &&& works ==> done
            &&& done ==> after == before.insert(agent_id, true)
        },
        LedgerCall::Release(a, done) => {
            &&& !launched && a == agent_id
            &&& works ==> done
            &&& done ==> after == before.remove(agent_id)
        },
        LedgerCall::Reserve(_, _) => false,
    }
}

/// What an event calls for.
#[derive(Debug)]
pub enum SpawnStep {
    /// Nothing more.
    Done(SpawnOutcome),
    /// The agent is reserved: launch this tenant, and settle what came of it.
    Launch(TenantConfig),
}

/// Turns spawn requests into launched agents.
pub struct SpawnConsumer<A, F, L, V> {
    max_tenants: usize,
    image_allowlist: Vec<String>,
    authorizer: A,
    funder: F,
    ledger: L,
    fence: V,
}

impl<A: SpawnAuthorizer, F: SpawnFunder, L: SpawnLedger> SpawnConsumer<A, F, L, NoFence> {
    /// A consumer that hosts at most `max_tenants` and runs the images of `image_allowlist` and no
    /// others, without peers.
    pub fn new(
        max_tenants: usize,
        image_allowlist: Vec<String>,
        authorizer: A,
        funder: F,
        ledger: L,
    ) -> (r: Self)
        ensures
            r.ceiling() == max_tenants,
            r.images() == text::views(image_allowlist@),
            r.auth() == authorizer,
            r.funding() == funder,
            r.store() == ledger,
            r.view_of_peers() == NoFence,
    {
        SpawnConsumer {
            max_tenants,
            image_allowlist,
            authorizer,
            funder,
            ledger,
            fence: NoFence,
        }
    }

    /// The same consumer with a view of its peers: it leaves alone what another node holds.
    pub fn with_fence<V: SpawnFenceView>(self, fence: V) -> (r: SpawnConsumer<A, F, L, V>)
        ensures
            r.ceiling() == self.ceiling(),
            r.images() == self.images(),
            r.auth() == self.auth(),
            r.funding() == self.funding(),
            r.store() == self.store(),
            r.view_of_peers() == fence,
    {
        SpawnConsumer {
            max_tenants: self.max_tenants,
            image_allowlist: self.image_allowlist,
            authorizer: self.authorizer,
            funder: self.funder,
            ledger: self.ledger,
            fence,
        }
    }
}

impl<A: SpawnAuthorizer, F: SpawnFunder, L: SpawnLedger, V: SpawnFenceView> SpawnConsumer<
    A,
    F,
    L,
    V,
> {
    /// The most tenants that the node hosts.
    pub closed spec fn ceiling(&self) -> usize {
        self.max_tenants
    }

    /// The staged images.
    pub closed spec fn images(&self) -> Seq<Seq<char>> {
        text::views(self.image_allowlist@)
    }

    /// The authorizer.
    pub closed spec fn auth(&self) -> A {
        self.authorizer
    }

    /// The funder.
    pub closed spec fn funding(&self) -> F {
        self.funder
    }

    /// The ledger.
    pub closed spec fn store(&self) -> L {
        self.ledger
    }

    /// The view of the node's peers.
    pub closed spec fn view_of_peers(&self) -> V {
        self.fence
    }

    /// The rule that turns an event away, if one does. The rules come in this order: the request's
    /// form, its image, its signer, its funding, the node's capacity, and the peers.
    pub open spec fn refusal(
        &self,
        e: NostrEvent,
        parsed: Option<SpawnRequest>,
        now_secs: u64,
        tenants: usize,
    ) -> Option<Refusal> {
        if parse_reject(e, parsed) is Some {
            Some(Refusal::Parse(parse_reject(e, parsed)->0))
        } else {
            let req = parsed->0;
            let requester = signing::public_key_of(e.pubkey@)->0;
            let held = self.view_of_peers().held(req.agent_id@, now_secs);
            if !self.images().contains(req.image_ref@) {
                Some(Refusal::Image(req.image_ref@))
            } else if self.auth().denial(req, requester, now_secs) is Some {
                Some(Refusal::Denied(self.auth().denial(req, requester, now_secs)->0))
            } else if self.funding().granted(req) is Err {
                Some(Refusal::Unfunded(self.funding().granted(req)->Err_0))
            } else if tenants >= self.ceiling() {
                Some(Refusal::Full)
            } else if held is Some && held->0.node_id != self.view_of_peers().this_node() {
                Some(Refusal::Elsewhere(held->0.node_id, held->0.term))
            } else {
                None
            }
        }
    }

    /// Whether the authorizer of `after` is this consumer's, once it has decided on the request.
    pub open spec fn asked_auth(
        &self,
        after: Self,
        e: NostrEvent,
        parsed: Option<SpawnRequest>,
        now_secs: u64,
    ) -> bool {
        self.auth().has_decided(
            after.auth(),
            parsed->0,
            signing::public_key_of(e.pubkey@)->0,
            now_secs,
        )
    }

    /// Check that an event is an authentic, well-formed spawn request of its signer. `parsed` is
    /// its decoded content. No policy is consulted.
    pub fn parse_and_validate(&self, event: &NostrEvent, parsed: Option<SpawnRequest>) -> (r: Result<
        SpawnRequest,
        SpawnReject,
    >)
        ensures
            match r {
                Ok(req) => parse_reject(*event, parsed) is None && parsed == Some(req),
                Err(reject) => parse_reject(*event, parsed) == Some(reject),
            },
    {
        validated(event, parsed)
    }

    /// The ledger, to look into.
    pub fn ledger(&mut self) -> (r: &mut L)
        ensures
            *r == old(self).store(),
            final(self).store() == *final(r),
            final(self).auth() == old(self).auth(),
            final(self).funding() == old(self).funding(),
            final(self).images() == old(self).images(),
            final(self).ceiling() == old(self).ceiling(),
            final(self).view_of_peers() == old(self).view_of_peers(),
    {
        &mut self.ledger
    }

    /// Take an event through the gates and reserve its agent. `tenants` is how many tenants the
    /// node hosts.
    pub fn consider(
        &mut self,
        event: &NostrEvent,
        parsed: Option<SpawnRequest>,
        now_secs: u64,
        tenants: usize,
    ) -> (step: SpawnStep)
        ensures
            final(self).funding() == old(self).funding(),
            final(self).images() == old(self).images(),
            final(self).ceiling() == old(self).ceiling(),
            final(self).view_of_peers() == old(self).view_of_peers(),
            old(self).store().works() ==> final(self).store().works(),
            match old(self).refusal(*event, parsed, now_secs, tenants) {
                Some(refusal) => {
                    &&& step matches SpawnStep::Done(outcome) && reports(outcome, refusal)
                    &&& final(self).store() == old(self).store()
                    &&& if refusal is Parse || refusal is Image {
                        final(self).auth() == old(self).auth()
                    } else {
                        old(self).asked_auth(*final(self), *event, parsed, now_secs)
                    }
                },
                None => {
                    let agent_id = parsed->0.agent_id@;
                    let calls = final(self).store().calls();
                    &&& old(self).asked_auth(*final(self), *event, parsed, now_secs)
                    &&& calls.len() == old(self).store().calls().len() + 1
                    &&& calls.drop_last() == old(self).store().calls()
                    &&& match calls.last() {
                        LedgerCall::Reserve(a, Ok(found)) => {
                            &&& a == agent_id
                            &&& found == reserve_outcome(old(self).store().phases(), agent_id)
                            &&& final(self).store().phases() == reserved(
                                old(self).store().phases(),
                                agent_id,
                            )
                            &&& if found == ReserveOutcome::AlreadyLaunched {
                                step == SpawnStep::Done(
                                    SpawnOutcome::Skipped(SpawnSkip::AlreadySpawned),
                                )
                            } else {
                                &&& step matches SpawnStep::Launch(tenant)
                                &&& tenant.agent_id@ == agent_id
                                &&& old(self).funding().granted(parsed->0) == Ok::<u64, Seq<char>>(
                                    tenant.initial_sats,
                                )
                            }
                        },
                        LedgerCall::Reserve(a, Err(why)) => {
                            &&& a == agent_id
                            &&& !old(self).store().works()
                            &&& step matches SpawnStep::Done(outcome) && reports_no_reserve(
                                outcome,
                                why,
                            )
                        },
                        _ => false,
                    }
                },
            },
    {
        let req = match validated(event, parsed) {
            Ok(req) => req,
            Err(reject) => return SpawnStep::Done(SpawnOutcome::Rejected(reject)),
        };
        if !text::names_contain(&self.image_allowlist, req.image_ref.as_str()) {
            return SpawnStep::Done(SpawnOutcome::Rejected(SpawnReject::UnknownImage(req.image_ref)));
        }
        let requester = match signing::parse_public_key(event.pubkey.as_str()) {
            Some(k) => k,
            None => return SpawnStep::Done(SpawnOutcome::Rejected(SpawnReject::BadSignature)),
        };
        match self.authorizer.authorize(&req, requester.as_str(), now_secs) {
            SpawnDecision::Deny(why) => {
                return SpawnStep::Done(SpawnOutcome::Rejected(SpawnReject::Unauthorized(why)));
            },
            SpawnDecision::Allow => {},
        }
        let funding = match self.funder.fund(&req) {
            Ok(f) => f,
            Err(why) => return SpawnStep::Done(SpawnOutcome::Rejected(SpawnReject::Funding(why))),
        };
        if tenants >= self.max_tenants {
            return SpawnStep::Done(SpawnOutcome::Skipped(SpawnSkip::OverCapacity));
        }
        match self.fence.active_lease_for(req.agent_id.as_str(), now_secs) {
            Some(lease) => {
                if lease.node_id != self.fence.node_id() {
                    return SpawnStep::Done(
                        SpawnOutcome::Skipped(
                            SpawnSkip::AlreadyClaimedElsewhere {
                                holder: lease.node_id,
                                term: lease.term,
                            },
                        ),
                    );
                }
            },
            None => {},
        }
        let found = self.ledger.reserve(req.agent_id.as_str());
        assert(self.ledger.calls().drop_last() =~= old(self).ledger.calls());
        match found {
            Ok(ReserveOutcome::AlreadyLaunched) => SpawnStep::Done(
                SpawnOutcome::Skipped(SpawnSkip::AlreadySpawned),
            ),
            Ok(_) => SpawnStep::Launch(
                TenantConfig { agent_id: req.agent_id, initial_sats: funding.initial_sats },
            ),
            Err(e) => {
                let mut why = "durable reserve failed: ".to_owned();
                why.append(e.as_str());
                SpawnStep::Done(SpawnOutcome::LaunchFailed(why))
            },
        }
    }

    /// Settle what came of a launch: confirm the reservation, or release it.
    pub fn settle(&mut self, agent_id: &str, launched: Result<TenantRecord, String>) -> (outcome:
        SpawnOutcome)
        ensures
            final(self).auth() == old(self).auth(),
            final(self).funding() == old(self).funding(),
            final(self).images() == old(self).images(),
            final(self).ceiling() == old(self).ceiling(),
            final(self).view_of_peers() == old(self).view_of_peers(),
            old(self).store().works() ==> final(self).store().works(),
            outcome == launch_outcome(launched),
            final(self).store().calls().len() == old(self).store().calls().len() + 1,
            final(self).store().calls().drop_last() == old(self).store().calls(),
            settles(
                final(self).store().calls().last(),
                agent_id@,
                launched is Ok,
                old(self).store().works(),
                old(self).store().phases(),
                final(self).store().phases(),
            ),
    {
        match launched {
            Ok(record) => {
                // An agent whose confirmation fails stays pending, and a later request resumes it.
                let _ = self.ledger.finalize(agent_id);
                assert(self.ledger.calls().drop_last() =~= old(self).ledger.calls());
                SpawnOutcome::Launched {
                    agent_id: record.agent_id,
                    frost_npub: record.frost_npub,
                    lease_term: record.lease_term,
                }
            },
            Err(why) => {
                let _ = self.ledger.release(agent_id);
                assert(self.ledger.calls().drop_last() =~= old(self).ledger.calls());
                SpawnOutcome::LaunchFailed(why)
            },
        }
    }

    /// Handle one event: take it through the gates, reserve its agent, launch it, and settle what
    /// came of the launch.
    pub fn handle_event<S: SpawnSink>(
        &mut self,
        event: &NostrEvent,
        parsed: Option<SpawnRequest>,
        now_secs: u64,
        sink: &mut S,
    ) -> (outcome: SpawnOutcome)
        ensures
            final(self).funding() == old(self).funding(),
            final(self).images() == old(self).images(),
            final(self).ceiling() == old(self).ceiling(),
            final(self).view_of_peers() == old(self).view_of_peers(),
            old(self).store().works() ==> final(self).store().works(),
            match old(self).refusal(*event, parsed, now_secs, old(sink).hosted()) {
                Some(refusal) => {
                    &&& reports(outcome, refusal)
                    &&& final(self).store() == old(self).store()
                    &&& *final(sink) == *old(sink)
                    &&& if refusal is Parse || refusal is Image {
                        final(self).auth() == old(self).auth()
                    } else {
                        old(self).asked_auth(*final(self), *event, parsed, now_secs)
                    }
                },
                None => {
                    let agent_id = parsed->0.agent_id@;
                    let sats = old(self).funding().granted(parsed->0)->Ok_0;
                    let before = old(self).store().phases();
                    let after = final(self).store().phases();
                    let works = old(self).store().works();
                    let n = old(self).store().calls().len() as int;
                    let calls = final(self).store().calls();
                    &&& old(self).asked_auth(*final(self), *event, parsed, now_secs)
                    &&& calls.len() > n
                    &&& calls.take(n) == old(self).store().calls()
                    &&& match calls[n] {
                        LedgerCall::Reserve(a, Ok(found)) => {
                            &&& a == agent_id
                            &&& found == reserve_outcome(before, agent_id)
                            &&& if found == ReserveOutcome::AlreadyLaunched {
                                &&& outcome == SpawnOutcome::Skipped(SpawnSkip::AlreadySpawned)
                                &&& calls.len() == n + 1
                                &&& after == before
                                &&& *final(sink) == *old(sink)
                            } else {
                                &&& final(sink).asked() == old(sink).asked().push((agent_id, sats))
                                &&& final(sink).answered().len() == old(sink).answered().len() + 1
                                &&& final(sink).answered().drop_last() == old(sink).answered()
                                &&& outcome == launch_outcome(final(sink).answered().last())
                                &&& calls.len() == n + 2
                                &&& settles(
                                    calls[n + 1],
                                    agent_id,
                                    final(sink).answered().last() is Ok,
                                    works,
                                    before,
                                    after,
                                )
                            }
                        },
                        LedgerCall::Reserve(a, Err(why)) => {
                            &&& a == agent_id
                            &&& !works
                            &&& reports_no_reserve(outcome, why)
                            &&& calls.len() == n + 1
                            &&& *final(sink) == *old(sink)
                        },
                        _ => false,
                    }
                },
            },
            outcome is Rejected || (outcome is Skipped && outcome->Skipped_0
                != SpawnSkip::AlreadySpawned) ==> final(self).store() == old(self).store()
                && *final(sink) == *old(sink),
    {
        let tenants: usize = sink.tenant_count();
        let step = self.consider(event, parsed, now_secs, tenants);
        let ghost considered = self.store().calls();
        proof {
            if old(self).refusal(*event, parsed, now_secs, tenants) is None {
                assert(considered.take(old(self).store().calls().len() as int)
                    =~= considered.drop_last());
            }
        }
        match step {
            SpawnStep::Done(outcome) => {
                assert(reserve_outcome(old(self).store().phases(), parsed->0.agent_id@)
                    == ReserveOutcome::AlreadyLaunched ==> reserved(
                    old(self).store().phases(),
                    parsed->0.agent_id@,
                ) == old(self).store().phases());
                outcome
            },
            SpawnStep::Launch(tenant) => {
                let launched = sink.launch(&tenant);
                assert(sink.answered().drop_last() =~= old(sink).answered());
                let outcome = self.settle(tenant.agent_id.as_str(), launched);
                proof {
                    let before = old(self).store().phases();
                    let agent_id = parsed->0.agent_id@;
                    let n = old(self).store().calls().len() as int;
                    assert(reserved(before, agent_id).insert(agent_id, true) =~= before.insert(
                        agent_id,
                        true,
                    ));
                    assert(reserved(before, agent_id).remove(agent_id) =~= before.remove(agent_id));
                    let calls = self.store().calls();
                    assert(calls.drop_last()[n] == considered[n] && calls[n] == considered[n]);
                    assert(calls.take(n) =~= considered.take(n));
                }
                outcome
            },
        }
    }
}

/// Two nodes that see the same leases do not both launch: where a fresh lease names one node, the
/// other one refuses every request for the agent.
pub proof fn held_agent_is_refused_elsewhere<
    A: SpawnAuthorizer,
    F: SpawnFunder,
    L: SpawnLedger,
    V: SpawnFenceView,
>(
    consumer: SpawnConsumer<A, F, L, V>,
    e: NostrEvent,
    req: SpawnRequest,
    now_secs: u64,
    tenants: usize,
)
    requires
        consumer.view_of_peers().held(req.agent_id@, now_secs) is Some,
        consumer.view_of_peers().held(req.agent_id@, now_secs)->0.node_id
            != consumer.view_of_peers().this_node(),
    ensures
        consumer.refusal(e, Some(req), now_secs, tenants) is Some,
{
}

/// Nothing unsigned is launched: an event that is not authentic is refused whatever it says.
pub proof fn forged_request_is_refused<
    A: SpawnAuthorizer,
    F: SpawnFunder,
    L: SpawnLedger,
    V: SpawnFenceView,
>(
    consumer: SpawnConsumer<A, F, L, V>,
    e: NostrEvent,
    parsed: Option<SpawnRequest>,
    now_secs: u64,
    tenants: usize,
)
    requires
        !signing::authentic(e),
    ensures
        consumer.refusal(e, parsed, now_secs, tenants) matches Some(Refusal::Parse(_)),
{
}

// ---------------------------------------------------------------------------------------------
// What the calls come to
// ---------------------------------------------------------------------------------------------
/// Requesters do not use up each other's limit: a decision on one requester changes nothing for
/// another one. What the other one would have been told before, at any time and for any request, it
/// is told after.
pub proof fn requesters_do_not_share_a_limit(
    decided: &mut AllowlistAuthorizer,
    without: &mut AllowlistAuthorizer,
    with: &mut AllowlistAuthorizer,
    req: SpawnRequest,
    a: &str,
    now: u64,
    d: SpawnDecision,
    other: SpawnRequest,
    b: &str,
    at: u64,
    told_without: SpawnDecision,
    told_with: SpawnDecision,
)
    requires
        call_ensures(
            <AllowlistAuthorizer as SpawnAuthorizer>::authorize,
            (decided, &req, a, now),
            d,
        ),
        *old(without) == *old(decided),
        *old(with) == *final(decided),
        call_ensures(
            <AllowlistAuthorizer as SpawnAuthorizer>::authorize,
            (without, &other, b, at),
            told_without,
        ),
        call_ensures(
            <AllowlistAuthorizer as SpawnAuthorizer>::authorize,
            (with, &other, b, at),
            told_with,
        ),
        b@ != a@,
    ensures
        told_without is Allow <==> told_with is Allow,
        told_without matches SpawnDecision::Deny(why) ==> (told_with matches SpawnDecision::Deny(
            same,
        ) && same@ == why@),
        final(decided).window_of(b@, at) == old(decided).window_of(b@, at),
        final(decided).denial(other, b@, at) == old(decided).denial(other, b@, at),
{
}

/// Who may spawn, and how often: with a non-empty allowlist only those on it, and each of them as often
/// as the limit in a window. A window starts with the first request after the last one ended, and each
/// allowed request in it counts once.
pub proof fn limit_is_per_requester_and_window(
    auth: &mut AllowlistAuthorizer,
    req: SpawnRequest,
    requester: &str,
    now: u64,
    d: SpawnDecision,
)
    requires
        call_ensures(
            <AllowlistAuthorizer as SpawnAuthorizer>::authorize,
            (auth, &req, requester, now),
            d,
        ),
    ensures
        ({
            let listed = old(auth).operators().len() == 0 || old(auth).operators().contains(
                requester@,
            );
            let known = old(auth).windows().contains_key(requester@);
            let w = old(auth).windows()[requester@];
            let open = known && old(auth).window_len() > 0 && now - w.start < old(auth).window_len();
            let count = if open {
                w.count
            } else {
                0
            };
            &&& d is Allow <==> listed && count < old(auth).limit()
            &&& d is Allow ==> {
                &&& final(auth).windows().contains_key(requester@)
                &&& final(auth).windows()[requester@].count == count + 1
                &&& final(auth).windows()[requester@].start == if open {
                    w.start
                } else {
                    now
                }
            }
            &&& d matches SpawnDecision::Deny(why) ==> if listed {
                why@ == "rate limit: "@ + text::decimal(count as nat) + " spawns within "@
                    + text::decimal(old(auth).window_len() as nat) + "s for "@ + requester@
            } else {
                why@ == "requester "@ + requester@ + " is not in the operator allowlist"@
            }
        }),
        final(auth).operators() == old(auth).operators(),
        final(auth).limit() == old(auth).limit(),
        final(auth).window_len() == old(auth).window_len(),
        final(auth).windows().remove(requester@) == old(auth).windows().remove(requester@),
{
    assert(final(auth).windows().remove(requester@) =~= old(auth).windows().remove(requester@));
}

/// A new authorizer has the allowlist, the limit and the window it was given, and has counted nothing:
/// the first request of each of its operators is allowed, unless the limit is zero.
pub proof fn first_request_of_an_operator_is_allowed(
    allowed: Vec<String>,
    limit: u32,
    window_secs: u64,
    auth: &mut AllowlistAuthorizer,
    req: SpawnRequest,
    requester: &str,
    now: u64,
    d: SpawnDecision,
)
    requires
        call_ensures(AllowlistAuthorizer::new, (allowed, limit, window_secs), *old(auth)),
        call_ensures(
            <AllowlistAuthorizer as SpawnAuthorizer>::authorize,
            (auth, &req, requester, now),
            d,
        ),
    ensures
        d is Allow <==> limit > 0 && (allowed@.len() == 0 || exists|i: int|
            0 <= i < allowed@.len() && (#[trigger] allowed@[i])@ == requester@),
{
    let names = text::views(allowed@);
    assert(names.len() == allowed@.len());
    if names.contains(requester@) {
        let i = choose|i: int| 0 <= i < names.len() && names[i] == requester@;
        assert(allowed@[i]@ == requester@);
    }
    if exists|i: int| 0 <= i < allowed@.len() && (#[trigger] allowed@[i])@ == requester@ {
        let i = choose|i: int| 0 <= i < allowed@.len() && (#[trigger] allowed@[i])@ == requester@;
        assert(names[i] == requester@);
    }
}

/// An agent starts with exactly the seed that was asked for: from one sat up to the ceiling it is
/// cleared as it is, and nothing else is cleared.
pub proof fn seed_is_cleared_as_asked(
    max_seed_sats: u64,
    funder: SeedFunder,
    req: SpawnRequest,
    r: Result<Funding, String>,
)
    requires
        call_ensures(SeedFunder::new, (max_seed_sats,), funder),
        call_ensures(<SeedFunder as SpawnFunder>::fund, (&funder, &req), r),
    ensures
        r is Ok <==> 0 < req.funding.seed_sats && req.funding.seed_sats <= max_seed_sats,
        r matches Ok(f) ==> f.initial_sats == req.funding.seed_sats,
{
}

/// A reservation concerns its agent alone: reserving, confirming and releasing one agent leaves every
/// other one as it was. A new agent becomes pending, a pending one stays so, a confirmed one is
/// launched for good until it is released.
pub proof fn reservation_concerns_its_agent_alone(
    reserved_in: &mut MemLedger,
    confirmed_in: &mut MemLedger,
    released_in: &mut MemLedger,
    agent_id: &str,
    found: Result<ReserveOutcome, String>,
    confirmed: Result<(), String>,
    released: Result<(), String>,
    other: Seq<char>,
)
    requires
        call_ensures(<MemLedger as SpawnLedger>::reserve, (reserved_in, agent_id), found),
        call_ensures(<MemLedger as SpawnLedger>::finalize, (confirmed_in, agent_id), confirmed),
        call_ensures(<MemLedger as SpawnLedger>::release, (released_in, agent_id), released),
        other != agent_id@,
    ensures
        found is Ok && confirmed is Ok && released is Ok,
        !old(reserved_in).phases().contains_key(agent_id@) <==> found->Ok_0
            == ReserveOutcome::Fresh,
        old(reserved_in).phases().contains_key(agent_id@) && old(reserved_in).phases()[agent_id@] <==> found->Ok_0 == ReserveOutcome::AlreadyLaunched,
        final(reserved_in).phases().contains_key(agent_id@),
        final(reserved_in).phases()[agent_id@] <==> found->Ok_0 == ReserveOutcome::AlreadyLaunched,
        final(confirmed_in).phases().contains_key(agent_id@) && final(confirmed_in).phases()[agent_id@],
        !final(released_in).phases().contains_key(agent_id@),
        final(reserved_in).phases().contains_key(other) == old(reserved_in).phases().contains_key(other),
        final(reserved_in).phases()[other] == old(reserved_in).phases()[other],
        final(confirmed_in).phases().contains_key(other) == old(confirmed_in).phases().contains_key(other),
        final(confirmed_in).phases()[other] == old(confirmed_in).phases()[other],
        final(released_in).phases().contains_key(other) == old(released_in).phases().contains_key(other),
        final(released_in).phases()[other] == old(released_in).phases()[other],
{
}

/// A stored phase is read back as what it was stored for: nothing stored is fresh, the pending mark is
/// resumed, and only the mark of a launch counts as launched.
pub proof fn stored_phase_is_read_back(stored: Option<&[u8]>, r: ReserveOutcome)
    requires
        call_ensures(reserve_from_stored, (stored,), r),
    ensures
        stored is None <==> r == ReserveOutcome::Fresh,
        stored matches Some(v) ==> (r == ReserveOutcome::AlreadyLaunched <==> v@.len() == 1 && v@[0]
            == 76),
        stored matches Some(v) ==> (v@ == seq![SPAWN_STATE_PENDING] ==> r
            == ReserveOutcome::ResumePending),
        stored matches Some(v) ==> (v@ == seq![SPAWN_STATE_LAUNCHED] ==> r
            == ReserveOutcome::AlreadyLaunched),
        SPAWN_STATE_PENDING == 80,
        SPAWN_STATE_LAUNCHED == 76,
{
    if stored is Some {
        let v = stored->0;
        if v@.len() == 1 && v@[0] == 76 {
            assert(v@ =~= seq![76u8]);
        }
    }
}

/// Which events are requests: those of the kind of spawn requests that are authentic, whose content is
/// short enough and decodes, whose label is a label, and that name no other requester than their
/// signer. A request is what its content decodes to, unchanged.
pub proof fn request_is_its_signers_own_words<
    A: SpawnAuthorizer,
    F: SpawnFunder,
    L: SpawnLedger,
    V: SpawnFenceView,
>(
    consumer: SpawnConsumer<A, F, L, V>,
    e: NostrEvent,
    parsed: Option<SpawnRequest>,
    r: Result<SpawnRequest, SpawnReject>,
)
    requires
        call_ensures(
            SpawnConsumer::<A, F, L, V>::parse_and_validate,
            (&consumer, &e, parsed),
            r,
        ),
    ensures
        r is Ok <==> {
            &&& e.kind == 31003
            &&& signing::authentic(e)
            &&& vstd::utf8::encode_utf8(e.content@).len() <= 8192
            &&& parsed is Some
            &&& config::label_error(parsed->0.agent_id@) is None
            &&& parsed->0.requester_pubkey@.len() == 0 || signing::public_key_of(e.pubkey@) == Some(
                parsed->0.requester_pubkey@,
            )
        },
        r matches Ok(req) ==> parsed == Some(req),
        r matches Err(SpawnReject::WrongKind(k)) ==> k == e.kind && k != 31003,
        e.kind != 31003 ==> (r matches Err(SpawnReject::WrongKind(_))),
        e.kind == 31003 && !signing::authentic(e) ==> (r matches Err(SpawnReject::BadSignature)),
        r matches Err(SpawnReject::OversizedContent(_)) ==> vstd::utf8::encode_utf8(
            e.content@,
        ).len() > 8192,
        r matches Err(SpawnReject::MalformedContent) ==> parsed is None,
        r matches Err(SpawnReject::InvalidAgentId(why)) ==> config::label_error(
            parsed->0.agent_id@,
        ) == Some(why),
        r matches Err(SpawnReject::RequesterMismatch) ==> parsed->0.requester_pubkey@.len() > 0
            && signing::public_key_of(e.pubkey@) != Some(parsed->0.requester_pubkey@),
        !(r matches Err(SpawnReject::UnknownImage(_))),
        !(r matches Err(SpawnReject::Unauthorized(_))),
        !(r matches Err(SpawnReject::Funding(_))),
{
}

/// What is launched, and what it takes: an agent is launched only for an authentic, well-formed request
/// for a staged image, that the authorizer and the funder let pass, while the node has room and no
/// other node holds the agent, and that this node has not launched before. It is launched once, under
/// the requested label and with the granted money. Any other event launches nothing.
pub proof fn only_a_passed_request_is_launched<
    A: SpawnAuthorizer,
    F: SpawnFunder,
    L: SpawnLedger,
    V: SpawnFenceView,
    S: SpawnSink,
>(
    consumer: &mut SpawnConsumer<A, F, L, V>,
    e: NostrEvent,
    parsed: Option<SpawnRequest>,
    now: u64,
    sink: &mut S,
    outcome: SpawnOutcome,
)
    requires
        call_ensures(
            SpawnConsumer::<A, F, L, V>::handle_event::<S>,
            (consumer, &e, parsed, now, sink),
            outcome,
        ),
    ensures
        final(sink).asked() != old(sink).asked() ==> {
            let req = parsed->0;
            let requester = signing::public_key_of(e.pubkey@)->0;
            let held = old(consumer).view_of_peers().held(req.agent_id@, now);
            let phases = old(consumer).store().phases();
            &&& e.kind == 31003
            &&& signing::authentic(e)
            &&& parsed is Some
            &&& config::label_error(req.agent_id@) is None
            &&& old(consumer).images().contains(req.image_ref@)
            &&& old(consumer).auth().denial(req, requester, now) is None
            &&& old(consumer).funding().granted(req) is Ok
            &&& old(sink).hosted() < old(consumer).ceiling()
            &&& held is None || held->0.node_id == old(consumer).view_of_peers().this_node()
            &&& !(phases.contains_key(req.agent_id@) && phases[req.agent_id@])
            &&& final(sink).asked() == old(sink).asked().push(
                (req.agent_id@, old(consumer).funding().granted(req)->Ok_0),
            )
        },
        outcome is Launched ==> final(sink).asked().len() == old(sink).asked().len() + 1,
        outcome matches SpawnOutcome::Launched { agent_id, frost_npub, lease_term } ==> {
            let answer = final(sink).answered().last();
            &&& answer is Ok
            &&& answer->Ok_0.agent_id == agent_id
            &&& answer->Ok_0.frost_npub == frost_npub
            &&& answer->Ok_0.lease_term == lease_term
        },
        outcome is Launched && old(consumer).store().works() ==> final(consumer).store().phases() == old(consumer).store().phases().insert(parsed->0.agent_id@, true),
        outcome is Rejected ==> *final(sink) == *old(sink) && final(consumer).store() == old(consumer).store(),
{
}

/// A request that passes every gate is launched, where the store works: it is reserved, the node is
/// asked to launch it, and what came of that is what is reported. A failed launch is released again.
pub proof fn passed_request_is_launched<
    A: SpawnAuthorizer,
    F: SpawnFunder,
    L: SpawnLedger,
    V: SpawnFenceView,
    S: SpawnSink,
>(
    consumer: &mut SpawnConsumer<A, F, L, V>,
    e: NostrEvent,
    req: SpawnRequest,
    now: u64,
    sink: &mut S,
    outcome: SpawnOutcome,
)
    requires
        call_ensures(
            SpawnConsumer::<A, F, L, V>::handle_event::<S>,
            (consumer, &e, Some(req), now, sink),
            outcome,
        ),
        e.kind == 31003,
        signing::authentic(e),
        vstd::utf8::encode_utf8(e.content@).len() <= 8192,
        config::label_error(req.agent_id@) is None,
        req.requester_pubkey@.len() == 0 || signing::public_key_of(e.pubkey@) == Some(
            req.requester_pubkey@,
        ),
        old(consumer).images().contains(req.image_ref@),
        old(consumer).auth().denial(req, signing::public_key_of(e.pubkey@)->0, now) is None,
        old(consumer).funding().granted(req) is Ok,
        old(sink).hosted() < old(consumer).ceiling(),
        old(consumer).view_of_peers().held(req.agent_id@, now) is None,
        !old(consumer).store().phases().contains_key(req.agent_id@),
        old(consumer).store().works(),
    ensures
        final(sink).asked() == old(sink).asked().push(
            (req.agent_id@, old(consumer).funding().granted(req)->Ok_0),
        ),
        outcome is Launched <==> final(sink).answered().last() is Ok,
        outcome is LaunchFailed <==> final(sink).answered().last() is Err,
        outcome matches SpawnOutcome::LaunchFailed(why) ==> final(sink).answered().last() == Err::<
            TenantRecord,
            String,
        >(why),
        outcome is Launched ==> final(consumer).store().phases().contains_key(req.agent_id@)
            && final(consumer).store().phases()[req.agent_id@],
        outcome is LaunchFailed ==> !final(consumer).store().phases().contains_key(req.agent_id@),
{
}

/// The gates and what they say: an image that is not staged, a requester that is denied, a funding that
/// is refused, a full node and an agent that another node holds each turn a well-formed request away,
/// with that reason, and nothing is reserved.
pub proof fn gates_say_why<
    A: SpawnAuthorizer,
    F: SpawnFunder,
    L: SpawnLedger,
    V: SpawnFenceView,
>(
    consumer: &mut SpawnConsumer<A, F, L, V>,
    e: NostrEvent,
    req: SpawnRequest,
    now: u64,
    tenants: usize,
    step: SpawnStep,
)
    requires
        call_ensures(
            SpawnConsumer::<A, F, L, V>::consider,
            (consumer, &e, Some(req), now, tenants),
            step,
        ),
        parse_reject(e, Some(req)) is None,
    ensures
        ({
            let requester = signing::public_key_of(e.pubkey@)->0;
            let staged = old(consumer).images().contains(req.image_ref@);
            let denial = old(consumer).auth().denial(req, requester, now);
            let granted = old(consumer).funding().granted(req);
            let held = old(consumer).view_of_peers().held(req.agent_id@, now);
            let elsewhere = held is Some && held->0.node_id != old(consumer).view_of_peers().this_node();
            &&& !staged ==> (step matches SpawnStep::Done(
                SpawnOutcome::Rejected(SpawnReject::UnknownImage(image)),
            ) && image@ == req.image_ref@)
            &&& staged && denial is Some ==> (step matches SpawnStep::Done(
                SpawnOutcome::Rejected(SpawnReject::Unauthorized(why)),
            ) && why@ == denial->0)
            &&& staged && denial is None && granted is Err ==> (step matches SpawnStep::Done(
                SpawnOutcome::Rejected(SpawnReject::Funding(why)),
            ) && why@ == granted->Err_0)
            &&& staged && denial is None && granted is Ok && tenants >= old(consumer).ceiling()
                ==> step == SpawnStep::Done(SpawnOutcome::Skipped(SpawnSkip::OverCapacity))
            &&& staged && denial is None && granted is Ok && tenants < old(consumer).ceiling()
                && elsewhere ==> step == SpawnStep::Done(
                SpawnOutcome::Skipped(
                    SpawnSkip::AlreadyClaimedElsewhere {
                        holder: held->0.node_id,
                        term: held->0.term,
                    },
                ),
            )
            &&& !staged || denial is Some || granted is Err || tenants >= old(consumer).ceiling()
                || elsewhere ==> final(consumer).store() == old(consumer).store()
            &&& step matches SpawnStep::Launch(tenant) ==> tenant.agent_id@ == req.agent_id@
                && granted == Ok::<u64, Seq<char>>(tenant.initial_sats)
        }),
{
}

/// A launch that succeeded is confirmed and reported with the tenant's own data; one that failed is
/// given up and reported with its reason.
pub proof fn launch_is_settled_by_what_came_of_it<
    A: SpawnAuthorizer,
    F: SpawnFunder,
    L: SpawnLedger,
    V: SpawnFenceView,
>(
    consumer: &mut SpawnConsumer<A, F, L, V>,
    agent_id: &str,
    launched: Result<TenantRecord, String>,
    outcome: SpawnOutcome,
)
    requires
        call_ensures(
            SpawnConsumer::<A, F, L, V>::settle,
            (consumer, agent_id, launched),
            outcome,
        ),
    ensures
        launched matches Ok(t) ==> outcome == (SpawnOutcome::Launched {
            agent_id: t.agent_id,
            frost_npub: t.frost_npub,
            lease_term: t.lease_term,
        }),
        launched matches Err(why) ==> outcome == SpawnOutcome::LaunchFailed(why),
        launched is Ok && old(consumer).store().works() ==> final(consumer).store().phases() == old(consumer).store().phases().insert(agent_id@, true),
        launched is Err && old(consumer).store().works() ==> final(consumer).store().phases() == old(consumer).store().phases().remove(agent_id@),
{
}

/// A built request is its requester's: an authentic event of the kind of spawn requests under the
/// signer's key, addressed to the agent, whose content holds each field of the request under its name.
pub proof fn built_request_says_what_was_asked(keys: NodeKeys, req: SpawnRequest, e: NostrEvent)
    requires
        call_ensures(build_spawn_request_event, (&keys, &req), e),
    ensures
        signing::authentic(e),
        e.kind == 31003,
        e.pubkey@ == keys.public(),
        nostr::tag_views(e.tags@).len() == 3,
        nostr::tag_views(e.tags@)[0] == seq!["d"@, req.agent_id@],
        nostr::tag_views(e.tags@)[1] == seq!["t"@, "kirby"@],
        nostr::tag_views(e.tags@)[2] == seq!["a"@, req.agent_id@],
        e.content@ == "{\"agent_id\":"@ + crypto::json_text(req.agent_id@) + ",\"genome_config\":"@
            + req.genome_config@ + ",\"image_ref\":"@ + crypto::json_text(req.image_ref@)
            + ",\"funding\":{\"seed_sats\":"@ + text::decimal(req.funding.seed_sats as nat)
            + "},\"requester_pubkey\":"@ + crypto::json_text(req.requester_pubkey@) + "}"@,
{
}

/// A new consumer holds what it was made of, and a fence changes nothing but its view of the peers.
pub proof fn consumer_is_made_of_its_parts<
    A: SpawnAuthorizer,
    F: SpawnFunder,
    L: SpawnLedger,
    V: SpawnFenceView,
>(
    max_tenants: usize,
    images: Vec<String>,
    authorizer: A,
    funder: F,
    ledger: L,
    plain: SpawnConsumer<A, F, L, NoFence>,
    fence: V,
    fenced: SpawnConsumer<A, F, L, V>,
    agent_id: Seq<char>,
    now: u64,
)
    requires
        call_ensures(
            SpawnConsumer::<A, F, L, NoFence>::new,
            (max_tenants, images, authorizer, funder, ledger),
            plain,
        ),
        call_ensures(SpawnConsumer::<A, F, L, NoFence>::with_fence::<V>, (plain, fence), fenced),
    ensures
        plain.ceiling() == max_tenants && fenced.ceiling() == max_tenants,
        plain.images() == text::views(images@) && fenced.images() == text::views(images@),
        plain.auth() == authorizer && fenced.auth() == authorizer,
        plain.funding() == funder && fenced.funding() == funder,
        plain.store() == ledger && fenced.store() == ledger,
        plain.view_of_peers().held(agent_id, now) is None,
        fenced.view_of_peers() == fence,
{
}

/// An agent that this node has launched is not launched again: the request is answered as spawned
/// already, and the node is asked for nothing.
pub proof fn launched_agent_is_not_launched_again<
    A: SpawnAuthorizer,
    F: SpawnFunder,
    L: SpawnLedger,
    V: SpawnFenceView,
    S: SpawnSink,
>(
    consumer: &mut SpawnConsumer<A, F, L, V>,
    e: NostrEvent,
    req: SpawnRequest,
    now: u64,
    sink: &mut S,
    outcome: SpawnOutcome,
)
    requires
        call_ensures(
            SpawnConsumer::<A, F, L, V>::handle_event::<S>,
            (consumer, &e, Some(req), now, sink),
            outcome,
        ),
        old(consumer).refusal(e, Some(req), now, old(sink).hosted()) is None,
        old(consumer).store().works(),
        old(consumer).store().phases().contains_key(req.agent_id@),
        old(consumer).store().phases()[req.agent_id@],
    ensures
        outcome == SpawnOutcome::Skipped(SpawnSkip::AlreadySpawned),
        *final(sink) == *old(sink),
        final(consumer).store().phases() == old(consumer).store().phases(),
{
}

/// The authorizer is asked once for each well-formed request for a staged image, whatever comes of it
/// later, and for nothing else; the funder, the images, the ceiling and the peers never change.
pub proof fn authorizer_is_asked_once<
    A: SpawnAuthorizer,
    F: SpawnFunder,
    L: SpawnLedger,
    V: SpawnFenceView,
    S: SpawnSink,
>(
    consumer: &mut SpawnConsumer<A, F, L, V>,
    e: NostrEvent,
    req: SpawnRequest,
    now: u64,
    sink: &mut S,
    outcome: SpawnOutcome,
)
    requires
        call_ensures(
            SpawnConsumer::<A, F, L, V>::handle_event::<S>,
            (consumer, &e, Some(req), now, sink),
            outcome,
        ),
    ensures
        parse_reject(e, Some(req)) is None && old(consumer).images().contains(req.image_ref@)
            ==> old(consumer).auth().has_decided(
            final(consumer).auth(),
            req,
            signing::public_key_of(e.pubkey@)->0,
            now,
        ),
        !(parse_reject(e, Some(req)) is None && old(consumer).images().contains(req.image_ref@))
            ==> final(consumer).auth() == old(consumer).auth(),
        final(consumer).funding() == old(consumer).funding(),
        final(consumer).images() == old(consumer).images(),
        final(consumer).ceiling() == old(consumer).ceiling(),
        final(consumer).view_of_peers() == old(consumer).view_of_peers(),
{
}

/// A reject's line names what was wrong.
pub proof fn reject_names_what_was_wrong(reject: SpawnReject, r: String)
    requires
        call_ensures(SpawnReject::message, (&reject,), r),
    ensures
        match reject {
            SpawnReject::WrongKind(k) => r@ == "wrong kind "@ + text::decimal(k as nat)
                + " (not a spawn request)"@,
            SpawnReject::BadSignature => r@ == "bad signature / id (forged or corrupt)"@,
            SpawnReject::OversizedContent(n) => r@ == "content too large ("@ + text::decimal(
                n as nat,
            ) + " bytes)"@,
            SpawnReject::MalformedContent => r@ == "malformed spawn-request JSON"@,
            SpawnReject::InvalidAgentId(_) => "invalid agent_id: "@.is_prefix_of(r@),
            SpawnReject::RequesterMismatch => r@
                == "requester_pubkey disagrees with the signing key"@,
            SpawnReject::UnknownImage(i) => r@ == "image_ref "@ + text::debug_text(i@)
                + " not in the pre-staged allowlist"@,
            SpawnReject::Unauthorized(why) => r@ == "unauthorized: "@ + why@,
            SpawnReject::Funding(why) => r@ == "funding refused: "@ + why@,
        },
{
}

/// An unfunded request and one over the ceiling are refused in words that tell them apart, the latter
/// with both amounts.
pub proof fn refused_seed_is_named(
    max_seed_sats: u64,
    funder: SeedFunder,
    req: SpawnRequest,
    r: Result<Funding, String>,
)
    requires
        call_ensures(SeedFunder::new, (max_seed_sats,), funder),
        call_ensures(<SeedFunder as SpawnFunder>::fund, (&funder, &req), r),
    ensures
        req.funding.seed_sats == 0 ==> (r matches Err(why) && why@
            == "seed amount is zero (the real-money path refuses an unfunded agent)"@),
        req.funding.seed_sats > max_seed_sats ==> (r matches Err(why) && why@ == "seed "@
            + text::decimal(req.funding.seed_sats as nat) + " exceeds the per-spawn ceiling "@
            + text::decimal(max_seed_sats as nat)),
{
}

/// A bad label is named by what is wrong with it.
pub proof fn bad_label_is_named(e: LabelError, r: String)
    requires
        call_ensures(SpawnReject::message, (&SpawnReject::InvalidAgentId(e),), r),
    ensures
        e == LabelError::Empty ==> r@ == "invalid agent_id: "@ + "empty label"@,
        e == LabelError::TooLong ==> r@ == "invalid agent_id: "@
            + "label longer than 64 characters"@,
        e == LabelError::BadCharacter ==> r@ == "invalid agent_id: "@
            + "label holds a character outside [A-Za-z0-9._-]"@,
        e == LabelError::PathComponent ==> r@ == "invalid agent_id: "@ + "label is a directory"@,
{
}

/// An agent that could not be reserved is not launched: the failure is reported in the ledger's words,
/// and the node is asked for nothing.
pub proof fn unreserved_agent_is_not_launched<
    A: SpawnAuthorizer,
    F: SpawnFunder,
    L: SpawnLedger,
    V: SpawnFenceView,
    S: SpawnSink,
>(
    consumer: &mut SpawnConsumer<A, F, L, V>,
    e: NostrEvent,
    req: SpawnRequest,
    now: u64,
    sink: &mut S,
    outcome: SpawnOutcome,
    agent_id: Seq<char>,
    why: Seq<char>,
)
    requires
        call_ensures(
            SpawnConsumer::<A, F, L, V>::handle_event::<S>,
            (consumer, &e, Some(req), now, sink),
            outcome,
        ),
        old(consumer).refusal(e, Some(req), now, old(sink).hosted()) is None,
        final(consumer).store().calls()[old(consumer).store().calls().len() as int]
            == LedgerCall::Reserve(agent_id, Err(why)),
    ensures
        agent_id == req.agent_id@,
        outcome matches SpawnOutcome::LaunchFailed(s) && s@ == "durable reserve failed: "@ + why,
        *final(sink) == *old(sink),
        !old(consumer).store().works(),
{
}

} // verus!
