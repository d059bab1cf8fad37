//! Leases over a relay: an agent's lease is a Nostr event signed by the agent's quorum key, so only
//! whoever can gather the quorum can claim it, and nobody else's claim counts.
//!
//! A lease event's content is JSON. Callers decode it and hand it over next to the event; content
//! that does not decode is `None`.
use vstd::prelude::*;
use vstd::string::StringExecFns;

use crate::crypto;
use crate::keyed;
use crate::keyed::{KeyedRows, Row};
use crate::lease::{ActiveLease, FenceVerdict, LeaseNodeId, LeaseResponse, SpawnFenceView};
use crate::nostr;
use crate::nostr::{NostrEvent, VerifyError, KIND_KIRBY_LEASE};
use crate::text;

verus! {

/// How long a lease stays fresh after it was issued, in seconds.
pub const LEASE_TTL_SECS: u64 = 30;

/// A lease event expires on the relay after this many TTLs.
pub const LEASE_EXPIRATION_TTL_MULTIPLE: u64 = 4;

/// What a lease event says.
#[derive(Debug)]
pub struct LeaseContent {
    pub agent_id: String,
    pub holder_node_id: LeaseNodeId,
    pub term: u64,
    pub issued_at: u64,
}

/// An observed lease, whichever agent it is about.
#[derive(Debug, Clone, Copy, PartialEq, Eq, Structural)]
pub struct ObservedLeaseRecord {
    pub holder_node_id: LeaseNodeId,
    pub term: u64,
    pub issued_at: u64,
}

/// The compact JSON of a lease, with its fields in the order of declaration.
pub open spec fn lease_json(agent_id: Seq<char>, lease: ObservedLeaseRecord) -> Seq<char> {
    "{\"agent_id\":"@ + crypto::json_text(agent_id) + ",\"holder_node_id\":"@ + text::decimal(
        lease.holder_node_id as nat,
    ) + ",\"term\":"@ + text::decimal(lease.term as nat) + ",\"issued_at\":"@ + text::decimal(
        lease.issued_at as nat,
    ) + "}"@
}

impl LeaseContent {
    /// The lease without the agent's id.
    pub open spec fn spec_record(&self) -> ObservedLeaseRecord {
        ObservedLeaseRecord {
            holder_node_id: self.holder_node_id,
            term: self.term,
            issued_at: self.issued_at,
        }
    }

    /// The lease without the agent's id.
    pub fn record(&self) -> (r: ObservedLeaseRecord)
        ensures
            r == self.spec_record(),
    {
        ObservedLeaseRecord {
            holder_node_id: self.holder_node_id,
            term: self.term,
            issued_at: self.issued_at,
        }
    }

    /// The content of a lease event.
    pub fn json(&self) -> (r: String)
        ensures
            r@ == lease_json(self.agent_id@, self.spec_record()),
    {
        let mut s = "{\"agent_id\":".to_owned();
        s.append(crypto::json_string(self.agent_id.as_str()).as_str());
        s.append(",\"holder_node_id\":");
        text::append_decimal(&mut s, self.holder_node_id);
        s.append(",\"term\":");
        text::append_decimal(&mut s, self.term);
        s.append(",\"issued_at\":");
        text::append_decimal(&mut s, self.issued_at);
        s.append("}");
        assert(s@ =~= lease_json(self.agent_id@, self.spec_record()));
        s
    }
}

/// Whether a lease issued at `issued_at` is stale at `now`: older than the TTL. A lease from the
/// future is not.
pub open spec fn stale(issued_at: u64, now: u64) -> bool {
    now - issued_at > LEASE_TTL_SECS
}

/// Whether a lease issued at `issued_at` is stale at `now`.
pub fn is_stale(issued_at: u64, now: u64) -> (r: bool)
    ensures
        r == stale(issued_at, now),
{
    now.saturating_sub(issued_at) > LEASE_TTL_SECS
}

/// The node and term of a lease that is fresh at `now`.
pub open spec fn fresh(known: Map<Seq<char>, ObservedLeaseRecord>, agent_id: Seq<char>, now: u64) -> Option<
    ActiveLease,
> {
    if known.contains_key(agent_id) && !stale(known[agent_id].issued_at, now) {
        Some(ActiveLease { node_id: known[agent_id].holder_node_id, term: known[agent_id].term })
    } else {
        None
    }
}

/// The fence's verdict for node `node` at `now`.
pub open spec fn fence(
    known: Map<Seq<char>, ObservedLeaseRecord>,
    node: LeaseNodeId,
    agent_id: Seq<char>,
    believed_term: u64,
    now: u64,
) -> FenceVerdict {
    match fresh(known, agent_id, now) {
        Some(l) if l.node_id == node && l.term >= believed_term => FenceVerdict::Active {
            term: l.term,
        },
        _ => if known.contains_key(agent_id) {
            FenceVerdict::Fenced {
                committed_term: known[agent_id].term,
                committed_holder: known[agent_id].holder_node_id,
                believed_term,
            }
        } else {
            FenceVerdict::Fenced { committed_term: 0, committed_holder: 0, believed_term }
        },
    }
}

fn fresh_in(observed: &KeyedRows<ObservedLeaseRecord>, agent_id: &str, now: u64) -> (r: Option<
    ActiveLease,
>)
    ensures
        r == fresh(observed@, agent_id@, now),
{
    match observed.get(agent_id) {
        None => None,
        Some(c) => {
            if is_stale(c.issued_at, now) {
                None
            } else {
                Some(ActiveLease { node_id: c.holder_node_id, term: c.term })
            }
        },
    }
}

// ---------------------------------------------------------------------------------------------
// Lease events
// ---------------------------------------------------------------------------------------------
/// The tags of a lease event.
pub open spec fn lease_tag_texts(agent_id: Seq<char>, node_id: LeaseNodeId, expiration: u64) -> Seq<
    Seq<Seq<char>>,
> {
    seq![
        seq!["d"@, agent_id],
        seq!["t"@, "kirby"@],
        seq!["a"@, agent_id],
        seq!["node"@, text::decimal(node_id as nat)],
        seq!["expiration"@, text::decimal(expiration as nat)],
    ]
}

/// The tags of a lease event: the agent as its address, the fleet's topic, the agent, the holder
/// and the expiration.
pub fn lease_tags(agent_id: &str, node_id: LeaseNodeId, expiration: u64) -> (r: Vec<Vec<String>>)
    ensures
        nostr::tag_views(r@) == lease_tag_texts(agent_id@, node_id, expiration),
{
    let mut tags: Vec<Vec<String>> = Vec::new();
    assert(nostr::tag_views(tags@) =~= Seq::<Seq<Seq<char>>>::empty());
    nostr::push_tag(&mut tags, nostr::pair_tag("d", agent_id));
    nostr::push_tag(&mut tags, nostr::pair_tag("t", "kirby"));
    nostr::push_tag(&mut tags, nostr::pair_tag("a", agent_id));
    nostr::push_tag(&mut tags, nostr::pair_tag("node", text::decimal_string(node_id).as_str()));
    nostr::push_tag(
        &mut tags,
        nostr::pair_tag("expiration", text::decimal_string(expiration).as_str()),
    );
    assert(nostr::tag_views(tags@) =~= lease_tag_texts(agent_id@, node_id, expiration));
    tags
}

/// The address an event carries: the value of its first `d` tag.
pub open spec fn address(e: NostrEvent) -> Option<Seq<char>> {
    nostr::first_tag_value(nostr::tag_views(e.tags@), "d"@)
}

/// The address an event carries.
pub fn d_tag(event: &NostrEvent) -> (r: Option<String>)
    ensures
        r is Some <==> address(*event) is Some,
        r matches Some(v) ==> address(*event) == Some(v@),
{
    nostr::tag_value(&event.tags, "d")
}

/// Whether a lease event is signed under the agent's quorum key.
pub fn verify_lease_event(event: &NostrEvent, expected_q: &[u8; 32]) -> (r: Result<(), VerifyError>)
    ensures
        match r {
            Ok(()) => nostr::verify_error(*event, expected_q@) is None,
            Err(e) => nostr::verify_error(*event, expected_q@) == Some(e),
        },
{
    nostr::verify_event_under(event, expected_q.as_slice())
}

/// A lease event that is still to be signed by the agent's quorum.
#[derive(Debug)]
pub struct LeaseDraft {
    pub kind: u32,
    pub created_at: u64,
    pub tags: Vec<Vec<String>>,
    pub content: String,
}

/// Why a claim fails.
#[derive(Debug, Clone, Copy, PartialEq, Eq, Structural)]
pub enum ClaimError {
    /// This node holds no quorum for the agent.
    NoQuorum,
    /// A node claims leases that name itself as the holder, and no others.
    NotSelf,
    /// The signed event does not verify under the quorum key.
    Unverified(VerifyError),
}

/// Whether `draft` is the event with which `node` claims `agent_id` at `term`.
pub open spec fn claims(
    draft: LeaseDraft,
    node: LeaseNodeId,
    agent_id: Seq<char>,
    term: u64,
    issued_at: u64,
) -> bool {
    &&& draft.kind == KIND_KIRBY_LEASE
    &&& draft.created_at == issued_at
    &&& nostr::tag_views(draft.tags@) == lease_tag_texts(
        agent_id,
        node,
        (issued_at + LEASE_EXPIRATION_TTL_MULTIPLE * LEASE_TTL_SECS) as u64,
    )
    &&& draft.content@ == lease_json(
        agent_id,
        ObservedLeaseRecord { holder_node_id: node, term, issued_at },
    )
}

// ---------------------------------------------------------------------------------------------
// The authority
// ---------------------------------------------------------------------------------------------
/// A node's view of the leases of the agents whose quorum keys it knows.
pub struct RelayLeaseAuthority {
    node_id: LeaseNodeId,
    signer_q: Option<[u8; 32]>,
    expected_q: KeyedRows<[u8; 32]>,
    observed: KeyedRows<ObservedLeaseRecord>,
}

impl View for RelayLeaseAuthority {
    type V = Map<Seq<char>, ObservedLeaseRecord>;

    closed spec fn view(&self) -> Map<Seq<char>, ObservedLeaseRecord> {
        self.observed@
    }
}

impl RelayLeaseAuthority {
    /// This node.
    pub closed spec fn node(&self) -> LeaseNodeId {
        self.node_id
    }

    /// The quorum key this node signs leases with, if it holds a quorum.
    pub closed spec fn signing_key(&self) -> Option<[u8; 32]> {
        self.signer_q
    }

    /// The quorum keys of the agents.
    pub closed spec fn known_q(&self) -> Map<Seq<char>, [u8; 32]> {
        self.expected_q@
    }

    /// An authority that has observed nothing yet.
    pub fn new(node_id: LeaseNodeId, signer_q: Option<[u8; 32]>, expected_q: KeyedRows<[u8; 32]>) -> (r:
        Self)
        ensures
            r.node() == node_id,
            r.signing_key() == signer_q,
            r.known_q() == expected_q@,
            r@ == Map::<Seq<char>, ObservedLeaseRecord>::empty(),
    {
        RelayLeaseAuthority { node_id, signer_q, expected_q, observed: KeyedRows::new() }
    }

    /// An authority over one agent, whose quorum this node holds.
    pub fn single_agent(node_id: LeaseNodeId, agent_id: &str, signer_q: [u8; 32]) -> (r: Self)
        ensures
            r.node() == node_id,
            r.signing_key() == Some(signer_q),
            r.known_q() == Map::<Seq<char>, [u8; 32]>::empty().insert(agent_id@, signer_q),
            r@ == Map::<Seq<char>, ObservedLeaseRecord>::empty(),
    {
        let mut expected_q: KeyedRows<[u8; 32]> = KeyedRows::new();
        expected_q.insert(agent_id, signer_q);
        Self::new(node_id, Some(signer_q), expected_q)
    }

    /// The event that claims `agent_id` for this node, to be signed by the quorum. Fails without
    /// a quorum.
    pub fn claim(&self, agent_id: &str, term: u64, issued_at: u64) -> (r: Result<
        LeaseDraft,
        ClaimError,
    >)
        requires
            issued_at + LEASE_EXPIRATION_TTL_MULTIPLE * LEASE_TTL_SECS <= u64::MAX,
        ensures
            match r {
                Ok(draft) => self.signing_key() is Some && claims(
                    draft,
                    self.node(),
                    agent_id@,
                    term,
                    issued_at,
                ),
                Err(e) => self.signing_key() is None && e == ClaimError::NoQuorum,
            },
    {
        if self.signer_q.is_none() {
            return Err(ClaimError::NoQuorum);
        }
        let content = LeaseContent {
            agent_id: agent_id.to_owned(),
            holder_node_id: self.node_id,
            term,
            issued_at,
        };
        let expiration: u64 = issued_at + LEASE_EXPIRATION_TTL_MULTIPLE * LEASE_TTL_SECS;
        let draft = LeaseDraft {
            kind: KIND_KIRBY_LEASE as u32,
            created_at: issued_at,
            tags: lease_tags(agent_id, self.node_id, expiration),
            content: content.json(),
        };
        Ok(draft)
    }

    /// Check the event that the quorum signed for a claim before it is published.
    pub fn finish_claim(&self, event: &NostrEvent) -> (r: Result<(), ClaimError>)
        ensures
            match self.signing_key() {
                None => r == Err::<(), _>(ClaimError::NoQuorum),
                Some(q) => match nostr::verify_error(*event, q@) {
                    None => r == Ok::<(), ClaimError>(()),
                    Some(e) => r == Err::<(), _>(ClaimError::Unverified(e)),
                },
            },
    {
        match &self.signer_q {
            None => Err(ClaimError::NoQuorum),
            Some(q) => match verify_lease_event(event, q) {
                Ok(()) => Ok(()),
                Err(e) => Err(ClaimError::Unverified(e)),
            },
        }
    }

    /// Whether this authority takes `content` from `event`: a lease event that decodes, is
    /// addressed to the agent it speaks of, is signed under that agent's quorum key, and has a
    /// higher term than the lease known so far.
    pub open spec fn accepts(&self, event: NostrEvent, content: Option<LeaseContent>) -> bool {
        &&& event.kind == KIND_KIRBY_LEASE
        &&& content is Some
        &&& address(event) == Some(content->0.agent_id@)
        &&& self.known_q().contains_key(content->0.agent_id@)
        &&& nostr::verify_error(event, self.known_q()[content->0.agent_id@]@) is None
        &&& self@.contains_key(content->0.agent_id@) ==> self@[content->0.agent_id@].term
            < content->0.term
    }

    /// Observe a lease event. Returns whether it was taken.
    pub fn observe(&mut self, event: &NostrEvent, content: Option<LeaseContent>) -> (r: bool)
        ensures
            r == old(self).accepts(*event, content),
            final(self)@ == if r {
                old(self)@.insert(content->0.agent_id@, content->0.spec_record())
            } else {
                old(self)@
            },
            final(self).node() == old(self).node(),
            final(self).known_q() == old(self).known_q(),
            final(self).signing_key() == old(self).signing_key(),
    {
        if event.kind != KIND_KIRBY_LEASE as u32 {
            return false;
        }
        let content = match content {
            Some(c) => c,
            None => return false,
        };
        if !text::opt_str_eq(&d_tag(event), content.agent_id.as_str()) {
            return false;
        }
        match self.expected_q.get(content.agent_id.as_str()) {
            None => return false,
            Some(q) => {
                if verify_lease_event(event, q).is_err() {
                    return false;
                }
            },
        }
        match self.observed.get(content.agent_id.as_str()) {
            Some(prev) => {
                if prev.term >= content.term {
                    return false;
                }
            },
            None => {},
        }
        self.observed.insert(content.agent_id.as_str(), content.record());
        true
    }

    /// The term at which this node holds the agent's lease, if it does.
    pub fn active_term_for(&self, agent_id: &str, now: u64) -> (r: Option<u64>)
        ensures
            r == match fresh(self@, agent_id@, now) {
                Some(l) if l.node_id == self.node() => Some(l.term),
                _ => None,
            },
    {
        match fresh_in(&self.observed, agent_id, now) {
            Some(l) => {
                if l.node_id == self.node_id {
                    Some(l.term)
                } else {
                    None
                }
            },
            None => None,
        }
    }

    /// Whether this node may act for the agent at the term it believes in. It may only while it
    /// holds a fresh lease of at least that term.
    pub fn fence_for(&self, agent_id: &str, believed_term: u64, now: u64) -> (r: FenceVerdict)
        ensures
            r == fence(self@, self.node(), agent_id@, believed_term, now),
    {
        match fresh_in(&self.observed, agent_id, now) {
            Some(l) => {
                if l.node_id == self.node_id && l.term >= believed_term {
                    FenceVerdict::Active { term: l.term }
                } else {
                    FenceVerdict::Fenced {
                        committed_term: l.term,
                        committed_holder: l.node_id,
                        believed_term,
                    }
                }
            },
            None => match self.observed.get(agent_id) {
                Some(e) => FenceVerdict::Fenced {
                    committed_term: e.term,
                    committed_holder: e.holder_node_id,
                    believed_term,
                },
                None => FenceVerdict::Fenced {
                    committed_term: 0,
                    committed_holder: 0,
                    believed_term,
                },
            },
        }
    }
}

/// The leases that the agents' quorums signed.
impl SpawnFenceView for RelayLeaseAuthority {
    open spec fn this_node(&self) -> LeaseNodeId {
        self.node()
    }

    open spec fn held(&self, agent_id: Seq<char>, now: u64) -> Option<ActiveLease> {
        fresh(self@, agent_id, now)
    }

    fn node_id(&self) -> (r: LeaseNodeId) {
        self.node_id
    }

    fn active_lease_for(&self, agent_id: &str, now: u64) -> (r: Option<ActiveLease>) {
        fresh_in(&self.observed, agent_id, now)
    }
}

/// A known lease's term never moves backward, and an agent's lease is never forgotten.
pub proof fn observed_terms_never_move_backward(
    before: RelayLeaseAuthority,
    event: NostrEvent,
    content: Option<LeaseContent>,
    after: Map<Seq<char>, ObservedLeaseRecord>,
    agent_id: Seq<char>,
)
    requires
        after == if before.accepts(event, content) {
            before@.insert(content->0.agent_id@, content->0.spec_record())
        } else {
            before@
        },
        before@.contains_key(agent_id),
    ensures
        after.contains_key(agent_id),
        after[agent_id].term >= before@[agent_id].term,
{
}

/// An event that is not signed under the agent's quorum key is never taken, whatever it says.
pub proof fn forged_lease_is_never_taken(
    authority: RelayLeaseAuthority,
    event: NostrEvent,
    content: LeaseContent,
)
    requires
        authority.known_q().contains_key(content.agent_id@),
        event.pubkey@ != crypto::hex_text(authority.known_q()[content.agent_id@]@),
    ensures
        !authority.accepts(event, Some(content)),
{
}

/// At most one node is active: of two nodes that know the same leases, at most one passes the
/// fence for an agent.
pub proof fn fence_admits_one_node(
    known: Map<Seq<char>, ObservedLeaseRecord>,
    agent_id: Seq<char>,
    node: LeaseNodeId,
    other: LeaseNodeId,
    believed: u64,
    other_believed: u64,
    now: u64,
)
    requires
        node != other,
    ensures
        !(fence(known, node, agent_id, believed, now) is Active && fence(
            known,
            other,
            agent_id,
            other_believed,
            now,
        ) is Active),
{
}

/// A node that believes in a term above the known lease's is fenced: it fails closed.
pub proof fn fence_holds_below_the_believed_term(
    known: Map<Seq<char>, ObservedLeaseRecord>,
    agent_id: Seq<char>,
    node: LeaseNodeId,
    believed: u64,
    now: u64,
)
    requires
        known.contains_key(agent_id) ==> known[agent_id].term < believed || stale(
            known[agent_id].issued_at,
            now,
        ) || known[agent_id].holder_node_id != node,
    ensures
        fence(known, node, agent_id, believed, now) is Fenced,
{
}

/// A lease lapses: once it is stale it stays so, and without a newer one nobody is active.
pub proof fn lease_lapses(
    known: Map<Seq<char>, ObservedLeaseRecord>,
    agent_id: Seq<char>,
    now: u64,
    later: u64,
)
    requires
        fresh(known, agent_id, now) is None,
        now <= later,
    ensures
        fresh(known, agent_id, later) is None,
{
}

/// A signed claim is addressed to the agent it claims.
pub proof fn claim_is_addressed_to_its_agent(
    draft: LeaseDraft,
    signed: NostrEvent,
    node: LeaseNodeId,
    agent_id: Seq<char>,
    term: u64,
    issued_at: u64,
)
    requires
        claims(draft, node, agent_id, term, issued_at),
        nostr::tag_views(signed.tags@) == nostr::tag_views(draft.tags@),
    ensures
        address(signed) == Some(agent_id),
{
}

/// A node's own signed claim is taken by every authority that knows the agent's key and no lease
/// of that term or a higher one, and makes the claimant the holder.
pub proof fn signed_claim_is_taken(
    authority: RelayLeaseAuthority,
    draft: LeaseDraft,
    signed: NostrEvent,
    content: LeaseContent,
    node: LeaseNodeId,
    agent_id: Seq<char>,
    term: u64,
    issued_at: u64,
)
    requires
        claims(draft, node, agent_id, term, issued_at),
        signed.kind == draft.kind,
        nostr::tag_views(signed.tags@) == nostr::tag_views(draft.tags@),
        content.agent_id@ == agent_id,
        authority.known_q().contains_key(agent_id),
        nostr::verify_error(signed, authority.known_q()[agent_id]@) is None,
        authority@.contains_key(agent_id) ==> authority@[agent_id].term < content.term,
    ensures
        authority.accepts(signed, Some(content)),
{
    claim_is_addressed_to_its_agent(draft, signed, node, agent_id, term, issued_at);
}

// ---------------------------------------------------------------------------------------------
// Granting
// ---------------------------------------------------------------------------------------------
/// Claims leases for this node.
pub struct RelayLeaseGrantor {
    node_id: LeaseNodeId,
}

impl RelayLeaseGrantor {
    /// This node.
    pub closed spec fn node(&self) -> LeaseNodeId {
        self.node_id
    }

    /// A grantor on this node.
    pub fn new(node_id: LeaseNodeId) -> (r: Self)
        ensures
            r.node() == node_id,
    {
        RelayLeaseGrantor { node_id }
    }

    /// The event that claims `agent_id` for `node_id`, to be signed by the quorum behind `q`. A
    /// node claims for itself only.
    pub fn claim_for(
        &self,
        agent_id: &str,
        node_id: LeaseNodeId,
        term: u64,
        q: [u8; 32],
        issued_at: u64,
    ) -> (r: Result<LeaseDraft, ClaimError>)
        requires
            issued_at + LEASE_EXPIRATION_TTL_MULTIPLE * LEASE_TTL_SECS <= u64::MAX,
        ensures
            match r {
                Ok(draft) => node_id == self.node() && claims(
                    draft,
                    node_id,
                    agent_id@,
                    term,
                    issued_at,
                ),
                Err(e) => node_id != self.node() && e == ClaimError::NotSelf,
            },
    {
        if node_id != self.node_id {
            return Err(ClaimError::NotSelf);
        }
        RelayLeaseAuthority::single_agent(self.node_id, agent_id, q).claim(
            agent_id,
            term,
            issued_at,
        )
    }

    /// The response to a claim, once the quorum has signed it.
    pub fn granted(&self, agent_id: &str, term: u64, q: [u8; 32], event: &NostrEvent) -> (r: Result<
        LeaseResponse,
        ClaimError,
    >)
        ensures
            r == match nostr::verify_error(*event, q@) {
                None => Ok::<LeaseResponse, ClaimError>(
                    LeaseResponse { node_id: self.node(), term },
                ),
                Some(e) => Err(ClaimError::Unverified(e)),
            },
    {
        match RelayLeaseAuthority::single_agent(self.node_id, agent_id, q).finish_claim(event) {
            Ok(()) => Ok(LeaseResponse { node_id: self.node_id, term }),
            Err(e) => Err(e),
        }
    }
}

// ---------------------------------------------------------------------------------------------
// Reading back
// ---------------------------------------------------------------------------------------------
/// The lease read failed.
#[derive(Debug, Clone, Copy, PartialEq, Eq, Structural)]
pub struct LeaseReadError;

/// Reads back which lease of an agent survived on the relay.
pub trait LeaseReader {
    /// The surviving lease of `agent_id`, if there is one that can be trusted.
    fn latest_lease(&self, agent_id: &str) -> Result<Option<ObservedLeaseRecord>, LeaseReadError>;
}

/// Whether a node that claimed `claimed_term` won the takeover: the surviving lease has exactly
/// that term and names this node. A higher term, another holder, a lower term or no lease at all is
/// no win.
pub fn confirm_takeover_win(
    surviving: Option<ObservedLeaseRecord>,
    claimed_term: u64,
    this_node: LeaseNodeId,
) -> (r: bool)
    ensures
        r == won(surviving, claimed_term, this_node),
{
    match surviving {
        Some(lease) => lease.term == claimed_term && lease.holder_node_id == this_node,
        None => false,
    }
}

/// Whether the surviving lease is this node's claim.
pub open spec fn won(
    surviving: Option<ObservedLeaseRecord>,
    claimed_term: u64,
    this_node: LeaseNodeId,
) -> bool {
    surviving is Some && surviving->0.term == claimed_term && surviving->0.holder_node_id
        == this_node
}

/// Of two nodes that read the same surviving lease, at most one won, whatever each claimed.
pub proof fn takeover_has_one_winner(
    surviving: Option<ObservedLeaseRecord>,
    term: u64,
    other_term: u64,
    node: LeaseNodeId,
    other: LeaseNodeId,
)
    requires
        node != other,
    ensures
        !(won(surviving, term, node) && won(surviving, other_term, other)),
{
}

/// A fetched event and its decoded content.
#[derive(Debug)]
pub struct LeaseCandidate {
    pub event: NostrEvent,
    pub content: Option<LeaseContent>,
}

/// What a fetched event says of `agent_id`'s lease, if it is a lease of that agent, addressed to it
/// and signed under its quorum key.
pub open spec fn vouched(c: LeaseCandidate, agent_id: Seq<char>, q: Seq<u8>) -> Option<
    ObservedLeaseRecord,
> {
    match c.content {
        Some(content) => if address(c.event) == Some(content.agent_id@) && content.agent_id@
            == agent_id && nostr::verify_error(c.event, q) is None {
            Some(content.spec_record())
        } else {
            None
        },
        None => None,
    }
}

/// Whether lease `a` supersedes lease `b`: by its term, then by its time of issue.
pub open spec fn supersedes(a: ObservedLeaseRecord, b: ObservedLeaseRecord) -> bool {
    a.term > b.term || (a.term == b.term && a.issued_at > b.issued_at)
}

/// The lease that wins among the fetched events: the first that no other one supersedes.
pub open spec fn latest(cs: Seq<LeaseCandidate>, agent_id: Seq<char>, q: Seq<u8>) -> Option<
    ObservedLeaseRecord,
>
    decreases cs.len(),
{
    if cs.len() == 0 {
        None
    } else {
        let best = latest(cs.drop_last(), agent_id, q);
        match vouched(cs.last(), agent_id, q) {
            None => best,
            Some(rec) => if best is None || supersedes(rec, best->0) {
                Some(rec)
            } else {
                best
            },
        }
    }
}

/// The newest lease of `agent_id` among fetched events, by term and then by time of issue. An event
/// that is not addressed to the agent or not signed under its quorum key is dropped before it can
/// count.
pub fn select_verified_latest_lease(
    candidates: &Vec<LeaseCandidate>,
    agent_id: &str,
    expected_q: &[u8; 32],
) -> (r: Option<ObservedLeaseRecord>)
    ensures
        r == latest(candidates@, agent_id@, expected_q@),
{
    let mut best: Option<ObservedLeaseRecord> = None;
    let mut i: usize = 0;
    assert(candidates@.take(0) =~= Seq::<LeaseCandidate>::empty());
    while i < candidates.len()
        invariant
            i <= candidates@.len(),
            best == latest(candidates@.take(i as int), agent_id@, expected_q@),
        decreases candidates@.len() - i,
    {
        let c = &candidates[i];
        assert(candidates@.take(i + 1).drop_last() =~= candidates@.take(i as int));
        assert(candidates@.take(i + 1).last() == *c);
        match &c.content {
            None => {},
            Some(content) => {
                if text::opt_str_eq(&d_tag(&c.event), content.agent_id.as_str()) && text::str_eq(
                    content.agent_id.as_str(),
                    agent_id,
                ) && verify_lease_event(&c.event, expected_q).is_ok() {
                    let rec = content.record();
                    let take = match best {
                        None => true,
                        Some(b) => rec.term > b.term || (rec.term == b.term && rec.issued_at
                            > b.issued_at),
                    };
                    if take {
                        best = Some(rec);
                    }
                }
            },
        }
        i = i + 1;
    }
    assert(candidates@.take(i as int) =~= candidates@);
    best
}

/// The selected lease is one that the quorum signed, and no other lease that it signed supersedes
/// it. There is none exactly if no fetched event is vouched for.
pub proof fn selected_lease_is_the_newest_genuine_one(
    cs: Seq<LeaseCandidate>,
    agent_id: Seq<char>,
    q: Seq<u8>,
)
    ensures
        match latest(cs, agent_id, q) {
            None => forall|i: int|
                0 <= i < cs.len() ==> vouched(#[trigger] cs[i], agent_id, q) is None,
            Some(best) => {
                &&& exists|i: int|
                    0 <= i < cs.len() && vouched(#[trigger] cs[i], agent_id, q) == Some(best)
                &&& forall|i: int|
                    0 <= i < cs.len() ==> match vouched(#[trigger] cs[i], agent_id, q) {
                        Some(rec) => !supersedes(rec, best),
                        None => true,
                    }
            },
        },
    decreases cs.len(),
{
    if cs.len() > 0 {
        let init = cs.drop_last();
        selected_lease_is_the_newest_genuine_one(init, agent_id, q);
        let n = cs.len() - 1;
        assert forall|i: int| 0 <= i < cs.len() implies i == n || cs[i] == #[trigger] init[i] by {}
        match latest(cs, agent_id, q) {
            Some(best) => {
                match latest(init, agent_id, q) {
                    Some(b) => {
                        let j = choose|j: int|
                            0 <= j < init.len() && vouched(#[trigger] init[j], agent_id, q) == Some(
                                b,
                            );
                        assert(cs[j] == init[j]);
                        if best == b {
                            assert(vouched(cs[j], agent_id, q) == Some(best));
                        } else {
                            assert(vouched(cs[n], agent_id, q) == Some(best));
                        }
                        assert forall|i: int| 0 <= i < cs.len() implies match vouched(
                            #[trigger] cs[i],
                            agent_id,
                            q,
                        ) {
                            Some(rec) => !supersedes(rec, best),
                            None => true,
                        } by {
                            if i < n {
                                assert(cs[i] == init[i]);
                            }
                        }
                    },
                    None => {
                        assert(vouched(cs[n], agent_id, q) == Some(best));
                        assert forall|i: int| 0 <= i < cs.len() implies match vouched(
                            #[trigger] cs[i],
                            agent_id,
                            q,
                        ) {
                            Some(rec) => !supersedes(rec, best),
                            None => true,
                        } by {
                            if i < n {
                                assert(cs[i] == init[i]);
                            }
                        }
                    },
                }
            },
            None => {
                assert forall|i: int| 0 <= i < cs.len() implies vouched(
                    #[trigger] cs[i],
                    agent_id,
                    q,
                ) is None by {
                    if i < n {
                        assert(cs[i] == init[i]);
                    }
                }
            },
        }
    }
}

/// A forged event changes nothing: injected at any place among the fetched events, it leaves the
/// selection as it was.
pub proof fn forged_event_changes_no_selection(
    cs: Seq<LeaseCandidate>,
    at: int,
    forged: LeaseCandidate,
    agent_id: Seq<char>,
    q: Seq<u8>,
)
    requires
        0 <= at <= cs.len(),
        vouched(forged, agent_id, q) is None,
    ensures
        latest(cs.insert(at, forged), agent_id, q) == latest(cs, agent_id, q),
    decreases cs.len(),
{
    let with = cs.insert(at, forged);
    if at == cs.len() {
        assert(with.drop_last() =~= cs);
    } else {
        forged_event_changes_no_selection(cs.drop_last(), at, forged, agent_id, q);
        assert(with.drop_last() =~= cs.drop_last().insert(at, forged));
        assert(with.last() == cs.last());
    }
}

/// The surviving lease among fetched events. Without the agent's quorum key nothing can be vouched
/// for, and there is none.
pub fn surviving_lease(
    candidates: &Vec<LeaseCandidate>,
    agent_id: &str,
    expected_q: Option<[u8; 32]>,
) -> (r: Option<ObservedLeaseRecord>)
    ensures
        r == match expected_q {
            Some(q) => latest(candidates@, agent_id@, q@),
            None => None,
        },
{
    match expected_q {
        Some(q) => select_verified_latest_lease(candidates, agent_id, &q),
        None => None,
    }
}

// ---------------------------------------------------------------------------------------------
// Occupancy
// ---------------------------------------------------------------------------------------------
/// Watches which nodes hold which agents, without knowing the agents' keys.
pub struct FleetLeaseObserver {
    node_id: LeaseNodeId,
    observed: KeyedRows<ObservedLeaseRecord>,
}

impl View for FleetLeaseObserver {
    type V = Map<Seq<char>, ObservedLeaseRecord>;

    closed spec fn view(&self) -> Map<Seq<char>, ObservedLeaseRecord> {
        self.observed@
    }
}

/// Whether `next` replaces what is known of an agent's occupancy: the first lease seen, a higher
/// term, or a fresher one of the same holder and term (a heartbeat).
pub open spec fn refreshes(known: Option<ObservedLeaseRecord>, next: ObservedLeaseRecord) -> bool {
    match known {
        None => true,
        Some(prev) => next.term > prev.term || (next.term == prev.term && next.holder_node_id
            == prev.holder_node_id && next.issued_at > prev.issued_at),
    }
}

/// The address an occupancy event carries: the value of its first `d` tag that has one.
pub open spec fn occupancy_address(tags: Seq<Seq<Seq<char>>>) -> Option<Seq<char>> {
    nostr::first_valued_tag(tags, "d"@)
}

/// Whether the observer takes `content` from an event of kind `kind` with tags `tags`.
pub open spec fn occupies(
    known: Map<Seq<char>, ObservedLeaseRecord>,
    kind: u32,
    tags: Seq<Seq<Seq<char>>>,
    content: Option<LeaseContent>,
) -> bool {
    &&& kind == KIND_KIRBY_LEASE
    &&& content is Some
    &&& occupancy_address(tags) == Some(content->0.agent_id@)
    &&& refreshes(
        if known.contains_key(content->0.agent_id@) {
            Some(known[content->0.agent_id@])
        } else {
            None
        },
        content->0.spec_record(),
    )
}

impl FleetLeaseObserver {
    /// This node.
    pub closed spec fn node(&self) -> LeaseNodeId {
        self.node_id
    }

    /// An observer that has seen nothing yet.
    pub fn new(node_id: LeaseNodeId) -> (r: Self)
        ensures
            r.node() == node_id,
            r@ == Map::<Seq<char>, ObservedLeaseRecord>::empty(),
    {
        FleetLeaseObserver { node_id, observed: KeyedRows::new() }
    }

    /// Observe a lease event. Returns whether it was taken.
    pub fn observe_occupancy(&mut self, event: &NostrEvent, content: Option<LeaseContent>) -> (r:
        bool)
        ensures
            r == occupies(old(self)@, event.kind, nostr::tag_views(event.tags@), content),
            final(self)@ == if r {
                old(self)@.insert(content->0.agent_id@, content->0.spec_record())
            } else {
                old(self)@
            },
            final(self).node() == old(self).node(),
    {
        if event.kind != KIND_KIRBY_LEASE as u32 {
            return false;
        }
        let content = match content {
            Some(c) => c,
            None => return false,
        };
        if !text::opt_str_eq(&nostr::valued_tag(&event.tags, "d"), content.agent_id.as_str()) {
            return false;
        }
        let accept = match self.observed.get(content.agent_id.as_str()) {
            None => true,
            Some(prev) => content.term > prev.term || (content.term == prev.term
                && content.holder_node_id == prev.holder_node_id && content.issued_at
                > prev.issued_at),
        };
        if accept {
            self.observed.insert(content.agent_id.as_str(), content.record());
        }
        accept
    }

    /// The newest lease seen of the agent, fresh or stale.
    pub fn latest_observed_lease(&self, agent_id: &str) -> (r: Option<ObservedLeaseRecord>)
        ensures
            r == if self@.contains_key(agent_id@) {
                Some(self@[agent_id@])
            } else {
                None
            },
    {
        match self.observed.get(agent_id) {
            Some(c) => Some(*c),
            None => None,
        }
    }

    /// All leases seen, in order of the agents' ids.
    pub fn observed_snapshot(&self) -> (r: Vec<Row<ObservedLeaseRecord>>)
        ensures
            keyed::in_key_order(r@),
            keyed::as_map(r@) == self@,
    {
        let n: usize = self.observed.len();
        let ghost all = self.observed.rows();
        let mut out: Vec<Row<ObservedLeaseRecord>> = Vec::new();
        let mut i: usize = 0;
        while i < n
            invariant
                i <= n,
                n == all.len(),
                all == self.observed.rows(),
                out@.len() == i,
                forall|j: int|
                    #![trigger out@[j]]
                    0 <= j < i ==> out@[j].key@ == all[j].key@ && out@[j].value == all[j].value,
            decreases n - i,
        {
            let row = self.observed.row(i);
            out.push(Row { key: row.key.clone(), value: row.value });
            i = i + 1;
        }
        proof {
            lemma_same_rows(all, out@);
        }
        out
    }

    /// Whether any lease seen is fresh at `now`.
    pub fn has_fresh_lease_within_ttl(&self, now: u64) -> (r: bool)
        ensures
            r == exists|agent_id: Seq<char>| (#[trigger] fresh(self@, agent_id, now)) is Some,
    {
        let n: usize = self.observed.len();
        let ghost all = self.observed.rows();
        proof {
            keyed::rows_are_the_mapping(all);
        }
        let mut i: usize = 0;
        while i < n
            invariant
                i <= n,
                n == all.len(),
                all == self.observed.rows(),
                self@ == keyed::as_map(all),
                self@ == self.observed@,
                forall|j: int|
                    #![trigger all[j]]
                    0 <= j < i ==> stale(all[j].value.issued_at, now),
            decreases n - i,
        {
            let row = self.observed.row(i);
            if !is_stale(row.value.issued_at, now) {
                assert(fresh(self@, row.key@, now) is Some);
                return true;
            }
            i = i + 1;
        }
        assert forall|agent_id: Seq<char>| (#[trigger] fresh(self@, agent_id, now)) is None by {
            if self@.contains_key(agent_id) {
                assert(keyed::has_key(all, agent_id));
                let j = keyed::position_of(all, agent_id);
                assert(stale(all[j].value.issued_at, now));
            }
        }
        false
    }
}

/// The leases seen, whoever signed them.
impl SpawnFenceView for FleetLeaseObserver {
    open spec fn this_node(&self) -> LeaseNodeId {
        self.node()
    }

    open spec fn held(&self, agent_id: Seq<char>, now: u64) -> Option<ActiveLease> {
        fresh(self@, agent_id, now)
    }

    fn node_id(&self) -> (r: LeaseNodeId) {
        self.node_id
    }

    fn active_lease_for(&self, agent_id: &str, now: u64) -> (r: Option<ActiveLease>) {
        fresh_in(&self.observed, agent_id, now)
    }
}

/// Rows with the same keys and values are the same mapping, in the same order.
proof fn lemma_same_rows(a: Seq<Row<ObservedLeaseRecord>>, b: Seq<Row<ObservedLeaseRecord>>)
    requires
        keyed::in_key_order(a),
        a.len() == b.len(),
        forall|j: int|
            #![trigger b[j]]
            0 <= j < a.len() ==> b[j].key@ == a[j].key@ && b[j].value == a[j].value,
    ensures
        keyed::in_key_order(b),
        keyed::as_map(b) == keyed::as_map(a),
{
    assert(keyed::in_key_order(b));
    keyed::rows_are_the_mapping(a);
    keyed::rows_are_the_mapping(b);
    assert forall|key: Seq<char>|
        keyed::as_map(a).contains_key(key) implies #[trigger] keyed::as_map(b).contains_key(key)
        && keyed::as_map(b)[key] == keyed::as_map(a)[key] by {
        let i = choose|i: int| 0 <= i < a.len() && (#[trigger] a[i]).key@ == key;
        assert(b[i].key@ == key);
    }
    assert forall|key: Seq<char>|
        keyed::as_map(b).contains_key(key) implies #[trigger] keyed::as_map(a).contains_key(key) by {
        let i = choose|i: int| 0 <= i < b.len() && (#[trigger] b[i]).key@ == key;
        assert(a[i].key@ == key);
    }
    assert(keyed::as_map(b) =~= keyed::as_map(a));
}

/// What is known of an agent only moves forward: the term never falls, and within a term the time
/// of issue only grows.
pub proof fn occupancy_only_moves_forward(prev: ObservedLeaseRecord, next: ObservedLeaseRecord)
    requires
        refreshes(Some(prev), next),
    ensures
        supersedes(next, prev),
{
}

/// A known holder is displaced by a higher term only: within a term it never changes.
pub proof fn holder_is_displaced_by_a_higher_term_only(
    prev: ObservedLeaseRecord,
    next: ObservedLeaseRecord,
)
    requires
        refreshes(Some(prev), next),
        next.holder_node_id != prev.holder_node_id,
    ensures
        next.term > prev.term,
{
}

/// A heartbeat keeps a lease fresh: a later lease of the same holder and term is taken, and what
/// was fresh before it is fresh after it.
pub proof fn heartbeat_extends_freshness(
    known: Map<Seq<char>, ObservedLeaseRecord>,
    agent_id: Seq<char>,
    issued_at: u64,
    now: u64,
)
    requires
        known.contains_key(agent_id),
        issued_at > known[agent_id].issued_at,
    ensures
        ({
            let next = ObservedLeaseRecord { issued_at, ..known[agent_id] };
            &&& refreshes(Some(known[agent_id]), next)
            &&& fresh(known, agent_id, now) is Some ==> fresh(
                known.insert(agent_id, next),
                agent_id,
                now,
            ) == fresh(known, agent_id, now)
        }),
{
}

/// A replay is ignored: a lease seen before changes nothing.
pub proof fn replayed_lease_is_ignored(prev: ObservedLeaseRecord)
    ensures
        !refreshes(Some(prev), prev),
{
}

// ---------------------------------------------------------------------------------------------
// What the calls come to
// ---------------------------------------------------------------------------------------------
/// The tags of a claim: exactly one of them says when the relay may drop the lease, and it says four
/// times thirty seconds after the issue.
proof fn lemma_expiration_tag(agent_id: Seq<char>, node: LeaseNodeId, expiration: u64)
    ensures
        ({
            let tags = lease_tag_texts(agent_id, node, expiration);
            &&& tags[4] == seq!["expiration"@, text::decimal(expiration as nat)]
            &&& forall|i: int|
                0 <= i < tags.len() && (#[trigger] tags[i])[0] == "expiration"@ ==> i == 4
        }),
{
    reveal_strlit("d");
    reveal_strlit("t");
    reveal_strlit("a");
    reveal_strlit("node");
    reveal_strlit("expiration");
    let tags = lease_tag_texts(agent_id, node, expiration);
    assert("d"@.len() != "expiration"@.len() && "t"@.len() != "expiration"@.len());
    assert("a"@.len() != "expiration"@.len() && "node"@.len() != "expiration"@.len());
}

/// A claimed lease outlives its freshness on the relay: its only expiration tag writes a time that
/// lies four TTLs, 120 seconds, after its issue, so the relay keeps it as long as it is fresh and
/// through three missed heartbeats after that.
pub proof fn claimed_lease_outlives_its_freshness(
    authority: RelayLeaseAuthority,
    agent_id: &str,
    term: u64,
    issued_at: u64,
    draft: LeaseDraft,
    tag: Seq<Seq<char>>,
    now: u64,
    stale_now: bool,
)
    requires
        issued_at + 120 <= u64::MAX,
        call_ensures(
            RelayLeaseAuthority::claim,
            (&authority, agent_id, term, issued_at),
            Ok(draft),
        ),
        call_ensures(is_stale, (issued_at, now), stale_now),
    ensures
        nostr::tag_views(draft.tags@).contains(
            seq!["expiration"@, text::decimal((issued_at + 120) as nat)],
        ),
        nostr::tag_views(draft.tags@).contains(tag) && tag[0] == "expiration"@ ==> tag
            == seq!["expiration"@, text::decimal((issued_at + 120) as nat)],
        !stale_now ==> now < issued_at + 120,
{
    lemma_expiration_tag(agent_id@, authority.node(), (issued_at + 120) as u64);
    let tags = nostr::tag_views(draft.tags@);
    assert(tags[4] == seq!["expiration"@, text::decimal((issued_at + 120) as nat)]);
    if tags.contains(tag) && tag[0] == "expiration"@ {
        let i = choose|i: int| 0 <= i < tags.len() && tags[i] == tag;
        assert(tags[i][0] == "expiration"@);
    }
}

/// A claim says who claims what: it is a lease event of its time of issue, addressed to the agent,
/// tagged with the claiming node, and its content names the agent, the node, the term and the time. It
/// is made exactly where the node holds a quorum.
pub proof fn claim_names_the_agent_and_the_claimant(
    authority: RelayLeaseAuthority,
    agent_id: &str,
    term: u64,
    issued_at: u64,
    r: Result<LeaseDraft, ClaimError>,
)
    requires
        call_ensures(RelayLeaseAuthority::claim, (&authority, agent_id, term, issued_at), r),
    ensures
        r is Ok <==> authority.signing_key() is Some,
        r matches Err(e) ==> e == ClaimError::NoQuorum,
        r matches Ok(draft) ==> {
            let tags = nostr::tag_views(draft.tags@);
            &&& draft.kind == 31002
            &&& draft.created_at == issued_at
            &&& tags.len() == 5
            &&& tags[0] == seq!["d"@, agent_id@]
            &&& tags[1] == seq!["t"@, "kirby"@]
            &&& tags[2] == seq!["a"@, agent_id@]
            &&& tags[3] == seq!["node"@, text::decimal(authority.node() as nat)]
            &&& draft.content@ == "{\"agent_id\":"@ + crypto::json_text(agent_id@)
                + ",\"holder_node_id\":"@ + text::decimal(authority.node() as nat) + ",\"term\":"@
                + text::decimal(term as nat) + ",\"issued_at\":"@ + text::decimal(issued_at as nat)
                + "}"@
        },
{
}

/// A grantor claims for its own node and for no other, as an authority of that node would.
pub proof fn grantor_claims_for_its_node_only(
    node: LeaseNodeId,
    grantor: RelayLeaseGrantor,
    agent_id: &str,
    claimant: LeaseNodeId,
    term: u64,
    q: [u8; 32],
    issued_at: u64,
    r: Result<LeaseDraft, ClaimError>,
)
    requires
        issued_at + 120 <= u64::MAX,
        call_ensures(RelayLeaseGrantor::new, (node,), grantor),
        call_ensures(
            RelayLeaseGrantor::claim_for,
            (&grantor, agent_id, claimant, term, q, issued_at),
            r,
        ),
    ensures
        r is Ok <==> claimant == node,
        r matches Err(e) ==> e == ClaimError::NotSelf,
        r matches Ok(draft) ==> {
            &&& draft.kind == 31002
            &&& draft.created_at == issued_at
            &&& nostr::tag_views(draft.tags@)[0] == seq!["d"@, agent_id@]
            &&& nostr::tag_views(draft.tags@)[3] == seq!["node"@, text::decimal(node as nat)]
            &&& nostr::tag_views(draft.tags@)[4] == seq![
                "expiration"@,
                text::decimal((issued_at + 120) as nat),
            ]
            &&& draft.content@ == lease_json(
                agent_id@,
                ObservedLeaseRecord { holder_node_id: node, term, issued_at },
            )
        },
{
}

/// A grant is given for a claim that the quorum signed, and for nothing else; it names this node and
/// the claimed term.
pub proof fn grant_needs_the_quorums_signature(
    authority: RelayLeaseAuthority,
    grantor: RelayLeaseGrantor,
    agent_id: &str,
    term: u64,
    q: [u8; 32],
    event: NostrEvent,
    r: Result<LeaseResponse, ClaimError>,
    finished: Result<(), ClaimError>,
)
    requires
        call_ensures(RelayLeaseGrantor::granted, (&grantor, agent_id, term, q, &event), r),
        call_ensures(RelayLeaseAuthority::finish_claim, (&authority, &event), finished),
    ensures
        r is Ok <==> nostr::verify_error(event, q@) is None,
        r matches Ok(g) ==> g.node_id == grantor.node() && g.term == term,
        finished is Ok <==> authority.signing_key() is Some && nostr::verify_error(
            event,
            authority.signing_key()->0@,
        ) is None,
        authority.signing_key() is None ==> finished == Err::<(), _>(ClaimError::NoQuorum),
{
}

/// Which lease events are taken, and what they change: a lease event is taken exactly if it decodes,
/// is addressed to the agent it speaks of, verifies under that agent's quorum key and has a higher term
/// than the lease known of it. A taken one becomes what is known of its agent; what is known of every
/// other agent stays.
pub proof fn observing_takes_the_newer_genuine_lease(
    authority: &mut RelayLeaseAuthority,
    event: NostrEvent,
    content: LeaseContent,
    taken: bool,
    other: Seq<char>,
)
    requires
        call_ensures(RelayLeaseAuthority::observe, (authority, &event, Some(content)), taken),
    ensures
        taken <==> {
            &&& event.kind == 31002
            &&& nostr::first_tag_value(nostr::tag_views(event.tags@), "d"@) == Some(
                content.agent_id@,
            )
            &&& old(authority).known_q().contains_key(content.agent_id@)
            &&& nostr::verify_error(
                event,
                old(authority).known_q()[content.agent_id@]@,
            ) is None
            &&& !old(authority)@.contains_key(content.agent_id@) || old(authority)@[content.agent_id@].term < content.term
        },
        taken ==> {
            &&& final(authority)@.contains_key(content.agent_id@)
            &&& final(authority)@[content.agent_id@].holder_node_id == content.holder_node_id
            &&& final(authority)@[content.agent_id@].term == content.term
            &&& final(authority)@[content.agent_id@].issued_at == content.issued_at
        },
        !taken ==> final(authority)@ == old(authority)@,
        other != content.agent_id@ ==> (final(authority)@.contains_key(other) <==> old(authority)@.contains_key(other)) && final(authority)@[other] == old(authority)@[other],
        final(authority).node() == old(authority).node(),
        final(authority).known_q() == old(authority).known_q(),
        final(authority).signing_key() == old(authority).signing_key(),
{
}

/// An event whose content does not decode is never taken and changes nothing.
pub proof fn undecoded_lease_is_never_taken(
    authority: &mut RelayLeaseAuthority,
    observer: &mut FleetLeaseObserver,
    event: NostrEvent,
    taken: bool,
    seen: bool,
)
    requires
        call_ensures(RelayLeaseAuthority::observe, (authority, &event, None), taken),
        call_ensures(FleetLeaseObserver::observe_occupancy, (observer, &event, None), seen),
    ensures
        !taken && final(authority)@ == old(authority)@,
        !seen && final(observer)@ == old(observer)@,
{
}

/// Who is active: the node that the known lease names, at its term, for thirty seconds from its issue
/// on, and nobody else.
pub proof fn lease_is_active_for_thirty_seconds(
    authority: RelayLeaseAuthority,
    agent_id: &str,
    believed: u64,
    now: u64,
    term: Option<u64>,
    verdict: FenceVerdict,
    held: Option<ActiveLease>,
    node: LeaseNodeId,
    is_old: bool,
)
    requires
        call_ensures(RelayLeaseAuthority::active_term_for, (&authority, agent_id, now), term),
        call_ensures(RelayLeaseAuthority::fence_for, (&authority, agent_id, believed, now), verdict),
        call_ensures(
            <RelayLeaseAuthority as SpawnFenceView>::active_lease_for,
            (&authority, agent_id, now),
            held,
        ),
        call_ensures(<RelayLeaseAuthority as SpawnFenceView>::node_id, (&authority,), node),
        call_ensures(is_stale, (believed, now), is_old),
    ensures
        is_old <==> now > believed + 30,
        node == authority.node(),
        !authority@.contains_key(agent_id@) ==> {
            &&& held is None
            &&& term is None
            &&& verdict == (FenceVerdict::Fenced {
                committed_term: 0,
                committed_holder: 0,
                believed_term: believed,
            })
        },
        authority@.contains_key(agent_id@) ==> {
            let lease = authority@[agent_id@];
            let fresh_now = now <= lease.issued_at + 30;
            &&& held is Some <==> fresh_now
            &&& held matches Some(l) ==> l.node_id == lease.holder_node_id && l.term == lease.term
            &&& term is Some <==> fresh_now && lease.holder_node_id == node
            &&& term matches Some(t) ==> t == lease.term
            &&& verdict is Active <==> fresh_now && lease.holder_node_id == node && lease.term
                >= believed
            &&& verdict matches FenceVerdict::Active { term: t } ==> t == lease.term
            &&& verdict matches FenceVerdict::Fenced {
                committed_term,
                committed_holder,
                believed_term,
            } ==> committed_term == lease.term && committed_holder == lease.holder_node_id
                && believed_term == believed
        },
{
}

/// A new authority knows no lease, and the keys it was given.
pub proof fn new_authority_knows_no_lease(
    node: LeaseNodeId,
    agent_id: &str,
    q: [u8; 32],
    authority: RelayLeaseAuthority,
    other: Seq<char>,
)
    requires
        call_ensures(RelayLeaseAuthority::single_agent, (node, agent_id, q), authority),
    ensures
        authority.node() == node,
        authority.signing_key() == Some(q),
        authority.known_q().contains_key(agent_id@) && authority.known_q()[agent_id@] == q,
        other != agent_id@ ==> !authority.known_q().contains_key(other),
        !authority@.contains_key(other),
{
}

/// The takeover is won exactly if the lease that survived has the claimed term and names this node.
pub proof fn takeover_is_won_by_the_surviving_claim(
    surviving: Option<ObservedLeaseRecord>,
    claimed_term: u64,
    this_node: LeaseNodeId,
    r: bool,
)
    requires
        call_ensures(confirm_takeover_win, (surviving, claimed_term, this_node), r),
    ensures
        surviving is None ==> !r,
        surviving matches Some(lease) ==> (r <==> lease.term == claimed_term && lease.holder_node_id
            == this_node),
{
}

/// Whether a fetched event is a genuine lease of the agent.
pub open spec fn is_genuine(c: LeaseCandidate, agent_id: Seq<char>, q: Seq<u8>) -> bool {
    &&& c.content is Some
    &&& c.content->0.agent_id@ == agent_id
    &&& nostr::first_tag_value(nostr::tag_views(c.event.tags@), "d"@) == Some(agent_id)
    &&& nostr::verify_error(c.event, q) is None
}

/// Which lease survives: a genuine one of the agent, and of these one of the highest term, and among
/// those of the highest term one of the latest issue. None survives exactly if none is genuine, or the
/// quorum key is unknown.
pub proof fn surviving_lease_is_the_latest_genuine_one(
    candidates: Vec<LeaseCandidate>,
    agent_id: &str,
    q: [u8; 32],
    r: Option<ObservedLeaseRecord>,
    surviving: Option<ObservedLeaseRecord>,
    without_key: Option<ObservedLeaseRecord>,
    i: int,
)
    requires
        call_ensures(select_verified_latest_lease, (&candidates, agent_id, &q), r),
        call_ensures(surviving_lease, (&candidates, agent_id, Some(q)), surviving),
        call_ensures(surviving_lease, (&candidates, agent_id, None), without_key),
        0 <= i < candidates@.len(),
    ensures
        surviving == r,
        without_key is None,
        r is None ==> !is_genuine(candidates@[i], agent_id@, q@),
        r matches Some(best) ==> exists|k: int|
            0 <= k < candidates@.len() && is_genuine(#[trigger] candidates@[k], agent_id@, q@)
                && candidates@[k].content->0.term == best.term
                && candidates@[k].content->0.issued_at == best.issued_at
                && candidates@[k].content->0.holder_node_id == best.holder_node_id,
        r is Some && is_genuine(candidates@[i], agent_id@, q@) ==> {
            let c = candidates@[i].content->0;
            c.term < r->0.term || (c.term == r->0.term && c.issued_at <= r->0.issued_at)
        },
{
    let cs = candidates@;
    selected_lease_is_the_newest_genuine_one(cs, agent_id@, q@);
    assert(is_genuine(cs[i], agent_id@, q@) <==> vouched(cs[i], agent_id@, q@) is Some);
    if r is Some {
        let k = choose|k: int|
            0 <= k < cs.len() && vouched(#[trigger] cs[k], agent_id@, q@) == Some(r->0);
        assert(is_genuine(cs[k], agent_id@, q@));
    }
}

/// What the fleet's observer takes, and what that changes: the first lease seen of an agent, one of a
/// higher term, or a later one of the same holder and term, if it is addressed to its agent. What is
/// known of every other agent stays, and what was taken is what is read back.
pub proof fn observer_takes_takeovers_and_heartbeats(
    observer: &mut FleetLeaseObserver,
    event: NostrEvent,
    content: LeaseContent,
    taken: bool,
    agent_id: &str,
    read: Option<ObservedLeaseRecord>,
    other: Seq<char>,
)
    requires
        call_ensures(
            FleetLeaseObserver::observe_occupancy,
            (observer, &event, Some(content)),
            taken,
        ),
        call_ensures(FleetLeaseObserver::latest_observed_lease, (&*final(observer), agent_id), read),
        agent_id@ == content.agent_id@,
    ensures
        taken <==> {
            let known = old(observer)@.contains_key(agent_id@);
            let prev = old(observer)@[agent_id@];
            &&& event.kind == 31002
            &&& nostr::first_valued_tag(nostr::tag_views(event.tags@), "d"@) == Some(agent_id@)
            &&& !known || content.term > prev.term || (content.term == prev.term
                && content.holder_node_id == prev.holder_node_id && content.issued_at
                > prev.issued_at)
        },
        taken ==> read is Some && read->0.holder_node_id == content.holder_node_id && read->0.term
            == content.term && read->0.issued_at == content.issued_at,
        !taken ==> final(observer)@ == old(observer)@,
        other != agent_id@ ==> (final(observer)@.contains_key(other) <==> old(observer)@.contains_key(other)) && final(observer)@[other] == old(observer)@[other],
        final(observer).node() == old(observer).node(),
{
}

/// What the observer says of an agent at a time: the lease it knows while that is fresh, for thirty
/// seconds from its issue on. It knows of a fresh lease exactly if one of those it knows is fresh.
pub proof fn observer_reports_fresh_leases(
    observer: FleetLeaseObserver,
    agent_id: &str,
    now: u64,
    held: Option<ActiveLease>,
    any: bool,
)
    requires
        call_ensures(
            <FleetLeaseObserver as SpawnFenceView>::active_lease_for,
            (&observer, agent_id, now),
            held,
        ),
        call_ensures(FleetLeaseObserver::has_fresh_lease_within_ttl, (&observer, now), any),
    ensures
        held is Some <==> observer@.contains_key(agent_id@) && now <= observer@[agent_id@].issued_at
            + 30,
        held matches Some(l) ==> l.node_id == observer@[agent_id@].holder_node_id && l.term
            == observer@[agent_id@].term,
        held is Some ==> any,
        any ==> exists|a: Seq<char>| #[trigger]
            observer@.contains_key(a) && now <= observer@[a].issued_at + 30,
{
    assert(held is Some ==> fresh(observer@, agent_id@, now) is Some);
    if any {
        let a = choose|a: Seq<char>| (#[trigger] fresh(observer@, a, now)) is Some;
        assert(observer@.contains_key(a));
    }
}

/// The snapshot of an observer lists every agent that it knows, once, with the lease that it knows, in
/// the order of the agents' ids.
pub proof fn snapshot_lists_every_known_lease(
    observer: FleetLeaseObserver,
    rows: Vec<Row<ObservedLeaseRecord>>,
    i: int,
    j: int,
    agent_id: Seq<char>,
)
    requires
        call_ensures(FleetLeaseObserver::observed_snapshot, (&observer,), rows),
        0 <= i < rows@.len(),
    ensures
        observer@.contains_key(rows@[i].key@),
        observer@[rows@[i].key@] == rows@[i].value,
        i < j < rows@.len() ==> keyed::key_before(rows@[i].key@, rows@[j].key@),
        observer@.contains_key(agent_id) ==> exists|k: int|
            0 <= k < rows@.len() && (#[trigger] rows@[k]).key@ == agent_id,
{
    keyed::rows_are_the_mapping(rows@);
    if i < j < rows@.len() {
        assert(rows@[j].key@ == rows@[j].key@);
    }
}

} // verus!
