use std::cell::RefCell;
use std::collections::HashMap;
use std::rc::Rc;

use kirby_node::config::{LabelError, TenantConfig};
use kirby_node::lease::{ActiveLease, Label, LeaseNodeId, NoFence, SpawnFenceView};
use kirby_node::nostr::{NostrEvent, KIND_KIRBY_SPAWN_REQUEST};
use kirby_node::signing::NodeKeys;
use kirby_node::spawn::{
    build_spawn_request_event, reserve_from_stored, AllowlistAuthorizer, FundingRequest,
    LaunchAnswers, Launches, LedgerCalls, MemLedger, Phases, ReserveOutcome, SeedFunder,
    SpawnAuthorizer, SpawnConsumer, SpawnDecision, SpawnFunder, SpawnLedger, SpawnOutcome,
    SpawnReject, SpawnRequest, SpawnSink, SpawnSkip, TenantRecord,
    MAX_SPAWN_CONTENT_BYTES, SPAWN_STATE_LAUNCHED, SPAWN_STATE_PENDING,
};

fn keys(n: u8) -> NodeKeys {
    NodeKeys::from_secret(&[n; 32]).unwrap()
}

fn req(agent_id: &str, image: &str, seed: u64) -> SpawnRequest {
    SpawnRequest {
        agent_id: agent_id.to_string(),
        genome_config: r#"{"task":"demo"}"#.to_string(),
        image_ref: image.to_string(),
        funding: FundingRequest { seed_sats: seed },
        requester_pubkey: String::new(),
    }
}

/// Decode an event's content.
fn parsed(event: &NostrEvent) -> Option<SpawnRequest> {
    let v: serde_json::Value = serde_json::from_str(&event.content).ok()?;
    Some(SpawnRequest {
        agent_id: v.get("agent_id")?.as_str()?.to_string(),
        genome_config: v.get("genome_config").map(|g| g.to_string()).unwrap_or("null".to_string()),
        image_ref: v.get("image_ref")?.as_str()?.to_string(),
        funding: FundingRequest { seed_sats: v.get("funding")?.get("seed_sats")?.as_u64()? },
        requester_pubkey: v
            .get("requester_pubkey")
            .and_then(|r| r.as_str())
            .unwrap_or("")
            .to_string(),
    })
}

#[test]
fn unallowlisted_requester_is_denied_when_allowlist_is_nonempty() {
    let mut authz = AllowlistAuthorizer::new(vec!["operator".to_string()], 100, 60);
    let d = authz.authorize(&req("a", "img", 10), "deadbeef", 0);
    assert!(
        matches!(d, SpawnDecision::Deny(_)),
        "a key not in a non-empty allowlist must be denied"
    );
}

#[test]
fn empty_allowlist_is_open_mvp_dos_accepted() {
    let mut authz = AllowlistAuthorizer::new(vec![], 1, 60);
    assert!(matches!(authz.authorize(&req("a", "img", 10), "anyone", 0), SpawnDecision::Allow));
    assert!(matches!(authz.authorize(&req("a", "img", 10), "anyone", 0), SpawnDecision::Deny(_)));
}

#[test]
fn allowlisted_requester_is_allowed_until_the_rate_limit_then_denied() {
    let mut authz = AllowlistAuthorizer::new(vec!["operator".to_string()], 2, 60);
    let r = req("a", "img", 10);
    assert!(matches!(authz.authorize(&r, "operator", 0), SpawnDecision::Allow));
    assert!(matches!(authz.authorize(&r, "operator", 1), SpawnDecision::Allow));
    match authz.authorize(&r, "operator", 2) {
        SpawnDecision::Deny(why) => {
            assert_eq!(why, "rate limit: 2 spawns within 60s for operator");
        }
        SpawnDecision::Allow => panic!("the third within the window must be denied"),
    }
    assert!(matches!(authz.authorize(&r, "operator", 61), SpawnDecision::Allow));
}

#[test]
fn funder_refuses_zero_and_over_ceiling_and_accepts_in_range() {
    let funder = SeedFunder::new(1_000_000);
    assert!(funder.fund(&req("a", "img", 0)).is_err(), "zero seed is refused (unfunded)");
    assert!(funder.fund(&req("a", "img", 1_000_001)).is_err(), "over-ceiling seed refused");
    assert_eq!(funder.fund(&req("a", "img", 500_000)).unwrap().initial_sats, 500_000);
    assert_eq!(funder.fund(&req("a", "img", 1_000_000)).unwrap().initial_sats, 1_000_000);
}

#[test]
fn ledger_is_one_shot_after_finalize_and_release_reopens() {
    let mut l = MemLedger::new();
    assert_eq!(l.reserve("kirby-1").unwrap(), ReserveOutcome::Fresh);
    assert_eq!(
        l.reserve("kirby-1").unwrap(),
        ReserveOutcome::ResumePending,
        "pending repeat resumes"
    );
    l.finalize("kirby-1").unwrap();
    assert_eq!(
        l.reserve("kirby-1").unwrap(),
        ReserveOutcome::AlreadyLaunched,
        "finalized is one-shot"
    );
    l.release("kirby-1").unwrap();
    assert_eq!(l.reserve("kirby-1").unwrap(), ReserveOutcome::Fresh, "release reopens for retry");
}

#[test]
fn sled_ledger_two_phase_survives_reopen() {
    let db = sled::Config::new().temporary(true).open().unwrap();
    let reserve = |tree: &sled::Tree, id: &str| {
        let stored = tree.get(id).unwrap();
        let outcome = reserve_from_stored(stored.as_deref());
        if outcome == ReserveOutcome::Fresh {
            tree.insert(id, vec![SPAWN_STATE_PENDING]).unwrap();
        }
        outcome
    };
    {
        let tree = db.open_tree("spawned").unwrap();
        assert_eq!(reserve(&tree, "kirby-x"), ReserveOutcome::Fresh);
    }
    {
        let tree = db.open_tree("spawned").unwrap();
        assert_eq!(reserve(&tree, "kirby-x"), ReserveOutcome::ResumePending);
        tree.insert("kirby-x", vec![SPAWN_STATE_LAUNCHED]).unwrap();
    }
    {
        let tree = db.open_tree("spawned").unwrap();
        assert_eq!(reserve(&tree, "kirby-x"), ReserveOutcome::AlreadyLaunched);
    }
    assert_eq!(SPAWN_STATE_PENDING, b'P');
    assert_eq!(SPAWN_STATE_LAUNCHED, b'L');
}

type Consumer<V> = SpawnConsumer<AllowlistAuthorizer, SeedFunder, MemLedger, V>;

fn consumer_with(max_tenants: usize, operator_hex: &str, max_per_window: u32) -> Consumer<NoFence> {
    SpawnConsumer::new(
        max_tenants,
        vec!["img".to_string()],
        AllowlistAuthorizer::new(vec![operator_hex.to_string()], max_per_window, 60),
        SeedFunder::new(1_000_000),
        MemLedger::new(),
    )
}

fn consumer_for_parse() -> Consumer<NoFence> {
    consumer_with(16, "ignored-for-parse", 10)
}

fn parse(event: &NostrEvent) -> Result<SpawnRequest, SpawnReject> {
    consumer_for_parse().parse_and_validate(event, parsed(event))
}

#[test]
fn parse_accepts_a_well_formed_signed_request() {
    let event = build_spawn_request_event(&keys(1), &req("kirby-ok", "img", 10));
    let got = parse(&event).unwrap();
    assert_eq!(got.agent_id, "kirby-ok");
    assert_eq!(got.genome_config, r#"{"task":"demo"}"#);
    assert_eq!(got.funding.seed_sats, 10);
}

#[test]
fn parse_rejects_wrong_kind() {
    let event = keys(1).sign(1, &vec![], "{}");
    assert!(matches!(parse(&event), Err(SpawnReject::WrongKind(1))));
}

#[test]
fn parse_rejects_a_bad_agent_id_charset() {
    let event = build_spawn_request_event(&keys(1), &req("bad/id", "img", 10));
    assert!(matches!(parse(&event), Err(SpawnReject::InvalidAgentId(_))));
}

#[test]
fn parse_rejects_oversized_content() {
    let big = "x".repeat(MAX_SPAWN_CONTENT_BYTES + 1);
    let mut r = req("kirby-ok", "img", 10);
    r.genome_config = format!("{{\"blob\":\"{big}\"}}");
    let event = build_spawn_request_event(&keys(1), &r);
    assert!(matches!(parse(&event), Err(SpawnReject::OversizedContent(_))));
}

#[test]
fn parse_rejects_a_requester_pubkey_that_disagrees_with_the_signer() {
    let mut r = req("kirby-ok", "img", 10);
    r.requester_pubkey = "0".repeat(64);
    let event = build_spawn_request_event(&keys(1), &r);
    assert!(matches!(parse(&event), Err(SpawnReject::RequesterMismatch)));
    r.requester_pubkey = keys(1).public_key().to_string();
    let event = build_spawn_request_event(&keys(1), &r);
    assert!(parse(&event).is_ok());
}

#[test]
fn parse_rejects_malformed_json() {
    let event = keys(1).sign(KIND_KIRBY_SPAWN_REQUEST, &vec![], "not json");
    assert!(matches!(parse(&event), Err(SpawnReject::MalformedContent)));
}

struct StubSink {
    tenant_count: usize,
    launches: usize,
    fail: bool,
}

impl StubSink {
    fn new(tenant_count: usize) -> Self {
        StubSink { tenant_count, launches: 0, fail: false }
    }
}

impl SpawnSink for StubSink {
    fn hosted(&self) -> usize {
        unreachable!()
    }

    fn asked(&self) -> Launches {
        unreachable!()
    }

    fn answered(&self) -> LaunchAnswers {
        unreachable!()
    }

    fn tenant_count(&self) -> usize {
        self.tenant_count
    }

    fn launch(&mut self, tenant: &TenantConfig) -> Result<TenantRecord, String> {
        if self.fail {
            return Err("stub launch failure".to_string());
        }
        self.launches += 1;
        Ok(TenantRecord {
            agent_id: tenant.agent_id.clone(),
            frost_npub: "npub1stub".to_string(),
            lease_term: 1,
        })
    }
}

fn handle<V: SpawnFenceView>(
    consumer: &mut Consumer<V>,
    event: &NostrEvent,
    now: u64,
    sink: &mut StubSink,
) -> SpawnOutcome {
    consumer.handle_event(event, parsed(event), now, sink)
}

#[test]
fn happy_path_launches_once() {
    let keys = keys(1);
    let mut consumer = consumer_with(16, keys.public_key(), 100);
    let event = build_spawn_request_event(&keys, &req("kirby-a", "img", 5_000));
    let mut sink = StubSink::new(0);
    let out = handle(&mut consumer, &event, 0, &mut sink);
    assert!(matches!(out, SpawnOutcome::Launched { .. }), "valid request must launch: {out:?}");
    assert_eq!(sink.launches, 1, "exactly one launch");
}

#[test]
fn redelivery_does_not_double_launch() {
    let keys = keys(1);
    let mut consumer = consumer_with(16, keys.public_key(), 100);
    let event = build_spawn_request_event(&keys, &req("kirby-b", "img", 5_000));
    let mut sink = StubSink::new(0);
    let first = handle(&mut consumer, &event, 0, &mut sink);
    assert!(matches!(first, SpawnOutcome::Launched { .. }));
    let second = handle(&mut consumer, &event, 1, &mut sink);
    assert!(
        matches!(second, SpawnOutcome::Skipped(SpawnSkip::AlreadySpawned)),
        "a re-delivered request must skip, got {second:?}"
    );
    assert_eq!(sink.launches, 1, "still exactly one launch after re-delivery");
}

#[test]
fn over_capacity_skips_without_reserving() {
    let keys = keys(1);
    let mut consumer = consumer_with(2, keys.public_key(), 100);
    let event = build_spawn_request_event(&keys, &req("kirby-c", "img", 5_000));
    let mut sink = StubSink::new(2);
    let out = handle(&mut consumer, &event, 0, &mut sink);
    assert!(matches!(out, SpawnOutcome::Skipped(SpawnSkip::OverCapacity)), "got {out:?}");
    assert_eq!(sink.launches, 0, "no launch at capacity");
    assert_eq!(
        consumer.ledger().reserve("kirby-c").unwrap(),
        ReserveOutcome::Fresh,
        "capacity-skip must not consume the agent_id"
    );
}

#[test]
fn unauthorized_signer_is_rejected_and_does_not_launch() {
    let operator = keys(1);
    let attacker = keys(2);
    let mut consumer = consumer_with(16, operator.public_key(), 100);
    let event = build_spawn_request_event(&attacker, &req("kirby-d", "img", 5_000));
    let mut sink = StubSink::new(0);
    let out = handle(&mut consumer, &event, 0, &mut sink);
    assert!(matches!(out, SpawnOutcome::Rejected(SpawnReject::Unauthorized(_))), "got {out:?}");
    assert_eq!(sink.launches, 0, "an unauthorized request must not launch");
}

#[test]
fn rate_limit_bounds_an_allowlisted_key() {
    let keys = keys(1);
    let mut consumer = consumer_with(16, keys.public_key(), 1);
    let mut sink = StubSink::new(0);
    let e1 = build_spawn_request_event(&keys, &req("kirby-e1", "img", 5_000));
    let e2 = build_spawn_request_event(&keys, &req("kirby-e2", "img", 5_000));
    let first = handle(&mut consumer, &e1, 0, &mut sink);
    assert!(matches!(first, SpawnOutcome::Launched { .. }));
    let out = handle(&mut consumer, &e2, 0, &mut sink);
    assert!(matches!(out, SpawnOutcome::Rejected(SpawnReject::Unauthorized(_))), "got {out:?}");
    assert_eq!(sink.launches, 1, "the rate limit bounds launches");
}

#[test]
fn zero_funding_is_refused() {
    let keys = keys(1);
    let mut consumer = consumer_with(16, keys.public_key(), 100);
    let event = build_spawn_request_event(&keys, &req("kirby-f", "img", 0));
    let mut sink = StubSink::new(0);
    let out = handle(&mut consumer, &event, 0, &mut sink);
    assert!(matches!(out, SpawnOutcome::Rejected(SpawnReject::Funding(_))), "got {out:?}");
    assert_eq!(sink.launches, 0);
}

#[test]
fn forged_signature_is_dropped() {
    let keys = keys(1);
    let mut consumer = consumer_with(16, keys.public_key(), 100);
    let mut event = build_spawn_request_event(&keys, &req("kirby-g", "img", 5_000));
    event.content =
        r#"{"agent_id":"kirby-evil","image_ref":"img","funding":{"seed_sats":5000}}"#.to_string();
    let mut sink = StubSink::new(0);
    let out = handle(&mut consumer, &event, 0, &mut sink);
    assert!(matches!(out, SpawnOutcome::Rejected(SpawnReject::BadSignature)), "got {out:?}");
    assert_eq!(sink.launches, 0, "a forged event must not launch");
}

#[test]
fn unknown_image_is_denied() {
    let keys = keys(1);
    let mut consumer = consumer_with(16, keys.public_key(), 100);
    let event = build_spawn_request_event(&keys, &req("kirby-h", "not-staged", 5_000));
    let mut sink = StubSink::new(0);
    let out = handle(&mut consumer, &event, 0, &mut sink);
    assert!(matches!(out, SpawnOutcome::Rejected(SpawnReject::UnknownImage(_))), "got {out:?}");
    assert_eq!(sink.launches, 0);
}

#[test]
fn launch_failure_releases_the_reservation() {
    let keys = keys(1);
    let mut consumer = consumer_with(16, keys.public_key(), 100);
    let event = build_spawn_request_event(&keys, &req("kirby-i", "img", 5_000));
    let mut sink = StubSink { tenant_count: 0, launches: 0, fail: true };
    let out = handle(&mut consumer, &event, 0, &mut sink);
    assert!(matches!(out, SpawnOutcome::LaunchFailed(_)), "got {out:?}");
    assert_eq!(
        consumer.ledger().reserve("kirby-i").unwrap(),
        ReserveOutcome::Fresh,
        "a failed launch must release the reservation so a retry can proceed"
    );
}

#[derive(Clone)]
struct MockFence {
    node_id: LeaseNodeId,
    leases: Rc<RefCell<HashMap<String, ActiveLease>>>,
}

impl MockFence {
    fn new(node_id: LeaseNodeId) -> Self {
        MockFence { node_id, leases: Rc::new(RefCell::new(HashMap::new())) }
    }

    fn sharing(&self, node_id: LeaseNodeId) -> Self {
        MockFence { node_id, leases: self.leases.clone() }
    }

    fn record(&self, agent_id: &str, lease: ActiveLease) {
        self.leases.borrow_mut().insert(agent_id.to_string(), lease);
    }
}

impl SpawnFenceView for MockFence {
    fn this_node(&self) -> LeaseNodeId {
        unreachable!()
    }

    fn held(&self, _agent_id: Label, _now: u64) -> Option<ActiveLease> {
        unreachable!()
    }

    fn node_id(&self) -> LeaseNodeId {
        self.node_id
    }

    fn active_lease_for(&self, agent_id: &str, _now: u64) -> Option<ActiveLease> {
        self.leases.borrow().get(agent_id).copied()
    }
}

#[test]
fn fence_backs_off_when_another_node_holds_a_fresh_lease() {
    let keys = keys(1);
    let fence = MockFence::new(1);
    fence.record("kirby-x", ActiveLease { node_id: 2, term: 1 });
    let mut consumer = consumer_with(16, keys.public_key(), 100).with_fence(fence);
    let event = build_spawn_request_event(&keys, &req("kirby-x", "img", 5_000));
    let mut sink = StubSink::new(0);
    let out = handle(&mut consumer, &event, 0, &mut sink);
    assert!(
        matches!(
            out,
            SpawnOutcome::Skipped(SpawnSkip::AlreadyClaimedElsewhere { holder: 2, .. })
        ),
        "a fresh lease held by another node must skip, got {out:?}"
    );
    assert_eq!(sink.launches, 0, "must not launch when another node holds the lease");
    assert_eq!(
        consumer.ledger().reserve("kirby-x").unwrap(),
        ReserveOutcome::Fresh,
        "a fence skip must NOT consume the agent_id"
    );
}

#[test]
fn fence_allows_when_lease_is_absent_or_this_node() {
    let keys = keys(1);
    let mut consumer_a = consumer_with(16, keys.public_key(), 100).with_fence(MockFence::new(1));
    let e_a = build_spawn_request_event(&keys, &req("kirby-y", "img", 5_000));
    let mut sink_a = StubSink::new(0);
    let out = handle(&mut consumer_a, &e_a, 0, &mut sink_a);
    assert!(matches!(out, SpawnOutcome::Launched { .. }));
    assert_eq!(sink_a.launches, 1);

    let fence_b = MockFence::new(1);
    fence_b.record("kirby-z", ActiveLease { node_id: 1, term: 3 });
    let mut consumer_b = consumer_with(16, keys.public_key(), 100).with_fence(fence_b);
    let e_b = build_spawn_request_event(&keys, &req("kirby-z", "img", 5_000));
    let mut sink_b = StubSink::new(0);
    let out = handle(&mut consumer_b, &e_b, 0, &mut sink_b);
    assert!(
        matches!(out, SpawnOutcome::Launched { .. }),
        "a lease naming THIS node must not block its own launch"
    );
    assert_eq!(sink_b.launches, 1);
}

#[test]
fn two_nodes_sharing_one_fence_launch_exactly_once() {
    let keys = keys(1);
    let fence1 = MockFence::new(1);
    let fence2 = fence1.sharing(2);
    let mut consumer1 = consumer_with(16, keys.public_key(), 100).with_fence(fence1.clone());
    let mut consumer2 = consumer_with(16, keys.public_key(), 100).with_fence(fence2);
    let event = build_spawn_request_event(&keys, &req("kirby-shared", "img", 5_000));
    let mut sink1 = StubSink::new(0);
    let mut sink2 = StubSink::new(0);

    let out1 = handle(&mut consumer1, &event, 0, &mut sink1);
    assert!(matches!(out1, SpawnOutcome::Launched { .. }));
    fence1.record("kirby-shared", ActiveLease { node_id: 1, term: 1 });
    let out2 = handle(&mut consumer2, &event, 1, &mut sink2);
    assert!(
        matches!(
            out2,
            SpawnOutcome::Skipped(SpawnSkip::AlreadyClaimedElsewhere { holder: 1, .. })
        ),
        "node 2 must back off once node 1 holds the lease, got {out2:?}"
    );
    assert_eq!(sink1.launches + sink2.launches, 1, "exactly one launch across the fleet");
}

#[test]
fn rejects_have_their_texts() {
    let text = |r: SpawnReject| r.message();
    assert_eq!(text(SpawnReject::WrongKind(1)), "wrong kind 1 (not a spawn request)");
    assert_eq!(text(SpawnReject::BadSignature), "bad signature / id (forged or corrupt)");
    assert_eq!(text(SpawnReject::OversizedContent(9)), "content too large (9 bytes)");
    assert_eq!(text(SpawnReject::MalformedContent), "malformed spawn-request JSON");
    assert_eq!(
        text(SpawnReject::InvalidAgentId(LabelError::Empty)),
        "invalid agent_id: empty label"
    );
    assert_eq!(
        text(SpawnReject::UnknownImage("a\"b".to_string())),
        "image_ref \"a\\\"b\" not in the pre-staged allowlist"
    );
    assert_eq!(text(SpawnReject::Unauthorized("no".to_string())), "unauthorized: no");
    assert_eq!(text(SpawnReject::Funding("no".to_string())), "funding refused: no");
}

#[test]
fn a_built_request_is_addressed_to_its_agent() {
    let event = build_spawn_request_event(&keys(3), &req("kirby-t", "img", 1));
    assert_eq!(event.kind, KIND_KIRBY_SPAWN_REQUEST as u32);
    assert_eq!(event.pubkey, keys(3).public_key());
    let tags: Vec<Vec<&str>> =
        event.tags.iter().map(|t| t.iter().map(|s| s.as_str()).collect()).collect();
    assert_eq!(tags, vec![vec!["d", "kirby-t"], vec!["t", "kirby"], vec!["a", "kirby-t"]]);
}

/// A ledger whose store is broken, from reserving on or from settling on.
struct BrokenLedger {
    reserves: bool,
}

impl SpawnLedger for BrokenLedger {
    fn phases(&self) -> Phases {
        unreachable!()
    }

    fn works(&self) -> bool {
        unreachable!()
    }

    fn calls(&self) -> LedgerCalls {
        unreachable!()
    }

    fn reserve(&mut self, _agent_id: &str) -> Result<ReserveOutcome, String> {
        if self.reserves {
            Ok(ReserveOutcome::Fresh)
        } else {
            Err("disk full".to_string())
        }
    }

    fn finalize(&mut self, _agent_id: &str) -> Result<(), String> {
        Err("disk full".to_string())
    }

    fn release(&mut self, _agent_id: &str) -> Result<(), String> {
        Err("disk full".to_string())
    }
}

fn outcome_over(ledger: BrokenLedger, sink: &mut StubSink) -> SpawnOutcome {
    let keys = keys(1);
    let mut consumer = SpawnConsumer::new(
        16,
        vec!["img".to_string()],
        AllowlistAuthorizer::new(vec![keys.public_key().to_string()], 100, 60),
        SeedFunder::new(1_000_000),
        ledger,
    );
    let event = build_spawn_request_event(&keys, &req("kirby-a", "img", 5_000));
    consumer.handle_event(&event, parsed(&event), 0, sink)
}

#[test]
fn agent_that_cannot_be_reserved_is_not_launched() {
    let mut sink = StubSink::new(0);
    let out = outcome_over(BrokenLedger { reserves: false }, &mut sink);
    assert!(
        matches!(&out, SpawnOutcome::LaunchFailed(why) if why == "durable reserve failed: disk full"),
        "{out:?}"
    );
    assert_eq!(sink.launches, 0);
}

#[test]
fn outcome_is_what_the_launch_came_to_though_settling_fails() {
    let mut sink = StubSink::new(0);
    let out = outcome_over(BrokenLedger { reserves: true }, &mut sink);
    assert!(matches!(out, SpawnOutcome::Launched { lease_term: 1, .. }), "{out:?}");
    assert_eq!(sink.launches, 1);
    sink.fail = true;
    let out = outcome_over(BrokenLedger { reserves: true }, &mut sink);
    assert!(
        matches!(&out, SpawnOutcome::LaunchFailed(why) if why == "stub launch failure"),
        "{out:?}"
    );
}
