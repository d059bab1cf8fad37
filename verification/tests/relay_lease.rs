use std::collections::BTreeMap;

use chacha20poly1305::aead::OsRng;
use frost_secp256k1_tr::keys::{
    generate_with_dealer, IdentifierList, KeyPackage, PublicKeyPackage, Tweak,
};
use frost_secp256k1_tr::{aggregate_with_tweak, round1, round2, Identifier, SigningPackage};
use kirby_node::keyed::KeyedRows;
use kirby_node::lease::{FenceVerdict, LeaseNodeId, SpawnFenceView};
use kirby_node::nostr::{
    nip01_event_id_with_tags, verify_event_under, NostrEvent, VerifyError, KIND_KIRBY_LEASE,
};
use kirby_node::relay_lease::{
    confirm_takeover_win, is_stale, select_verified_latest_lease, surviving_lease, ClaimError,
    FleetLeaseObserver, LeaseCandidate, LeaseContent, LeaseDraft, ObservedLeaseRecord,
    RelayLeaseAuthority, RelayLeaseGrantor, LEASE_TTL_SECS,
};
use kirby_node::signing::NodeKeys;

/// A 2-of-3 quorum over a new keyset.
struct Quorum {
    shares: BTreeMap<Identifier, KeyPackage>,
    pubkeys: PublicKeyPackage,
}

impl Quorum {
    fn new() -> Self {
        let (secrets, pubkeys) =
            generate_with_dealer(3, 2, IdentifierList::Default, &mut OsRng).unwrap();
        let shares =
            secrets.into_iter().map(|(id, s)| (id, KeyPackage::try_from(s).unwrap())).collect();
        Quorum { shares, pubkeys }
    }

    fn q(&self) -> [u8; 32] {
        let key = self.pubkeys.clone().tweak(None::<&[u8]>).verifying_key().serialize().unwrap();
        key[1..33].try_into().unwrap()
    }

    fn sign(&self, message: &[u8]) -> Vec<u8> {
        let mut nonces = BTreeMap::new();
        let mut commitments = BTreeMap::new();
        for (id, kp) in self.shares.iter().take(2) {
            let (n, c) = round1::commit(kp.signing_share(), &mut OsRng);
            nonces.insert(*id, n);
            commitments.insert(*id, c);
        }
        let package = SigningPackage::new(commitments, message);
        let shares = nonces
            .iter()
            .map(|(id, n)| {
                (*id, round2::sign_with_tweak(&package, n, &self.shares[id], None).unwrap())
            })
            .collect();
        let sig = aggregate_with_tweak(&package, &shares, &self.pubkeys, None).unwrap();
        sig.serialize().unwrap()
    }

    fn sign_event(&self, created_at: u64, tags: Vec<Vec<String>>, content: String) -> NostrEvent {
        let pubkey = hex::encode(self.q());
        let id = nip01_event_id_with_tags(
            &pubkey,
            created_at,
            KIND_KIRBY_LEASE as u32,
            &tags,
            &content,
        );
        NostrEvent {
            id: hex::encode(&id),
            pubkey,
            created_at,
            kind: KIND_KIRBY_LEASE as u32,
            tags,
            content,
            sig: hex::encode(self.sign(&id)),
        }
    }

    fn sign_draft(&self, draft: LeaseDraft) -> NostrEvent {
        self.sign_event(draft.created_at, draft.tags, draft.content)
    }
}

fn decode(event: &NostrEvent) -> Option<LeaseContent> {
    let v: serde_json::Value = serde_json::from_str(&event.content).ok()?;
    Some(LeaseContent {
        agent_id: v.get("agent_id")?.as_str()?.to_string(),
        holder_node_id: v.get("holder_node_id")?.as_u64()?,
        term: v.get("term")?.as_u64()?,
        issued_at: v.get("issued_at")?.as_u64()?,
    })
}

fn candidates(events: Vec<NostrEvent>) -> Vec<LeaseCandidate> {
    events
        .into_iter()
        .map(|event| {
            let content = decode(&event);
            LeaseCandidate { event, content }
        })
        .collect()
}

fn content(agent_id: &str, holder: LeaseNodeId, term: u64, issued_at: u64) -> String {
    LeaseContent { agent_id: agent_id.to_string(), holder_node_id: holder, term, issued_at }.json()
}

fn sign_lease(
    signer: &Quorum,
    agent_id: &str,
    holder: LeaseNodeId,
    term: u64,
    issued_at: u64,
) -> NostrEvent {
    let tags = vec![vec!["d".to_string(), agent_id.to_string()]];
    signer.sign_event(issued_at, tags, content(agent_id, holder, term, issued_at))
}

fn copy(e: &NostrEvent) -> NostrEvent {
    NostrEvent {
        id: e.id.clone(),
        pubkey: e.pubkey.clone(),
        created_at: e.created_at,
        kind: e.kind,
        tags: e.tags.clone(),
        content: e.content.clone(),
        sig: e.sig.clone(),
    }
}

/// A lease event signed by a throwaway key.
fn lease_event(
    agent_id: &str,
    holder: LeaseNodeId,
    term: u64,
    issued_at: u64,
    d_tag: &str,
) -> NostrEvent {
    let keys = NodeKeys::from_secret(&[9; 32]).unwrap();
    let tags = vec![vec!["d".to_string(), d_tag.to_string()]];
    keys.sign(KIND_KIRBY_LEASE, &tags, &content(agent_id, holder, term, issued_at))
}

fn see(obs: &mut FleetLeaseObserver, event: NostrEvent) -> bool {
    let content = decode(&event);
    obs.observe_occupancy(&event, content)
}

#[test]
fn observe_latest_wins_by_monotonic_term() {
    let mut obs = FleetLeaseObserver::new(1);
    assert!(see(&mut obs, lease_event("a", 2, 1, 1000, "a")));
    assert!(see(&mut obs, lease_event("a", 3, 2, 1000, "a")));
    let l = obs.active_lease_for("a", 1000).unwrap();
    assert_eq!((l.node_id, l.term), (3, 2), "latest-wins by term");
    assert!(!see(&mut obs, lease_event("a", 9, 2, 1000, "a")), "equal term ignored");
    assert!(!see(&mut obs, lease_event("a", 9, 1, 1000, "a")), "older term ignored");
    let l = obs.active_lease_for("a", 1000).unwrap();
    assert_eq!((l.node_id, l.term), (3, 2), "term never moves backward");
}

#[test]
fn an_older_term_of_the_same_holder_is_ignored_however_fresh() {
    let mut obs = FleetLeaseObserver::new(1);
    assert!(see(&mut obs, lease_event("a", 3, 2, 1000, "a")));
    assert!(!see(&mut obs, lease_event("a", 3, 1, 2000, "a")));
    assert_eq!(obs.latest_observed_lease("a").unwrap().term, 2);
}

#[test]
fn stale_lease_is_not_occupancy() {
    let mut obs = FleetLeaseObserver::new(1);
    assert!(see(&mut obs, lease_event("a", 2, 1, 1000, "a")));
    assert!(
        obs.active_lease_for("a", 1000 + LEASE_TTL_SECS).is_some(),
        "within TTL = occupied"
    );
    assert!(
        obs.active_lease_for("a", 1000 + LEASE_TTL_SECS + 1).is_none(),
        "past TTL = free"
    );
}

#[test]
fn heartbeat_same_term_refreshes_freshness() {
    let mut obs = FleetLeaseObserver::new(1);
    assert!(see(&mut obs, lease_event("a", 2, 1, 1000, "a")));
    assert!(
        see(&mut obs, lease_event("a", 2, 1, 1020, "a")),
        "a same-term heartbeat with a fresher issued_at must be folded in"
    );
    let l = obs.active_lease_for("a", 1035);
    assert!(
        l.is_some_and(|l| l.node_id == 2 && l.term == 1),
        "heartbeat must keep the lease fresh for the fence (got {l:?})"
    );
    assert!(
        !see(&mut obs, lease_event("a", 2, 1, 1020, "a")),
        "a same-term, non-fresher re-publish (replay) must be ignored"
    );
}

#[test]
fn d_tag_disagreement_and_wrong_kind_are_dropped() {
    let mut obs = FleetLeaseObserver::new(1);
    assert!(!see(&mut obs, lease_event("y", 2, 1, 1000, "x")));
    assert!(obs.active_lease_for("y", 1000).is_none());
    assert!(obs.active_lease_for("x", 1000).is_none());
    let wrong = NodeKeys::from_secret(&[9; 32]).unwrap().sign(1, &vec![], "{}");
    assert!(!see(&mut obs, wrong));
}

#[test]
fn latest_observed_lease_distinguishes_stale_from_absent() {
    let mut obs = FleetLeaseObserver::new(1);
    assert!(obs.latest_observed_lease("ghost").is_none(), "never-observed => absent (None)");
    assert!(see(&mut obs, lease_event("a", 2, 4, 1000, "a")));
    assert!(obs.active_lease_for("a", 1000 + LEASE_TTL_SECS + 100).is_none());
    let raw = obs.latest_observed_lease("a").expect("a stale lease is still observed");
    assert_eq!(raw, ObservedLeaseRecord { holder_node_id: 2, term: 4, issued_at: 1000 });
}

#[test]
fn has_fresh_lease_within_ttl_tracks_freshness() {
    let mut obs = FleetLeaseObserver::new(1);
    assert!(!obs.has_fresh_lease_within_ttl(1000), "no observations => not fresh");
    assert!(see(&mut obs, lease_event("a", 2, 1, 1000, "a")));
    assert!(see(&mut obs, lease_event("b", 3, 1, 1000, "b")));
    assert!(obs.has_fresh_lease_within_ttl(1000 + LEASE_TTL_SECS));
    assert!(!obs.has_fresh_lease_within_ttl(1000 + LEASE_TTL_SECS + 1));
}

#[test]
fn observed_snapshot_drains_all_latest_observed_leases() {
    let mut obs = FleetLeaseObserver::new(1);
    assert!(see(&mut obs, lease_event("a", 2, 1, 1000, "a")));
    assert!(see(&mut obs, lease_event("b", 3, 5, 2000, "b")));
    assert!(see(&mut obs, lease_event("a", 9, 2, 1500, "a")));
    let snap = obs.observed_snapshot();
    assert_eq!(snap.len(), 2);
    assert_eq!(snap[0].key, "a");
    assert_eq!(
        snap[0].value,
        ObservedLeaseRecord { holder_node_id: 9, term: 2, issued_at: 1500 }
    );
    assert_eq!(snap[1].key, "b");
    assert_eq!(
        snap[1].value,
        ObservedLeaseRecord { holder_node_id: 3, term: 5, issued_at: 2000 }
    );
}

#[test]
fn confirm_takeover_win_admits_only_the_surviving_holder_at_the_claimed_term() {
    const ME: LeaseNodeId = 2;
    let claimed = 5u64;
    let rec = |holder, term| ObservedLeaseRecord { holder_node_id: holder, term, issued_at: 1000 };

    assert!(confirm_takeover_win(Some(rec(ME, claimed)), claimed, ME));
    assert!(!confirm_takeover_win(Some(rec(3, claimed)), claimed, ME));
    assert!(!confirm_takeover_win(Some(rec(3, claimed + 1)), claimed, ME));
    assert!(!confirm_takeover_win(Some(rec(ME, claimed + 1)), claimed, ME));
    assert!(!confirm_takeover_win(Some(rec(ME, claimed - 1)), claimed, ME));
    assert!(!confirm_takeover_win(None, claimed, ME));
}

#[test]
fn genuine_q_lease_is_selected() {
    let s = Quorum::new();
    let q = s.q();
    let ev = sign_lease(&s, "agentA", 2, 5, 1000);
    assert_eq!(
        select_verified_latest_lease(&candidates(vec![ev]), "agentA", &q),
        Some(ObservedLeaseRecord { holder_node_id: 2, term: 5, issued_at: 1000 }),
        "a genuine Q-signed lease must verify and be selected"
    );
}

#[test]
fn forged_other_holder_higher_term_dropped_no_wrongful_standdown() {
    const ME: LeaseNodeId = 2;
    const OTHER: LeaseNodeId = 9;
    let claimed = 5u64;
    let agent = Quorum::new();
    let q = agent.q();
    let forger = Quorum::new();

    let genuine = sign_lease(&agent, "agentA", ME, claimed, 1000);
    let forged = sign_lease(&forger, "agentA", OTHER, claimed + 1, 2000);
    let got = select_verified_latest_lease(&candidates(vec![genuine, forged]), "agentA", &q);
    assert_eq!(
        got,
        Some(ObservedLeaseRecord { holder_node_id: ME, term: claimed, issued_at: 1000 }),
        "the forged higher-term lease (wrong Q) must be DROPPED"
    );
    assert!(confirm_takeover_win(got, claimed, ME));
}

#[test]
fn forged_self_named_lease_dropped_no_double_launch() {
    const ME: LeaseNodeId = 2;
    const PEER: LeaseNodeId = 9;
    let claimed = 5u64;
    let agent = Quorum::new();
    let q = agent.q();
    let forger = Quorum::new();

    let genuine_peer = sign_lease(&agent, "agentA", PEER, claimed, 1000);
    let forged_me = sign_lease(&forger, "agentA", ME, claimed, 2000);
    let got =
        select_verified_latest_lease(&candidates(vec![genuine_peer, forged_me]), "agentA", &q);
    assert_eq!(
        got,
        Some(ObservedLeaseRecord { holder_node_id: PEER, term: claimed, issued_at: 1000 }),
        "the forged self-named lease (wrong Q) must be DROPPED"
    );
    assert!(!confirm_takeover_win(got, claimed, ME));
}

#[test]
fn tampered_lease_content_is_dropped() {
    let s = Quorum::new();
    let q = s.q();
    let genuine = sign_lease(&s, "agentA", 2, 5, 1000);
    let mut tampered = copy(&genuine);
    tampered.content = content("agentA", 9, 99, 9000);
    assert_eq!(verify_event_under(&tampered, &q), Err(VerifyError::IdMismatch));
    assert_eq!(
        select_verified_latest_lease(
            &candidates(vec![copy(&tampered), copy(&genuine)]),
            "agentA",
            &q
        ),
        Some(ObservedLeaseRecord { holder_node_id: 2, term: 5, issued_at: 1000 }),
        "a tampered lease must be dropped; the genuine one survives"
    );
    assert_eq!(
        select_verified_latest_lease(&candidates(vec![tampered]), "agentA", &q),
        None,
        "a tampered lease alone leaves no verified survivor"
    );
}

#[test]
fn all_forged_yields_none_fail_closed() {
    let q = Quorum::new().q();
    let forged1 = sign_lease(&Quorum::new(), "agentA", 9, 7, 3000);
    let forged2 = sign_lease(&Quorum::new(), "agentA", 8, 6, 2000);
    assert_eq!(
        select_verified_latest_lease(&candidates(vec![forged1, forged2]), "agentA", &q),
        None,
        "no lease signed under the expected Q => None"
    );
    assert!(!confirm_takeover_win(None, 7, 2), "None => stand down (no launch)");
}

#[test]
fn without_a_key_nothing_survives() {
    let s = Quorum::new();
    let all = candidates(vec![sign_lease(&s, "agentA", 2, 5, 1000)]);
    assert_eq!(surviving_lease(&all, "agentA", None), None);
    assert!(surviving_lease(&all, "agentA", Some(s.q())).is_some());
    assert_eq!(surviving_lease(&all, "agentB", Some(s.q())), None);
}

#[test]
fn a_claim_is_signed_observed_and_fences() {
    let s = Quorum::new();
    let mut auth = RelayLeaseAuthority::single_agent(7, "agentA", s.q());
    let draft = auth.claim("agentA", 3, 1000).unwrap();
    assert_eq!(draft.content, content("agentA", 7, 3, 1000));
    assert_eq!(
        draft.content,
        r#"{"agent_id":"agentA","holder_node_id":7,"term":3,"issued_at":1000}"#
    );
    let event = s.sign_draft(draft);
    assert_eq!(auth.finish_claim(&event), Ok(()));
    let c = decode(&event);
    assert!(auth.observe(&event, c));
    let c = decode(&event);
    assert!(!auth.observe(&event, c), "a replay changes nothing");
    assert_eq!(auth.active_term_for("agentA", 1000), Some(3));
    assert_eq!(auth.fence_for("agentA", 3, 1030), FenceVerdict::Active { term: 3 });
    assert_eq!(
        auth.fence_for("agentA", 4, 1000),
        FenceVerdict::Fenced { committed_term: 3, committed_holder: 7, believed_term: 4 }
    );
    assert_eq!(
        auth.fence_for("agentA", 3, 1031),
        FenceVerdict::Fenced { committed_term: 3, committed_holder: 7, believed_term: 3 }
    );
    assert_eq!(
        auth.fence_for("ghost", 1, 0),
        FenceVerdict::Fenced { committed_term: 0, committed_holder: 0, believed_term: 1 }
    );
    let higher = sign_lease(&s, "agentA", 8, 4, 1001);
    let c = decode(&higher);
    assert!(auth.observe(&higher, c));
    assert_eq!(auth.active_term_for("agentA", 1001), None);
    let forged = sign_lease(&Quorum::new(), "agentA", 7, 9, 1002);
    let c = decode(&forged);
    assert!(!auth.observe(&forged, c), "a forged lease is never taken");
    assert_eq!(auth.active_lease_for("agentA", 1001).unwrap().node_id, 8);
}

#[test]
fn claims_fail_without_a_quorum_or_for_another_node() {
    let s = Quorum::new();
    let auth = RelayLeaseAuthority::new(1, None, KeyedRows::new());
    assert_eq!(auth.claim("a", 1, 0).unwrap_err(), ClaimError::NoQuorum);
    let event = sign_lease(&s, "a", 1, 1, 0);
    assert_eq!(auth.finish_claim(&event), Err(ClaimError::NoQuorum));
    let grantor = RelayLeaseGrantor::new(1);
    assert_eq!(grantor.claim_for("a", 2, 1, s.q(), 0).unwrap_err(), ClaimError::NotSelf);
    let draft = grantor.claim_for("a", 1, 6, s.q(), 0).unwrap();
    let event = s.sign_draft(draft);
    let granted = grantor.granted("a", 6, s.q(), &event).unwrap();
    assert_eq!((granted.node_id, granted.term), (1, 6));
    let other = Quorum::new().q();
    assert_eq!(
        grantor.granted("a", 6, other, &event).unwrap_err(),
        ClaimError::Unverified(VerifyError::WrongKey)
    );
}

#[test]
fn a_lease_from_the_future_is_not_stale() {
    assert!(!is_stale(100, 0));
    assert!(!is_stale(100, 130));
    assert!(is_stale(100, 131));
}

#[test]
fn each_way_to_fail_verification_is_told_apart() {
    let s = Quorum::new();
    let q = s.q();
    let genuine = sign_lease(&s, "a", 1, 1, 5);
    assert_eq!(verify_event_under(&genuine, &q), Ok(()));
    let with = |f: &dyn Fn(&mut NostrEvent)| {
        let mut e = copy(&genuine);
        f(&mut e);
        verify_event_under(&e, &q).unwrap_err()
    };
    assert_eq!(with(&|e| e.pubkey = "00".repeat(32)), VerifyError::WrongKey);
    assert_eq!(with(&|e| e.id = "zz".to_string()), VerifyError::IdNotHex);
    assert_eq!(with(&|e| e.id = "00".repeat(32)), VerifyError::IdMismatch);
    assert_eq!(with(&|e| e.sig = "zz".to_string()), VerifyError::SigNotHex);
    assert_eq!(with(&|e| e.sig = "00".to_string()), VerifyError::SigMalformed);
    assert_eq!(with(&|e| e.sig = "11".repeat(64)), VerifyError::SigInvalid);
    let zero_key = [0u8; 32];
    let mut e = copy(&genuine);
    e.pubkey = hex::encode(zero_key);
    let id = nip01_event_id_with_tags(&e.pubkey, e.created_at, e.kind, &e.tags, &e.content);
    e.id = hex::encode(id);
    assert_eq!(verify_event_under(&e, &zero_key), Err(VerifyError::KeyInvalid));
}
