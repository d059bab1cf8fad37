use std::cell::RefCell;
use std::collections::{BTreeMap, HashMap, VecDeque};
use std::rc::Rc;

use chacha20poly1305::aead::{rand_core::RngCore, OsRng};
use frost_secp256k1_tr::keys::{
    generate_with_dealer, IdentifierList, KeyPackage, PublicKeyPackage, Tweak,
};
use frost_secp256k1_tr::round1::{commit, SigningCommitments};
use frost_secp256k1_tr::round2::{sign_with_tweak, SignatureShare};
use frost_secp256k1_tr::{aggregate_with_tweak, SigningPackage};
use kirby_node::agent_cosign::{engage, AgentCosign, Engagement, SignerStep};
use kirby_node::frost::{identifier_from_u16, key_package_holder};
use kirby_node::lease::Label;
use kirby_node::nostr::{
    nip01_event_id_with_tags, verify_event_under, NostrEvent, KIND_KIRBY_COSIGN, KIND_KIRBY_LEASE,
    KIND_KIRBY_SHARE,
};
use kirby_node::relay_auth::{
    allow_all_coordinators, coordinator_authorizer, coordinator_authorizer_with_lease,
    observe_lease_frame, CoordinatorAuthorizer, Dropped, HolderEndpoint, LeaseFreshness, LeaseView,
    ReplayFault, ReplayGuard, FRESHNESS_WINDOW_SECS,
};
use kirby_node::relay_frames::{
    decode_cosign_frame, encode_cosign_frame, parse_holder_address, recipient_pubkey, CoSignWire,
    FrameError,
};
use kirby_node::relay_lease::LEASE_TTL_SECS;
use kirby_node::relay_routing::{
    published, ConnError, CoordinatorRelayHub, NostrRelayConn, PoolNotice, PoolStep,
    RelayHolderTransport, Scope, SeenEvents, SEEN_EVENT_CAP,
};
use kirby_node::remote_holder::{
    CoSignEvent, Failures, Frames, HolderTransport, RefuseReason, RemoteHolder, RemoteHolderServer,
    SignRequest, ROUND_COMMITMENT, ROUND_ECDH_CONTRIBUTION, ROUND_ECDH_REFUSAL, ROUND_PROBE_ACK,
    ROUND_SHARE,
};
use kirby_node::share_seal::{seal, unseal, FixedBinding};
use kirby_node::share_ship::{
    accept_ship, allow_all_dealers, coordinator_path, decode_share_frame, encode_share_frame,
    has_reply, holder_agent_q, holder_share_dir, holder_task, load_authorized_coordinator,
    load_remote_holder_server, persist_authorized_coordinator, read_has_reply, read_ship_ack,
    share_is_loadable, ship_ack, time_left, DealerAuthorizer, HolderTask, RecordFault, RecordStep,
    RemoteShareSink, ShareFrame, ShareFrameError, ShipFault,
};
use kirby_node::signing::NodeKeys;
use serde_json::Value;

const CREATED_AT: u64 = 1750000000;
const CONTENT: &str = "Kirby co-signs across machines over the relay, by choice.";
const AGENT: &str = "agent-relay-test";

fn keys() -> NodeKeys {
    let mut secret = [0u8; 32];
    loop {
        OsRng.fill_bytes(&mut secret);
        if let Some(k) = NodeKeys::from_secret(&secret) {
            return k;
        }
    }
}

struct Keyset {
    packages: Vec<KeyPackage>,
    pubkeys: PublicKeyPackage,
}

fn keyset() -> Keyset {
    let (secrets, pubkeys) =
        generate_with_dealer(3, 2, IdentifierList::Default, &mut OsRng).unwrap();
    let packages = secrets.into_values().map(|s| KeyPackage::try_from(s).unwrap()).collect();
    Keyset { packages, pubkeys }
}

fn json<T: serde::Serialize>(value: &T) -> Vec<u8> {
    serde_json::to_vec(value).unwrap()
}

fn q_of(pubkeys: &PublicKeyPackage) -> Vec<u8> {
    let key = pubkeys.clone().tweak(None::<&[u8]>).verifying_key().serialize().unwrap();
    key[1..33].to_vec()
}

fn note_id(pubkeys: &PublicKeyPackage, content: &str) -> Vec<u8> {
    nip01_event_id_with_tags(&hex::encode(q_of(pubkeys)), CREATED_AT, 1, &Vec::new(), content)
}

fn read_wire(event: &NostrEvent) -> Option<CoSignWire> {
    let v: Value = serde_json::from_str(&event.content).ok()?;
    Some(CoSignWire {
        agent_id: v.get("agent_id")?.as_str()?.to_string(),
        session_id: v.get("session_id")?.as_u64()?,
        from: v.get("from")?.as_str()?.to_string(),
        round: v.get("round")?.as_u64()?.try_into().ok()?,
        payload_hex: v.get("payload_hex")?.as_str()?.to_string(),
    })
}

fn read_share_frame(event: &NostrEvent) -> Option<ShareFrame> {
    let frame: Value = serde_json::from_str(&event.content).ok()?;
    let (variant, v) = frame.as_object()?.iter().next()?;
    let agent_id = v.get("agent_id")?.as_str()?.to_string();
    let idx = v.get("idx")?.as_u64()?.try_into().ok()?;
    match variant.as_str() {
        "Ship" => {
            let ciphertext = v.get("ciphertext")?.as_str()?.to_string();
            Some(ShareFrame::Ship { agent_id, idx, ciphertext })
        }
        "ShipAck" => {
            let ok = v.get("ok")?.as_bool()?;
            let detail = v.get("detail").and_then(|d| d.as_str()).map(|d| d.to_string());
            Some(ShareFrame::ShipAck { agent_id, idx, ok, detail })
        }
        "HasQuery" => Some(ShareFrame::HasQuery { agent_id, idx }),
        "HasReply" => {
            let present = v.get("present")?.as_bool()?;
            Some(ShareFrame::HasReply { agent_id, idx, present })
        }
        _ => None,
    }
}

/// The payload of a request to sign the note `content` by `package`.
fn envelope(package: &SigningPackage, content: &str) -> Vec<u8> {
    let mut fields = serde_json::Map::new();
    fields.insert("package".to_string(), serde_json::to_value(package).unwrap());
    fields.insert("content".to_string(), Value::String(content.to_string()));
    json(&Value::Object(fields))
}

/// Read a payload, and judge it by the group key that the holder derives itself.
fn judge(own_pubkeys: &[u8], payload: &[u8]) -> Option<SignRequest> {
    let fields: Value = serde_json::from_slice(payload).ok()?;
    let package: SigningPackage = serde_json::from_value(fields.get("package")?.clone()).ok()?;
    let content = fields.get("content")?.as_str()?;
    let own: PublicKeyPackage = serde_json::from_slice(own_pubkeys).ok()?;
    let verdict = if package.message() == &note_id(&own, content) {
        Ok(())
    } else {
        Err(RefuseReason::Membrane(b"\"MessageMismatch\"".to_vec()))
    };
    Some(SignRequest { package: json(&package), verdict })
}

/// The machine that holds a share, behind its relay endpoint.
struct Machine {
    keys: NodeKeys,
    endpoint: HolderEndpoint,
    server: RemoteHolderServer,
    guard: ReplayGuard,
}

impl Machine {
    fn new(server: RemoteHolderServer, gate: CoordinatorAuthorizer) -> Self {
        let endpoint =
            HolderEndpoint { agent_id: AGENT.to_string(), gate, leases: LeaseView::new() };
        Machine { keys: keys(), endpoint, server, guard: ReplayGuard::new() }
    }

    fn address(&self) -> String {
        format!("{}@inmem", self.keys.public_key())
    }

    fn receive(&mut self, event: &NostrEvent) -> Result<NostrEvent, Dropped> {
        let sign = read_wire(event)
            .and_then(|w| hex::decode(&w.payload_hex).ok())
            .and_then(|payload| judge(self.server.own_pubkeys(), &payload));
        self.endpoint.handle_holder_frame(
            &self.keys,
            &mut self.server,
            &mut self.guard,
            event,
            read_wire(event),
            sign,
            event.created_at,
        )
    }
}

/// A coordinator's hub and the channels that its routes lead to.
struct Hub {
    hub: CoordinatorRelayHub,
    channels: HashMap<u64, VecDeque<CoSignEvent>>,
}

impl Hub {
    fn new(coordinator: NodeKeys) -> Self {
        Hub { hub: CoordinatorRelayHub::start(coordinator, AGENT), channels: HashMap::new() }
    }

    fn arrive(&mut self, event: &NostrEvent) {
        if let Some((channel, reply)) = self.hub.demux(event, read_wire(event)) {
            self.channels.entry(channel).or_default().push_back(reply);
        }
    }

    fn take(&mut self, transport: &RelayHolderTransport) -> Option<CoSignEvent> {
        self.channels.get_mut(&transport.channel)?.pop_front()
    }
}

/// The way over the relay from a coordinator to a holder.
struct Relayed {
    hub: Rc<RefCell<Hub>>,
    machine: Rc<RefCell<Machine>>,
    transport: RelayHolderTransport,
}

impl HolderTransport for Relayed {
    fn sent(&self) -> Frames {
        unreachable!()
    }

    fn received(&self) -> Frames {
        unreachable!()
    }

    fn failed(&self) -> Failures {
        unreachable!()
    }

    fn send(&mut self, event: CoSignEvent) -> Result<(), String> {
        let frame = self.hub.borrow().hub.request(&self.transport, &event);
        if let Ok(reply) = self.machine.borrow_mut().receive(&frame) {
            self.hub.borrow_mut().arrive(&reply);
        }
        Ok(())
    }

    fn recv(&mut self) -> Result<CoSignEvent, String> {
        self.hub.borrow_mut().take(&self.transport).ok_or_else(|| "no reply in time".to_string())
    }
}

fn relayed(
    hub: &Rc<RefCell<Hub>>,
    machine: &Rc<RefCell<Machine>>,
    channel: u64,
) -> RemoteHolder<Relayed> {
    let address = machine.borrow().address();
    let transport = hub.borrow_mut().hub.connect(&address, channel).unwrap();
    let id = machine.borrow().server.id();
    RemoteHolder::new(id, Relayed { hub: hub.clone(), machine: machine.clone(), transport })
}

/// One ceremony of the local share 1 and a remote holder.
fn co_sign<T: HolderTransport>(ks: &Keyset, remote: &mut RemoteHolder<T>) -> NostrEvent {
    let local = &ks.packages[0];
    let (nonce, c) = commit(local.signing_share(), &mut OsRng);
    let mut commitments = BTreeMap::new();
    commitments.insert(*local.identifier(), c);
    let remote_id = remote.id().try_into().unwrap();
    let c: SigningCommitments = serde_json::from_slice(&remote.commit(1).unwrap()).unwrap();
    commitments.insert(remote_id, c);
    let id = note_id(&ks.pubkeys, CONTENT);
    let package = SigningPackage::new(commitments, &id);
    let mut shares = BTreeMap::new();
    shares.insert(*local.identifier(), sign_with_tweak(&package, &nonce, local, None).unwrap());
    let share = remote.validate_and_sign(1, envelope(&package, CONTENT)).unwrap();
    let share: SignatureShare = serde_json::from_slice(&share).unwrap();
    shares.insert(remote_id, share);
    let sig = aggregate_with_tweak(&package, &shares, &ks.pubkeys, None).unwrap();
    NostrEvent {
        id: hex::encode(&id),
        pubkey: hex::encode(q_of(&ks.pubkeys)),
        created_at: CREATED_AT,
        kind: 1,
        tags: Vec::new(),
        content: CONTENT.to_string(),
        sig: hex::encode(sig.serialize().unwrap()),
    }
}

fn holder_server(ks: &Keyset, i: usize) -> RemoteHolderServer {
    RemoteHolderServer::new(json(&ks.packages[i]), json(&ks.pubkeys)).unwrap()
}

fn frame(session_id: u64, from: u16, round: u8, payload: Vec<u8>) -> CoSignEvent {
    CoSignEvent { session_id, from: identifier_from_u16(from), round, payload }
}

#[test]
fn codec_round_trips_and_rejects_tampering() {
    let coordinator = keys();
    let holder = keys();
    let cse = frame(42, 2, ROUND_SHARE, vec![0xCA, 0xFE, 0xBA, 0xBE]);
    let event = encode_cosign_frame(AGENT, &cse, holder.public_key(), &coordinator);
    let decoded = decode_cosign_frame(&event, read_wire(&event)).unwrap();
    assert_eq!(decoded.agent_id, AGENT);
    assert_eq!(decoded.sender, coordinator.public_key());
    assert_eq!(decoded.cosign.session_id, cse.session_id);
    assert_eq!(decoded.cosign.from, cse.from);
    assert_eq!(decoded.cosign.round, cse.round);
    assert_eq!(decoded.cosign.payload, cse.payload);

    let tampered = event.content.replace("cafebabe", "deadbeef");
    assert_ne!(event.content, tampered);
    let bad = NostrEvent { content: tampered, ..event };
    assert!(decode_cosign_frame(&bad, read_wire(&bad)).is_err());
}

#[test]
fn remote_relay_holder_in_a_2of3_quorum_produces_a_q_valid_signature() {
    let ks = keyset();
    let machine =
        Rc::new(RefCell::new(Machine::new(holder_server(&ks, 1), allow_all_coordinators())));
    let hub = Rc::new(RefCell::new(Hub::new(keys())));
    let mut remote = relayed(&hub, &machine, 1);
    let event = co_sign(&ks, &mut remote);
    assert_eq!(event.id, hex::encode(note_id(&ks.pubkeys, CONTENT)));
    assert_eq!(event.pubkey, hex::encode(q_of(&ks.pubkeys)));
    assert!(verify_event_under(&event, &q_of(&ks.pubkeys)).is_ok());
}

#[test]
fn probe_and_live_ceremony_over_one_hub_keep_their_reply_routes() {
    let coordinator = keys();
    let coordinator_pubkey = coordinator.public_key().to_string();
    let holder = keys();
    let mut hub = Hub::new(coordinator);
    let holder_addr = format!("{}@inmem", holder.public_key());
    let signer_transport = hub.hub.connect(&holder_addr, 1).unwrap();
    const PROBE_SESSION: u64 = 7;
    let probe_transport = hub.hub.connect_probe(&holder_addr, PROBE_SESSION, 2).unwrap();

    let probe_ack = frame(PROBE_SESSION, 2, ROUND_PROBE_ACK, Vec::new());
    let ceremony_reply = frame(0, 2, ROUND_COMMITMENT, vec![0xAB, 0xCD]);
    hub.arrive(&encode_cosign_frame(AGENT, &probe_ack, &coordinator_pubkey, &holder));
    hub.arrive(&encode_cosign_frame(AGENT, &ceremony_reply, &coordinator_pubkey, &holder));

    let got_signer = hub.take(&signer_transport).unwrap();
    assert_eq!(got_signer.round, ROUND_COMMITMENT);
    assert_eq!(got_signer.payload, vec![0xAB, 0xCD]);
    let got_probe = hub.take(&probe_transport).unwrap();
    assert_eq!(got_probe.round, ROUND_PROBE_ACK);
    assert_eq!(got_probe.session_id, PROBE_SESSION);
    assert!(hub.take(&signer_transport).is_none());
    assert!(hub.take(&probe_transport).is_none());
}

#[test]
fn ecdh_and_live_ceremony_over_one_hub_keep_their_reply_routes() {
    let coordinator = keys();
    let coordinator_pubkey = coordinator.public_key().to_string();
    let holder = keys();
    let mut hub = Hub::new(coordinator);
    let holder_addr = format!("{}@inmem", holder.public_key());
    let signer_transport = hub.hub.connect(&holder_addr, 1).unwrap();
    const ECDH_SESSION: u64 = 5;
    let ecdh_transport = hub.hub.connect_ecdh(&holder_addr, ECDH_SESSION, 2).unwrap();

    let ecdh_reply = frame(ECDH_SESSION, 2, ROUND_ECDH_CONTRIBUTION, vec![0x01, 0x02, 0x03]);
    let ceremony_reply = frame(0, 2, ROUND_COMMITMENT, vec![0xAB, 0xCD]);
    hub.arrive(&encode_cosign_frame(AGENT, &ecdh_reply, &coordinator_pubkey, &holder));
    hub.arrive(&encode_cosign_frame(AGENT, &ceremony_reply, &coordinator_pubkey, &holder));

    let got_signer = hub.take(&signer_transport).unwrap();
    assert_eq!(got_signer.round, ROUND_COMMITMENT);
    assert_eq!(got_signer.payload, vec![0xAB, 0xCD]);
    let got_ecdh = hub.take(&ecdh_transport).unwrap();
    assert_eq!(got_ecdh.round, ROUND_ECDH_CONTRIBUTION);
    assert_eq!(got_ecdh.session_id, ECDH_SESSION);
    assert_eq!(got_ecdh.payload, vec![0x01, 0x02, 0x03]);
}

/// The machine of a holder that shares are shipped to: what it has sealed, and the coordinator that
/// it has recorded.
struct ShareStore {
    keys: NodeKeys,
    binding: FixedBinding,
    salt: Vec<u8>,
    sealed: HashMap<(String, u16), Vec<u8>>,
    coordinator: HashMap<String, String>,
}

impl ShareStore {
    fn new() -> Self {
        ShareStore {
            keys: keys(),
            binding: FixedBinding(vec![7; 32]),
            salt: vec![9; 32],
            sealed: HashMap::new(),
            coordinator: HashMap::new(),
        }
    }

    fn unsealed(&self, agent_id: &str, idx: u16) -> Option<Vec<u8>> {
        let sealed = self.sealed.get(&(agent_id.to_string(), idx))?;
        unseal(&self.binding, agent_id, &self.salt, sealed).ok()
    }

    fn ship(
        &mut self,
        dealer: String,
        agent_id: &str,
        idx: u16,
        ciphertext: String,
    ) -> Result<(), ShipFault> {
        let accepted =
            accept_ship(&allow_all_dealers(), dealer, agent_id.to_string(), idx, ciphertext)?;
        let held = self.unsealed(agent_id, idx).is_some();
        let opened = accepted.open(&self.keys, held)?;
        let sealed = seal(&self.binding, agent_id, &self.salt, opened.share()).unwrap();
        self.sealed.insert((agent_id.to_string(), idx), sealed);
        let recorded = self.coordinator.get(agent_id).map(|s| s.as_str());
        if let RecordStep::Write(text) = opened.sealed(recorded)? {
            self.coordinator.insert(agent_id.to_string(), text);
        }
        Ok(())
    }

    fn receive(&mut self, event: &NostrEvent) -> Option<NostrEvent> {
        let (frame, sender) = decode_share_frame(event, read_share_frame(event)).ok()?;
        let reply = match holder_task(frame) {
            HolderTask::Seal { agent_id, idx, ciphertext } => {
                let outcome = self
                    .ship(sender.clone(), &agent_id, idx, ciphertext)
                    .map_err(|f| f.message(&agent_id, idx, &sender));
                ship_ack(agent_id, idx, outcome)
            }
            HolderTask::Attest { agent_id, idx } => {
                let unsealed = self.unsealed(&agent_id, idx);
                has_reply(agent_id, idx, unsealed.as_ref())
            }
            HolderTask::Ignore => return None,
        };
        Some(encode_share_frame(&reply, &sender, &self.keys))
    }
}

fn put_share(
    sink: &RemoteShareSink,
    store: &mut ShareStore,
    idx: u16,
    share: &[u8],
) -> Result<(), String> {
    let event = sink.ship(idx, share).unwrap();
    let reply = store.receive(&event).unwrap();
    let reply = sink.inbound(&reply, read_share_frame(&reply)).unwrap();
    read_ship_ack(idx, &reply).unwrap()
}

fn has_share(sink: &RemoteShareSink, store: &mut ShareStore, idx: u16) -> bool {
    let reply = store.receive(&sink.query(idx)).unwrap();
    let reply = sink.inbound(&reply, read_share_frame(&reply)).unwrap();
    read_has_reply(idx, &reply).unwrap()
}

fn share_sink(dealer: NodeKeys, store: &ShareStore) -> RemoteShareSink {
    let addr = format!("{}@inmem", store.keys.public_key());
    RemoteShareSink::start(dealer, AGENT, &addr, "holder-2").unwrap()
}

#[test]
fn remote_share_sink_ships_seals_loads_and_attests() {
    let ks = keyset();
    let kp_json = json(&ks.packages[1]);
    let idx = key_package_holder(&kp_json).unwrap();
    let dealer = keys();
    let dealer_pubkey = dealer.public_key().to_string();
    let mut store = ShareStore::new();
    let sink = share_sink(dealer, &store);
    assert_eq!(sink.label(), "holder-2");

    put_share(&sink, &mut store, idx, &kp_json).unwrap();
    assert_eq!(load_authorized_coordinator(&store.coordinator[AGENT]).unwrap(), dealer_pubkey);
    assert!(has_share(&sink, &mut store, idx));
    let other = if idx == 1 { 2 } else { 1 };
    assert!(!has_share(&sink, &mut store, other));
    assert!(sink.get_share(idx).is_err());

    let loaded = load_remote_holder_server(store.unsealed(AGENT, idx).unwrap()).unwrap();
    assert_eq!(loaded.id(), idx);
}

#[test]
fn shipped_share_loads_and_signs_q_valid() {
    let ks = keyset();
    let kp_json = json(&ks.packages[1]);
    let idx = key_package_holder(&kp_json).unwrap();
    let mut store = ShareStore::new();
    let sink = share_sink(keys(), &store);
    put_share(&sink, &mut store, idx, &kp_json).unwrap();

    let share = store.unsealed(AGENT, idx).unwrap();
    assert_eq!(holder_agent_q(&share).unwrap(), hex::encode(q_of(&ks.pubkeys)));
    let loaded = load_remote_holder_server(share).unwrap();
    let machine = Rc::new(RefCell::new(Machine::new(loaded, allow_all_coordinators())));
    let hub = Rc::new(RefCell::new(Hub::new(keys())));
    let event = co_sign(&ks, &mut relayed(&hub, &machine, 1));
    assert!(verify_event_under(&event, &q_of(&ks.pubkeys)).is_ok());
}

#[test]
fn holder_binds_solicits_to_its_authorized_coordinator() {
    let ks = keyset();
    let authorized = keys();
    let gate = coordinator_authorizer(authorized.public_key().to_string());
    let machine = Rc::new(RefCell::new(Machine::new(holder_server(&ks, 1), gate)));
    let rogue_hub = Rc::new(RefCell::new(Hub::new(keys())));
    assert!(relayed(&rogue_hub, &machine, 1).commit(1).is_err());
    let auth_hub = Rc::new(RefCell::new(Hub::new(authorized)));
    assert!(relayed(&auth_hub, &machine, 1).commit(2).is_ok());
}

fn sign_under_q(ks: &Keyset, message: &[u8]) -> Vec<u8> {
    let mut nonces = BTreeMap::new();
    let mut commitments = BTreeMap::new();
    for kp in ks.packages.iter().take(2) {
        let (n, c) = commit(kp.signing_share(), &mut OsRng);
        nonces.insert(*kp.identifier(), n);
        commitments.insert(*kp.identifier(), c);
    }
    let package = SigningPackage::new(commitments, message);
    let shares = ks
        .packages
        .iter()
        .take(2)
        .map(|kp| {
            let share = sign_with_tweak(&package, &nonces[kp.identifier()], kp, None).unwrap();
            (*kp.identifier(), share)
        })
        .collect();
    let sig = aggregate_with_tweak(&package, &shares, &ks.pubkeys, None).unwrap();
    sig.serialize().unwrap()
}

fn sign_test_lease(ks: &Keyset, agent: &str, term: u64, issued_at: u64) -> NostrEvent {
    let content = format!(
        r#"{{"agent_id":"{agent}","holder_node_id":"node-test","term":{term},"issued_at":{issued_at}}}"#
    );
    let tags = vec![vec!["d".to_string(), agent.to_string()]];
    let pubkey = hex::encode(q_of(&ks.pubkeys));
    let kind = KIND_KIRBY_LEASE as u32;
    let id = nip01_event_id_with_tags(&pubkey, issued_at, kind, &tags, &content);
    let sig = hex::encode(sign_under_q(ks, &id));
    NostrEvent { id: hex::encode(&id), pubkey, created_at: issued_at, kind, tags, content, sig }
}

fn read_freshness(event: &NostrEvent) -> Option<LeaseFreshness> {
    let v: Value = serde_json::from_str(&event.content).ok()?;
    Some(LeaseFreshness {
        agent_id: v.get("agent_id")?.as_str()?.to_string(),
        term: v.get("term")?.as_u64()?,
        issued_at: v.get("issued_at")?.as_u64()?,
    })
}

fn observe(view: &mut LeaseView, q: &str, event: &NostrEvent) -> bool {
    observe_lease_frame(view, q, AGENT, event, read_freshness(event))
}

#[test]
fn fresh_lease_gates_the_authorizer() {
    let ks = keyset();
    let agent_q = hex::encode(q_of(&ks.pubkeys));
    let coordinator = keys().public_key().to_string();
    let mut view = LeaseView::new();
    let authz = coordinator_authorizer_with_lease(coordinator.clone());
    let now = CREATED_AT;
    assert!(!authz.authorizes(&view, AGENT, &coordinator, now));

    assert!(observe(&mut view, &agent_q, &sign_test_lease(&ks, AGENT, 1, now)));
    assert!(authz.authorizes(&view, AGENT, &coordinator, now));
    assert!(!authz.authorizes(&view, AGENT, keys().public_key(), now));

    let ks2 = keyset();
    assert!(!observe(&mut view, &agent_q, &sign_test_lease(&ks2, AGENT, 9, now)));

    let stale_at = now.saturating_sub(LEASE_TTL_SECS * 5);
    assert!(observe(&mut view, &agent_q, &sign_test_lease(&ks, AGENT, 2, stale_at)));
    assert!(!authz.authorizes(&view, AGENT, &coordinator, now));
}

#[test]
fn replay_guard_rejects_stale_and_duplicate_frames() {
    let mut guard = ReplayGuard::new();
    let coord = keys().public_key().to_string();
    let now = CREATED_AT;
    assert!(guard.screen(&coord, 5, 10, now, now).is_ok());
    assert!(matches!(guard.screen(&coord, 5, 10, now, now), Err(ReplayFault::Replayed)));
    assert!(guard.screen(&coord, 5, 3, now, now).is_ok());
    let stale = now.saturating_sub(FRESHNESS_WINDOW_SECS * 3);
    assert!(matches!(guard.screen(&coord, 6, 10, stale, now), Err(ReplayFault::Stale)));
    let other = keys().public_key().to_string();
    assert!(guard.screen(&other, 5, 10, now, now).is_ok());
}

#[test]
fn frame_dated_ahead_is_refused_while_it_is_fresh() {
    let mut guard = ReplayGuard::new();
    assert!(guard.screen("c", 5, 10, 1120, 1000).is_ok());
    for again in [1000, 1120, 1121, 1240] {
        assert_eq!(guard.screen("c", 5, 10, 1120, again), Err(ReplayFault::Replayed));
    }
    assert_eq!(guard.screen("c", 5, 10, 1120, 1241), Err(ReplayFault::Stale));
    assert!(guard.screen("c", 5, 10, 1241, 1241).is_ok());
}

#[test]
fn replay_guard_window_is_closed_at_both_ends() {
    let mut guard = ReplayGuard::new();
    let now = CREATED_AT;
    let w = FRESHNESS_WINDOW_SECS;
    assert!(guard.screen("c", 1, 1, now - w, now).is_ok());
    assert!(guard.screen("c", 2, 1, now + w, now).is_ok());
    assert!(guard.screen("c", 3, 1, now - w - 1, now).is_err());
    assert!(guard.screen("c", 4, 1, now + w + 1, now).is_err());
}

#[test]
fn older_lease_does_not_move_the_view_back() {
    let ks = keyset();
    let q = hex::encode(q_of(&ks.pubkeys));
    let mut view = LeaseView::new();
    let now = CREATED_AT;
    assert!(observe(&mut view, &q, &sign_test_lease(&ks, AGENT, 3, now)));
    view.observe(AGENT, 2, 0);
    assert!(view.is_fresh(AGENT, now));
    assert!(!view.is_fresh("another-agent", now));
    assert!(view.is_fresh(AGENT, now + LEASE_TTL_SECS));
    assert!(!view.is_fresh(AGENT, now + LEASE_TTL_SECS + 1));
}

#[test]
fn lease_of_another_agent_is_not_observed() {
    let ks = keyset();
    let q = hex::encode(q_of(&ks.pubkeys));
    let mut view = LeaseView::new();
    let other = sign_test_lease(&ks, "another-agent", 1, CREATED_AT);
    assert!(!observe(&mut view, &q, &other));
    let event = sign_test_lease(&ks, AGENT, 1, CREATED_AT);
    assert!(!observe_lease_frame(&mut view, &q, AGENT, &event, None));
    assert!(!view.is_fresh(AGENT, CREATED_AT));
}

#[test]
fn holder_tells_why_it_drops_a_frame() {
    let ks = keyset();
    let coordinator = keys();
    let gate = coordinator_authorizer(coordinator.public_key().to_string());
    let mut machine = Machine::new(holder_server(&ks, 1), gate);
    let to = machine.keys.public_key().to_string();
    let commit_request = frame(1, 0xFFFF, 10, Vec::new());

    let other = encode_cosign_frame("another-agent", &commit_request, &to, &coordinator);
    assert!(matches!(machine.receive(&other), Err(Dropped::OtherAgent)));
    let rogue = encode_cosign_frame(AGENT, &commit_request, &to, &keys());
    assert!(matches!(machine.receive(&rogue), Err(Dropped::NotEntitled)));

    let event = encode_cosign_frame(AGENT, &commit_request, &to, &coordinator);
    let answer = machine.receive(&event).unwrap();
    assert_eq!(answer.pubkey, to);
    assert_eq!(recipient_pubkey(&answer).as_deref(), Some(coordinator.public_key()));
    let reply = decode_cosign_frame(&answer, read_wire(&answer)).unwrap();
    assert_eq!(reply.agent_id, AGENT);
    assert_eq!((reply.cosign.session_id, reply.cosign.from), (1, identifier_from_u16(2)));
    assert_eq!(reply.cosign.round, ROUND_COMMITMENT);
    assert!(matches!(machine.receive(&event), Err(Dropped::Replay(ReplayFault::Replayed))));

    let bad = NostrEvent { content: "no frame".to_string(), ..event };
    assert!(matches!(machine.receive(&bad), Err(Dropped::NoFrame(FrameError::BadSignature))));
}

#[test]
fn lapsed_lease_shuts_the_holder() {
    let ks = keyset();
    let coordinator = keys();
    let gate = coordinator_authorizer_with_lease(coordinator.public_key().to_string());
    let mut machine = Machine::new(holder_server(&ks, 1), gate);
    let to = machine.keys.public_key().to_string();
    let event = encode_cosign_frame(AGENT, &frame(1, 0xFFFF, 10, Vec::new()), &to, &coordinator);
    assert!(matches!(machine.receive(&event), Err(Dropped::NotEntitled)));
    machine.endpoint.leases.observe(AGENT, 1, event.created_at);
    assert!(machine.receive(&event).is_ok());
}

#[test]
fn each_fault_of_a_frame_is_told_apart() {
    let me = keys();
    let event = encode_cosign_frame(AGENT, &frame(1, 2, 3, vec![1]), me.public_key(), &me);
    assert_eq!(event.kind, KIND_KIRBY_COSIGN as u32);
    let wire = |from: &str, payload: &str| {
        Some(CoSignWire {
            agent_id: AGENT.to_string(),
            session_id: 1,
            from: from.to_string(),
            round: 3,
            payload_hex: payload.to_string(),
        })
    };
    let from = read_wire(&event).unwrap().from;
    assert!(decode_cosign_frame(&event, wire(&from, "01")).is_ok());
    assert!(matches!(decode_cosign_frame(&event, None), Err(FrameError::Malformed)));
    assert!(matches!(
        decode_cosign_frame(&event, wire(&from, "0g")),
        Err(FrameError::BadPayload)
    ));
    let order = "fffffffffffffffffffffffffffffffebaaedce6af48a03bbfd25e8cd0364141";
    for bad in ["zz", "02", &"00".repeat(32), order] {
        assert!(matches!(decode_cosign_frame(&event, wire(bad, "01")), Err(FrameError::BadSender)));
    }
    let wide = "fffffffffffffffffffffffffffffffebaaedce6af48a03bbfd25e8cd0364140";
    let decoded = decode_cosign_frame(&event, wire(wide, "01")).unwrap();
    assert_eq!(hex::encode(decoded.cosign.from), wide);
    let share = ShareFrame::HasQuery { agent_id: AGENT.to_string(), idx: 1 };
    let share = encode_share_frame(&share, me.public_key(), &me);
    assert!(matches!(
        decode_cosign_frame(&share, wire(&from, "01")),
        Err(FrameError::WrongKind(k)) if k == KIND_KIRBY_SHARE as u32
    ));
}

#[test]
fn unrouted_reply_is_dropped_and_disconnect_ends_a_route() {
    let coordinator = keys();
    let me = coordinator.public_key().to_string();
    let holder = keys();
    let mut hub = Hub::new(coordinator);
    let address = format!("{}@wss://r", holder.public_key());
    let reply = encode_cosign_frame(AGENT, &frame(4, 2, ROUND_COMMITMENT, vec![1]), &me, &holder);
    assert!(hub.hub.demux(&reply, read_wire(&reply)).is_none());
    let transport = hub.hub.connect(&address, 11).unwrap();
    assert!(matches!(transport.scope, Scope::Signing));
    assert_eq!(transport.holder, holder.public_key());
    assert!(matches!(hub.hub.demux(&reply, read_wire(&reply)), Some((11, _))));
    let other =
        encode_cosign_frame("another-agent", &frame(4, 2, ROUND_COMMITMENT, vec![]), &me, &holder);
    assert!(hub.hub.demux(&other, read_wire(&other)).is_none());

    let ecdh = hub.hub.connect_ecdh(&address, 4, 12).unwrap();
    let refusal = encode_cosign_frame(AGENT, &frame(4, 2, ROUND_ECDH_REFUSAL, vec![]), &me, &holder);
    assert!(matches!(hub.hub.demux(&refusal, read_wire(&refusal)), Some((12, _))));
    hub.hub.disconnect(&ecdh);
    assert!(hub.hub.demux(&refusal, read_wire(&refusal)).is_none());
    assert!(matches!(hub.hub.demux(&reply, read_wire(&reply)), Some((11, _))));
    assert!(hub.hub.connect("no address", 1).is_err());
}

#[test]
fn request_is_addressed_to_its_holder() {
    let coordinator = keys();
    let me = coordinator.public_key().to_string();
    let holder = keys();
    let mut hub = CoordinatorRelayHub::start(coordinator, AGENT);
    let transport = hub.connect(&format!("{}@wss://r", holder.public_key()), 1).unwrap();
    let event = hub.request(&transport, &frame(8, 0xFFFF, 2, vec![5, 6]));
    assert_eq!(event.pubkey, me);
    assert_eq!(recipient_pubkey(&event).as_deref(), Some(holder.public_key()));
    let decoded = decode_cosign_frame(&event, read_wire(&event)).unwrap();
    assert_eq!(decoded.cosign.payload, vec![5, 6]);
    assert_eq!(decoded.cosign.session_id, 8);
    assert_eq!(decoded.cosign.from, identifier_from_u16(0xFFFF));
}

#[test]
fn holder_address_names_a_key_and_its_relays() {
    let k = keys();
    let a = parse_holder_address(&format!("{}@wss://a,wss://b", k.public_key())).unwrap();
    assert_eq!(a.pubkey, k.public_key());
    assert_eq!(a.relays, vec!["wss://a".to_string(), "wss://b".to_string()]);
    assert!(parse_holder_address("nokey@wss://a").is_err());
    assert!(parse_holder_address(k.public_key()).unwrap().relays.is_empty());
    let a = parse_holder_address(&format!(" {} @ inmem ,, wss://c ,", k.public_key())).unwrap();
    assert_eq!(a.relays, vec!["wss://c".to_string()]);
}

#[test]
fn oldest_seen_event_is_forgotten_first() {
    let mut seen = SeenEvents::new();
    for i in 0..SEEN_EVENT_CAP {
        assert!(seen.first_sight(&format!("{i}")));
    }
    assert!(!seen.first_sight("0"));
    assert!(seen.first_sight("one more"));
    assert!(!seen.first_sight("1"));
    assert!(seen.first_sight("0"));
    assert!(seen.first_sight("1"));
}

#[test]
fn connection_yields_each_event_once() {
    let me = keys().public_key().to_string();
    let mut conn = NostrRelayConn::new(me.clone(), vec!["wss://a".to_string()]).unwrap();
    assert_eq!(conn.relays(), &vec!["wss://a".to_string()]);
    assert!(conn.subscription_id().contains(&me[..8]));
    assert!(matches!(conn.on_notice(&PoolNotice::Event("x".to_string())), PoolStep::Yield));
    assert!(matches!(conn.on_notice(&PoolNotice::Event("x".to_string())), PoolStep::Wait));
    assert!(matches!(conn.on_notice(&PoolNotice::Message), PoolStep::Wait));
    assert!(matches!(conn.on_notice(&PoolNotice::Lagged), PoolStep::Wait));
    assert!(matches!(conn.on_notice(&PoolNotice::Shutdown), PoolStep::Stop));
    assert!(matches!(conn.on_notice(&PoolNotice::Closed), PoolStep::Stop));
    assert!(matches!(NostrRelayConn::new(me.clone(), Vec::new()), Err(ConnError::NoRelay)));
    assert!(matches!(NostrRelayConn::from_address("none"), Err(ConnError::BadAddress)));
    let conn = NostrRelayConn::from_address(&format!("{me}@wss://b")).unwrap();
    assert_eq!(conn.relays(), &vec!["wss://b".to_string()]);
}

#[test]
fn publish_needs_one_relay() {
    assert!(published(1, 5).is_ok());
    assert!(matches!(published(0, 3), Err(e) if e.failed == 3));
}

struct OnlyDealer(String);

impl DealerAuthorizer for OnlyDealer {
    fn accepts(&self, _agent_id: Label, _dealer: Label) -> bool {
        unreachable!()
    }

    fn authorize(&self, _agent_id: &str, dealer: &str) -> bool {
        dealer == self.0
    }
}

#[test]
fn shipped_share_is_opened_by_its_holder_only() {
    let ks = keyset();
    let share = json(&ks.packages[2]);
    let mut store = ShareStore::new();
    let dealer = keys();
    let dealer_pubkey = dealer.public_key().to_string();
    let sink = share_sink(dealer, &store);
    let ciphertext = match read_share_frame(&sink.ship(3, &share).unwrap()) {
        Some(ShareFrame::Ship { ciphertext, .. }) => ciphertext,
        _ => unreachable!(),
    };
    let agent = AGENT.to_string();
    let strict = OnlyDealer("someone".to_string());
    assert!(matches!(
        accept_ship(&strict, dealer_pubkey.clone(), agent.clone(), 3, ciphertext.clone()),
        Err(ShipFault::NotAuthorized)
    ));
    let accepted = || {
        let strict = OnlyDealer(dealer_pubkey.clone());
        accept_ship(&strict, dealer_pubkey.clone(), agent.clone(), 3, ciphertext.clone()).unwrap()
    };
    assert!(matches!(accepted().open(&store.keys, true), Err(ShipFault::AlreadyHeld)));
    assert!(matches!(accepted().open(&keys(), false), Err(ShipFault::Undecryptable(_))));
    let opened = accepted().open(&store.keys, false).unwrap();
    assert_eq!(opened.share(), &share);
    assert!(matches!(
        opened.sealed(Some(keys().public_key())),
        Err(ShipFault::NotRecorded(RecordFault::OtherCoordinator(_)))
    ));

    put_share(&sink, &mut store, 3, &share).unwrap();
    assert!(put_share(&sink, &mut store, 3, &share).is_err());
    assert!(put_share(&sink, &mut store, 2, b"no key package").is_err());
    assert!(!has_share(&sink, &mut store, 2));
}

#[test]
fn sink_listens_to_its_holder_only() {
    let dealer = keys();
    let to = dealer.public_key().to_string();
    let store = ShareStore::new();
    let sink = share_sink(dealer, &store);
    let ack = ship_ack(AGENT.to_string(), 2, Ok(()));
    let genuine = encode_share_frame(&ack, &to, &store.keys);
    assert!(sink.inbound(&genuine, read_share_frame(&genuine)).is_some());
    let forged = encode_share_frame(&ack, &to, &keys());
    assert!(sink.inbound(&forged, read_share_frame(&forged)).is_none());
    let other = ship_ack("another-agent".to_string(), 2, Ok(()));
    let other = encode_share_frame(&other, &to, &store.keys);
    assert!(sink.inbound(&other, read_share_frame(&other)).is_none());
    assert!(read_ship_ack(3, &ack).is_none());
    assert!(read_has_reply(2, &ack).is_none());
    let nack = ship_ack(AGENT.to_string(), 2, Err("why".to_string()));
    assert!(matches!(read_ship_ack(2, &nack), Some(Err(detail)) if detail.contains("why")));
}

#[test]
fn share_frames_come_back() {
    let me = keys();
    let frames = vec![
        ShareFrame::Ship { agent_id: AGENT.to_string(), idx: 1, ciphertext: "c".to_string() },
        ship_ack(AGENT.to_string(), 2, Ok(())),
        ship_ack(AGENT.to_string(), 3, Err("bad \"share\"".to_string())),
        ShareFrame::HasQuery { agent_id: AGENT.to_string(), idx: 4 },
        has_reply(AGENT.to_string(), 5, None),
    ];
    for f in frames {
        let event = encode_share_frame(&f, me.public_key(), &me);
        let (back, sender) = decode_share_frame(&event, read_share_frame(&event)).unwrap();
        assert_eq!(sender, me.public_key());
        assert_eq!(back.agent_id(), AGENT);
        assert_eq!(back.json(), f.json());
        assert!(matches!(decode_share_frame(&event, None), Err(ShareFrameError::Malformed)));
        let bad = NostrEvent { content: String::new(), ..event };
        assert!(matches!(decode_share_frame(&bad, None), Err(ShareFrameError::BadSignature)));
    }
    let cosign = encode_cosign_frame(AGENT, &frame(1, 2, 3, vec![]), me.public_key(), &me);
    assert!(matches!(decode_share_frame(&cosign, None), Err(ShareFrameError::WrongKind(_))));
}

#[test]
fn recorded_coordinator_stays() {
    let a = keys().public_key().to_string();
    let b = keys().public_key().to_string();
    let text = match persist_authorized_coordinator(None, &a) {
        Ok(RecordStep::Write(text)) => text,
        _ => unreachable!(),
    };
    assert_eq!(load_authorized_coordinator(&text).as_deref(), Some(a.as_str()));
    assert!(matches!(persist_authorized_coordinator(Some(&text), &a), Ok(RecordStep::Keep)));
    assert!(matches!(
        persist_authorized_coordinator(Some(&text), &b),
        Err(RecordFault::OtherCoordinator(_))
    ));
    assert!(matches!(
        persist_authorized_coordinator(Some("no key"), &a),
        Err(RecordFault::BadRecord)
    ));
    assert!(load_authorized_coordinator("no key").is_none());
    assert!(coordinator_path("/k", AGENT).starts_with(&holder_share_dir("/k", AGENT)));
}

#[test]
fn only_a_key_package_is_loadable() {
    let ks = keyset();
    assert!(share_is_loadable(Some(&json(&ks.packages[0]))));
    assert!(!share_is_loadable(Some(&b"junk".to_vec())));
    assert!(!share_is_loadable(None));
    assert!(load_remote_holder_server(b"junk".to_vec()).is_none());
    assert!(holder_agent_q(b"junk").is_none());
}

#[test]
fn wire_budget_runs_out() {
    assert_eq!(time_left(1000, 50, 50), Some(1000));
    assert_eq!(time_left(1000, 50, 1049), Some(1));
    assert_eq!(time_left(1000, 50, 1050), None);
    assert_eq!(time_left(1000, 50, 9999), None);
}

#[test]
fn cosign_engages_where_it_is_enabled_and_laid_out() {
    let me = keys().public_key().to_string();
    let dir = Some("/k".to_string());
    let relays = || vec!["wss://a".to_string()];
    assert!(matches!(engage(&None, false, true, &me, relays()), Ok(Engagement::Local)));
    assert!(matches!(engage(&dir, false, true, &me, relays()), Ok(Engagement::Local)));
    assert!(matches!(engage(&dir, true, false, &me, relays()), Ok(Engagement::Inert)));
    assert!(matches!(engage(&dir, true, true, &me, relays()), Ok(Engagement::Distributed(_))));
    match engage(&dir, true, true, &me, Vec::new()) {
        Err(e) => assert!(e.message().contains("/k")),
        Ok(_) => unreachable!(),
    }
}

#[test]
fn shared_signer_is_loaded_once() {
    let mut cosign: AgentCosign<u8, &str> = AgentCosign::build(Some("/k".to_string()), Some(1));
    assert!(cosign.is_distributed());
    assert_eq!(cosign.hub(), Some(&1));
    assert!(matches!(cosign.load_signer(), Ok(SignerStep::LoadShared)));
    cosign.keep_signer("signer");
    assert!(matches!(cosign.load_signer(), Ok(SignerStep::Shared)));
    assert_eq!(cosign.signer(), Some(&"signer"));
    assert!(matches!(cosign.load_ecdh(), Ok(true)));
    let local: AgentCosign<u8, &str> = AgentCosign::build(Some("/k".to_string()), None);
    assert!(!local.is_distributed());
    assert!(matches!(local.load_signer(), Ok(SignerStep::LoadLocal)));
    assert!(matches!(local.load_ecdh(), Ok(false)));
    let none: AgentCosign<u8, &str> = AgentCosign::none();
    assert!(none.load_signer().is_err());
    assert!(none.load_ecdh().is_err());
}
