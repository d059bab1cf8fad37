use std::cell::RefCell;
use std::collections::BTreeMap;
use std::rc::Rc;

use chacha20poly1305::aead::OsRng;
use frost_secp256k1_tr::keys::{
    generate_with_dealer, IdentifierList, KeyPackage, PublicKeyPackage, Tweak,
};
use frost_secp256k1_tr::round1::{commit, SigningCommitments, SigningNonces};
use frost_secp256k1_tr::round2::{sign_with_tweak, SignatureShare};
use frost_secp256k1_tr::{aggregate_with_tweak, SigningPackage};
use kirby_node::frost::{identifier_from_u16, identifier_to_u16, is_key_package, key_package_holder};
use kirby_node::nostr::{nip01_event_id_with_tags, verify_event_under, NostrEvent};
use kirby_node::remote_holder::{
    read_commit_reply, read_sign_reply, CoSignEvent, CommitFault, Failures, Frames, HolderTransport,
    InProcessHolderLink, RefuseReason, RemoteHolder, RemoteHolderServer, SignRequest,
    COORDINATOR_ID, ROUND_COMMITMENT, ROUND_COMMIT_REQUEST, ROUND_PACKAGE, ROUND_REFUSAL,
    ROUND_SHARE,
};
use serde_json::Value;

const CREATED_AT: u64 = 1750000000;
const CONTENT: &str = "Kirby co-signs across machines by choice.";

struct Keyset {
    packages: Vec<KeyPackage>,
    pubkeys: PublicKeyPackage,
}

/// A new 2-of-3 keyset, its key packages in the order of their identifiers.
fn keyset() -> Keyset {
    let (secrets, pubkeys) =
        generate_with_dealer(3, 2, IdentifierList::Default, &mut OsRng).unwrap();
    let packages = secrets.into_values().map(|s| KeyPackage::try_from(s).unwrap()).collect();
    Keyset { packages, pubkeys }
}

fn json<T: serde::Serialize>(value: &T) -> Vec<u8> {
    serde_json::to_vec(value).unwrap()
}

fn server(ks: &Keyset, i: usize) -> RemoteHolderServer {
    RemoteHolderServer::new(json(&ks.packages[i]), json(&ks.pubkeys)).unwrap()
}

fn q_of(pubkeys: &PublicKeyPackage) -> Vec<u8> {
    let key = pubkeys.clone().tweak(None::<&[u8]>).verifying_key().serialize().unwrap();
    key[1..33].to_vec()
}

fn note_id(pubkeys: &PublicKeyPackage, content: &str) -> Vec<u8> {
    nip01_event_id_with_tags(&hex::encode(q_of(pubkeys)), CREATED_AT, 1, &Vec::new(), content)
}

/// The payload of a request to sign the note `content` by `package`.
fn envelope(package: &SigningPackage, content: &str) -> Vec<u8> {
    let mut fields = serde_json::Map::new();
    fields.insert("package".to_string(), serde_json::to_value(package).unwrap());
    fields.insert("content".to_string(), Value::String(content.to_string()));
    json(&Value::Object(fields))
}

/// Read a payload, and judge it as the holder's membrane does: what is signed has to be the note
/// that is asked for, under the group key that the holder derives itself.
fn judge(own_pubkeys: &[u8], payload: &[u8]) -> Option<SignRequest> {
    let fields: Value = serde_json::from_slice(payload).ok()?;
    let package: SigningPackage = serde_json::from_value(fields.get("package")?.clone()).ok()?;
    let content = fields.get("content")?.as_str()?;
    let own: PublicKeyPackage = serde_json::from_slice(own_pubkeys).ok()?;
    let verdict = if package.message() == &note_id(&own, content) {
        Ok(())
    } else {
        Err(RefuseReason::Membrane(b"\"MessageMismatch\"".to_vec()))
    };
    Some(SignRequest { package: json(&package), verdict })
}

/// A link whose far end judges the sign requests that arrive there.
#[derive(Clone)]
struct Link(Rc<RefCell<InProcessHolderLink>>);

impl Link {
    fn new(server: RemoteHolderServer) -> Self {
        Link(Rc::new(RefCell::new(InProcessHolderLink::new(server))))
    }
}

impl HolderTransport for Link {
    fn sent(&self) -> Frames {
        unreachable!()
    }

    fn received(&self) -> Frames {
        unreachable!()
    }

    fn failed(&self) -> Failures {
        unreachable!()
    }

    fn send(&mut self, event: CoSignEvent) -> Result<(), String> {
        let mut link = self.0.borrow_mut();
        let sign = judge(link.holder_pubkeys(), &event.payload);
        link.deliver(event, sign);
        Ok(())
    }

    fn recv(&mut self) -> Result<CoSignEvent, String> {
        self.0.borrow_mut().recv()
    }
}

/// A holder of a quorum: its share in this process, or behind a link.
enum Holder {
    Local(KeyPackage, Option<SigningNonces>),
    Remote(RemoteHolder<Link>),
}

fn remote(link: &Link) -> Holder {
    let id = link.0.borrow().holder_id();
    Holder::Remote(RemoteHolder::new(id, link.clone()))
}

/// One ceremony: every holder commits, every holder signs, the shares are aggregated.
fn sign_note(ks: &Keyset, holders: &mut Vec<Holder>, session: u64) -> NostrEvent {
    let mut commitments = BTreeMap::new();
    for holder in holders.iter_mut() {
        match holder {
            Holder::Local(kp, nonce) => {
                let (n, c) = commit(kp.signing_share(), &mut OsRng);
                *nonce = Some(n);
                commitments.insert(*kp.identifier(), c);
            }
            Holder::Remote(r) => {
                let c: SigningCommitments =
                    serde_json::from_slice(&r.commit(session).unwrap()).unwrap();
                commitments.insert(r.id().try_into().unwrap(), c);
            }
        }
    }
    let id = note_id(&ks.pubkeys, CONTENT);
    let package = SigningPackage::new(commitments, &id);
    let mut shares = BTreeMap::new();
    for holder in holders.iter_mut() {
        match holder {
            Holder::Local(kp, nonce) => {
                let share = sign_with_tweak(&package, &nonce.take().unwrap(), kp, None).unwrap();
                shares.insert(*kp.identifier(), share);
            }
            Holder::Remote(r) => {
                let share = r.validate_and_sign(session, envelope(&package, CONTENT)).unwrap();
                let share: SignatureShare = serde_json::from_slice(&share).unwrap();
                shares.insert(r.id().try_into().unwrap(), share);
            }
        }
    }
    let sig = aggregate_with_tweak(&package, &shares, &ks.pubkeys, None).unwrap();
    NostrEvent {
        id: hex::encode(&id),
        pubkey: hex::encode(q_of(&ks.pubkeys)),
        created_at: CREATED_AT,
        kind: 1,
        tags: Vec::new(),
        content: CONTENT.to_string(),
        sig: hex::encode(sig.serialize().unwrap()),
    }
}

fn request(session_id: u64, round: u8, payload: Vec<u8>) -> CoSignEvent {
    CoSignEvent { session_id, from: identifier_from_u16(COORDINATOR_ID), round, payload }
}

fn contains_subslice(haystack: &[u8], needle: &[u8]) -> bool {
    !needle.is_empty() && haystack.windows(needle.len()).any(|w| w == needle)
}

#[test]
fn remote_holder_in_a_2of3_quorum_produces_a_q_valid_signature() {
    let ks = keyset();
    let link = Link::new(server(&ks, 1));
    let mut holders = vec![Holder::Local(ks.packages[0].clone(), None), remote(&link)];
    let event = sign_note(&ks, &mut holders, 1);
    assert_eq!(event.id, hex::encode(note_id(&ks.pubkeys, CONTENT)));
    assert_eq!(event.pubkey, hex::encode(q_of(&ks.pubkeys)));
    assert!(verify_event_under(&event, &q_of(&ks.pubkeys)).is_ok());
}

#[test]
fn two_remote_holders_produce_a_q_valid_signature() {
    let ks = keyset();
    let link1 = Link::new(server(&ks, 0));
    let link2 = Link::new(server(&ks, 1));
    let event = sign_note(&ks, &mut vec![remote(&link1), remote(&link2)], 1);
    assert!(verify_event_under(&event, &q_of(&ks.pubkeys)).is_ok());
}

#[test]
fn nonce_never_crosses_the_wire() {
    let ks = keyset();
    let link = Link::new(server(&ks, 1));
    let mut holders = vec![Holder::Local(ks.packages[0].clone(), None), remote(&link)];
    sign_note(&ks, &mut holders, 1);

    let link = link.0.borrow();
    let frames = link.wire_log();
    assert!(frames.len() >= 4);
    for f in frames.iter() {
        assert!(serde_json::from_slice::<SigningNonces>(&f.payload).is_err());
    }
    let (sample, _) = commit(ks.packages[1].signing_share(), &mut OsRng);
    let nonce_bytes = json(&sample);
    assert!(!nonce_bytes.is_empty());
    for f in frames.iter() {
        assert!(!contains_subslice(&f.payload, &nonce_bytes));
    }
    let rounds: Vec<u8> = frames.iter().map(|f| f.round).collect();
    assert!(rounds.contains(&ROUND_COMMIT_REQUEST));
    assert!(rounds.contains(&ROUND_COMMITMENT));
    assert!(rounds.contains(&ROUND_PACKAGE));
    assert!(rounds.contains(&ROUND_SHARE));
    let commitment = frames.iter().find(|f| f.round == ROUND_COMMITMENT).unwrap();
    assert!(serde_json::from_slice::<SigningCommitments>(&commitment.payload).is_ok());
}

#[test]
fn remote_holder_refuses_a_tampered_package_no_share() {
    let ks = keyset();
    let mut server = server(&ks, 1);
    let session_id = 7u64;
    let commit_reply = server.handle(request(session_id, ROUND_COMMIT_REQUEST, Vec::new()), None);
    assert_eq!(commit_reply.round, ROUND_COMMITMENT);
    let commitment: SigningCommitments = serde_json::from_slice(&commit_reply.payload).unwrap();

    let mut commitments = BTreeMap::new();
    commitments.insert(*ks.packages[1].identifier(), commitment);
    let wrong_id = note_id(&ks.pubkeys, "a DIFFERENT note");
    let payload = envelope(&SigningPackage::new(commitments, &wrong_id), CONTENT);
    let sign = judge(server.own_pubkeys(), &payload);
    let sign_reply = server.handle(request(session_id, ROUND_PACKAGE, payload), sign);
    assert_eq!(sign_reply.round, ROUND_REFUSAL);
    assert!(matches!(
        RefuseReason::from_payload(&sign_reply.payload),
        RefuseReason::Membrane(reason) if reason == b"\"MessageMismatch\""
    ));

    let (_, c) = commit(ks.packages[1].signing_share(), &mut OsRng);
    let mut commitments = BTreeMap::new();
    commitments.insert(*ks.packages[1].identifier(), c);
    let real_id = note_id(&ks.pubkeys, CONTENT);
    let payload = envelope(&SigningPackage::new(commitments, &real_id), CONTENT);
    let sign = judge(server.own_pubkeys(), &payload);
    let again = server.handle(request(session_id, ROUND_PACKAGE, payload), sign);
    assert_eq!(again.round, ROUND_REFUSAL);
    assert!(matches!(RefuseReason::from_payload(&again.payload), RefuseReason::BadKeyset));
}

#[test]
fn mock_transport_never_inspects_payload() {
    let ks = keyset();
    let mut link = InProcessHolderLink::new(server(&ks, 0));
    let garbage = vec![0xde, 0xad, 0xbe, 0xef, 0x00, 0xff, 0x42];
    link.send(request(42, 99, garbage.clone())).unwrap();
    let frames = link.wire_log();
    assert_eq!(frames[0].payload, garbage);
    assert_eq!(frames[0].round, 99);
    assert_eq!(frames[1].round, ROUND_REFUSAL);
}

/// A link whose replies claim to come from someone else.
struct SpoofingFromLink {
    inner: InProcessHolderLink,
    spoof_from: u16,
}

impl HolderTransport for SpoofingFromLink {
    fn sent(&self) -> Frames {
        unreachable!()
    }

    fn received(&self) -> Frames {
        unreachable!()
    }

    fn failed(&self) -> Failures {
        unreachable!()
    }

    fn send(&mut self, event: CoSignEvent) -> Result<(), String> {
        self.inner.send(event)
    }

    fn recv(&mut self) -> Result<CoSignEvent, String> {
        let mut e = self.inner.recv()?;
        e.from = identifier_from_u16(self.spoof_from);
        Ok(e)
    }
}

#[test]
fn remote_holder_rejects_reply_from_a_wrong_sender() {
    let ks = keyset();
    let server = server(&ks, 1);
    let wrong_from = key_package_holder(&json(&ks.packages[0])).unwrap();
    assert_ne!(server.id(), wrong_from);
    let id = server.id();
    let link = SpoofingFromLink { inner: InProcessHolderLink::new(server), spoof_from: wrong_from };
    let mut remote = RemoteHolder::new(id, link);
    let fault = remote.commit(1).unwrap_err();
    assert!(fault.message(id).contains("came from"));
    assert!(matches!(
        fault,
        CommitFault::WrongSender { from } if from == identifier_from_u16(wrong_from)
    ));
}

#[test]
fn live_session_is_not_given_a_second_nonce() {
    let ks = keyset();
    let mut server = server(&ks, 0);
    let first = server.handle(request(3, ROUND_COMMIT_REQUEST, Vec::new()), None);
    assert_eq!((first.session_id, first.round), (3, ROUND_COMMITMENT));
    assert_eq!(first.from, identifier_from_u16(1));
    let second = server.handle(request(3, ROUND_COMMIT_REQUEST, Vec::new()), None);
    assert_eq!(second.round, ROUND_REFUSAL);
    let other = server.handle(request(4, ROUND_COMMIT_REQUEST, Vec::new()), None);
    assert_eq!(other.round, ROUND_COMMITMENT);
    assert_ne!(other.payload, first.payload);
}

#[test]
fn session_opens_with_what_was_drawn_for_it() {
    let ks = keyset();
    let mut server = server(&ks, 2);
    let none = server.open_session(5, None);
    assert_eq!((none.session_id, none.round), (5, ROUND_REFUSAL));
    assert_eq!(none.from, identifier_from_u16(3));
    let opened = server.open_session(5, Some((vec![1, 2], vec![3, 4])));
    assert_eq!((opened.session_id, opened.round), (5, ROUND_COMMITMENT));
    assert_eq!(opened.from, identifier_from_u16(3));
    assert_eq!(opened.payload, vec![3, 4]);
    let again = server.open_session(5, Some((vec![5], vec![6])));
    assert_eq!(again.round, ROUND_REFUSAL);
}

#[test]
fn unread_request_keeps_the_nonce_and_a_signed_one_drops_it() {
    let ks = keyset();
    let mut server1 = server(&ks, 0);
    let mut server2 = server(&ks, 1);
    let c1 = server1.handle(request(9, ROUND_COMMIT_REQUEST, Vec::new()), None);
    let c2 = server2.handle(request(9, ROUND_COMMIT_REQUEST, Vec::new()), None);
    let mut commitments = BTreeMap::new();
    commitments.insert(
        *ks.packages[0].identifier(),
        serde_json::from_slice::<SigningCommitments>(&c1.payload).unwrap(),
    );
    commitments.insert(
        *ks.packages[1].identifier(),
        serde_json::from_slice::<SigningCommitments>(&c2.payload).unwrap(),
    );
    let package = SigningPackage::new(commitments, &note_id(&ks.pubkeys, CONTENT));
    let payload = envelope(&package, CONTENT);

    let unread = server1.handle(request(9, ROUND_PACKAGE, b"no request".to_vec()), None);
    assert_eq!(unread.round, ROUND_REFUSAL);
    let sign = judge(server1.own_pubkeys(), &payload);
    let share = server1.handle(request(9, ROUND_PACKAGE, payload.clone()), sign);
    assert_eq!(share.round, ROUND_SHARE);
    assert!(serde_json::from_slice::<SignatureShare>(&share.payload).is_ok());
    let sign = judge(server1.own_pubkeys(), &payload);
    let again = server1.handle(request(9, ROUND_PACKAGE, payload), sign);
    assert_eq!(again.round, ROUND_REFUSAL);
}

#[test]
fn in_process_link_reads_ahead_for_its_server() {
    let ks = keyset();
    let mut link = InProcessHolderLink::new(server(&ks, 0));
    assert_eq!(link.recv().unwrap_err(), "no reply queued from the remote holder");
    link.send(request(1, ROUND_COMMIT_REQUEST, Vec::new())).unwrap();
    assert_eq!(link.recv().unwrap().round, ROUND_COMMITMENT);
    link.read_next_as(SignRequest {
        package: Vec::new(),
        verdict: Err(RefuseReason::Membrane(b"\"PolicyDenied\"".to_vec())),
    });
    link.send(request(1, ROUND_PACKAGE, Vec::new())).unwrap();
    let refused = link.recv().unwrap();
    assert_eq!(refused.round, ROUND_REFUSAL);
    assert_eq!(refused.payload, b"\"PolicyDenied\"".to_vec());
}

fn reply(session_id: u64, from: u16, round: u8, payload: Vec<u8>) -> CoSignEvent {
    CoSignEvent { session_id, from: identifier_from_u16(from), round, payload }
}

#[test]
fn each_fault_of_a_commit_reply_is_told_apart() {
    let ks = keyset();
    let (_, c) = commit(ks.packages[0].signing_share(), &mut OsRng);
    assert_eq!(read_commit_reply(2, 1, reply(1, 2, ROUND_COMMITMENT, json(&c))).unwrap(), json(&c));
    assert!(matches!(
        read_commit_reply(2, 1, reply(8, 2, ROUND_COMMITMENT, json(&c))),
        Err(CommitFault::SessionMismatch { asked: 1, got: 8 })
    ));
    assert!(matches!(
        read_commit_reply(2, 1, reply(1, 3, ROUND_COMMITMENT, json(&c))),
        Err(CommitFault::WrongSender { from }) if from == identifier_from_u16(3)
    ));
    assert!(matches!(
        read_commit_reply(2, 1, reply(1, 2, ROUND_COMMITMENT, b"{}".to_vec())),
        Err(CommitFault::Undecodable(why)) if why.starts_with("missing field")
    ));
    assert!(matches!(
        read_commit_reply(2, 1, reply(1, 2, ROUND_REFUSAL, RefuseReason::BadKeyset.to_payload())),
        Err(CommitFault::Refused(RefuseReason::BadKeyset))
    ));
    for no_reason in [b"{\"cut\":".to_vec(), b"42".to_vec(), b" [1]".to_vec(), Vec::new()] {
        assert!(matches!(
            read_commit_reply(2, 1, reply(1, 2, ROUND_REFUSAL, no_reason)),
            Err(CommitFault::UndecodableRefusal)
        ));
    }
    assert!(matches!(
        read_commit_reply(2, 1, reply(1, 2, ROUND_REFUSAL, b" {\"x\":1}".to_vec())),
        Err(CommitFault::Refused(RefuseReason::Membrane(_)))
    ));
    assert!(matches!(
        read_commit_reply(2, 1, reply(1, 2, 77, Vec::new())),
        Err(CommitFault::UnexpectedRound(77))
    ));
}

#[test]
fn faults_of_a_commit_name_their_reason() {
    let refused = |said: &[u8]| CommitFault::Refused(RefuseReason::from_payload(said)).message(3);
    assert_eq!(refused(b""), "remote holder 3 REFUSED at round 1 (BadKeyset)");
    let mismatch = refused(b"\"MessageMismatch\"");
    assert_eq!(mismatch, "remote holder 3 REFUSED at round 1 (MessageMismatch)");
    assert_eq!(refused(b"{\"x\":1}"), "remote holder 3 REFUSED at round 1 ({\"x\":1})");
    let undecodable = CommitFault::Undecodable("expected value".to_string());
    assert_eq!(undecodable.message(3), "remote holder 3 commitment decode: expected value");
    let small = CommitFault::WrongSender { from: identifier_from_u16(7) };
    assert_eq!(small.message(3), "remote holder 3 round-1 reply came from 7 (expected 3)");
    let wide = CommitFault::WrongSender { from: vec![1; 32] };
    assert!(wide.message(3).contains(&"01".repeat(32)));
    assert_eq!(CommitFault::Transport("cut off".to_string()).message(3), "cut off");
    let other = CommitFault::SessionMismatch { asked: 1, got: 2 }.message(3);
    assert_eq!(other, "remote holder 3 round-1 reply session mismatch (asked 1, got 2)");
}

struct DeadLine;

impl HolderTransport for DeadLine {
    fn sent(&self) -> Frames {
        unreachable!()
    }

    fn received(&self) -> Frames {
        unreachable!()
    }

    fn failed(&self) -> Failures {
        unreachable!()
    }

    fn send(&mut self, _event: CoSignEvent) -> Result<(), String> {
        Err("line is dead".to_string())
    }

    fn recv(&mut self) -> Result<CoSignEvent, String> {
        unreachable!("nothing is awaited on a dead line")
    }
}

#[test]
fn dead_transport_is_a_fault_and_a_refusal() {
    let mut holder = RemoteHolder::new(3, DeadLine);
    let fault = holder.commit(1).unwrap_err();
    assert!(matches!(fault, CommitFault::Transport(why) if why == "line is dead"));
    let refusal = holder.validate_and_sign(1, Vec::new());
    assert!(matches!(refusal, Err(RefuseReason::BadKeyset)));
}

#[test]
fn sign_reply_gives_a_share_of_this_holder_or_a_refusal() {
    let ks = keyset();
    let mut nonces = BTreeMap::new();
    let mut commitments = BTreeMap::new();
    for kp in ks.packages.iter().take(2) {
        let (n, c) = commit(kp.signing_share(), &mut OsRng);
        nonces.insert(*kp.identifier(), n);
        commitments.insert(*kp.identifier(), c);
    }
    let package = SigningPackage::new(commitments, b"message");
    let kp = &ks.packages[0];
    let share = json(&sign_with_tweak(&package, &nonces[kp.identifier()], kp, None).unwrap());
    assert_eq!(read_sign_reply(1, 4, reply(4, 1, ROUND_SHARE, share.clone())).unwrap(), share);
    for bad in [
        reply(5, 1, ROUND_SHARE, share.clone()),
        reply(4, 2, ROUND_SHARE, share.clone()),
        reply(4, 1, ROUND_SHARE, b"no share".to_vec()),
        reply(4, 1, ROUND_COMMITMENT, share.clone()),
    ] {
        assert!(matches!(read_sign_reply(1, 4, bad), Err(RefuseReason::BadKeyset)));
    }
    let refusal = RefuseReason::Membrane(b"\"MessageMismatch\"".to_vec()).to_payload();
    assert!(matches!(
        read_sign_reply(1, 4, reply(4, 1, ROUND_REFUSAL, refusal)),
        Err(RefuseReason::Membrane(r)) if r == b"\"MessageMismatch\""
    ));
    assert!(matches!(
        read_sign_reply(1, 4, reply(4, 1, ROUND_REFUSAL, Vec::new())),
        Err(RefuseReason::BadKeyset)
    ));
}

#[test]
fn identifiers_are_read_from_key_packages() {
    let ks = keyset();
    for (i, kp) in ks.packages.iter().enumerate() {
        assert_eq!(key_package_holder(&json(kp)), Some(i as u16 + 1));
        assert!(is_key_package(&json(kp)));
    }
    assert_eq!(key_package_holder(b"no key package"), None);
    assert!(!is_key_package(b"no key package"));
    assert!(RemoteHolderServer::new(b"no key package".to_vec(), Vec::new()).is_none());
    assert_eq!(identifier_to_u16(&identifier_from_u16(0)), None);
    for id in [1u16, 255, 256, 65535] {
        assert_eq!(identifier_to_u16(&identifier_from_u16(id)), Some(id));
    }
    let mut large = identifier_from_u16(7);
    large[0] = 1;
    assert_eq!(identifier_to_u16(&large), None);
    assert_eq!(identifier_to_u16(&[0; 31]), None);
}
