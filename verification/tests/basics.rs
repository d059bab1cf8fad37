use kirby_node::bytes::{append_bytes, bytes_eq, copy_bytes, copy_range, from_be64, to_be64};
use kirby_node::config::{validate_agent_label, LabelError, ResolvedBackend, RunMode};
use kirby_node::keyed::{key_order, KeyOrder, KeyedRows};
use kirby_node::nostr::{
    nip01_event_id_with_tags, pair_tag, push_tag, tag_value, valued_tag, verify_event_under,
    NostrEvent, VerifyError,
};
use kirby_node::sandbox::GuestArch;
use kirby_node::sessions::SessionTable;
use kirby_node::signing::{parse_public_key, NodeKeys, NIP44_MAX_PLAINTEXT};
use kirby_node::text::{
    append_bool, ascii_alnum, decimal_string, file_name, names_contain, opt_str_eq, parse_u64,
    path_join, split_whitespace, str_contains, str_eq, str_starts_with, str_strip_prefix, str_trim,
    white,
};

#[test]
fn labels_are_checked() {
    assert!(validate_agent_label("agent-1_a.b").is_ok());
    assert_eq!(validate_agent_label(""), Err(LabelError::Empty));
    assert_eq!(validate_agent_label(&"x".repeat(65)), Err(LabelError::TooLong));
    assert!(validate_agent_label(&"x".repeat(64)).is_ok());
    assert_eq!(validate_agent_label("a/b"), Err(LabelError::BadCharacter));
    assert_eq!(validate_agent_label(".."), Err(LabelError::PathComponent));
}

#[test]
fn names_of_modes_and_backends() {
    assert_eq!(RunMode::Bootstrap.name(), "Bootstrap");
    assert_eq!(RunMode::Resume.name(), "Resume");
    assert_eq!(ResolvedBackend::Vz.arch(), GuestArch::Aarch64);
    assert_eq!(ResolvedBackend::Firecracker.arch(), GuestArch::X86_64);
    assert_eq!(ResolvedBackend::Vz.label(), "vz");
    assert_eq!(ResolvedBackend::Firecracker.label(), "firecracker");
}

#[test]
fn text_is_searched_and_trimmed() {
    assert!(str_eq("a", "a") && !str_eq("a", "ab"));
    assert!(opt_str_eq(&Some("a".to_string()), "a") && !opt_str_eq(&None, "a"));
    assert!(names_contain(&vec!["a".to_string(), "b".to_string()], "b"));
    assert!(str_contains("hay needle hay", "needle") && !str_contains("hay", "needle"));
    assert!(str_contains("hay", ""));
    assert!(str_starts_with("prefix", "pre") && !str_starts_with("p", "pre"));
    assert_eq!(str_strip_prefix("k=v", "k="), Some("v".to_string()));
    assert_eq!(str_strip_prefix("k=v", "v="), None);
    assert_eq!(str_trim(" \t a b\u{a0}\n"), "a b");
    assert_eq!(str_trim("\u{3000}"), "");
    assert_eq!(split_whitespace("  a \u{2003}b\nc "), vec!["a", "b", "c"]);
    assert!(white('\u{85}') && !white('x'));
    assert!(ascii_alnum('Z') && !ascii_alnum('-'));
}

#[test]
fn whitespace_is_that_of_the_standard() {
    for code in 0..0x3100u32 {
        if let Some(c) = char::from_u32(code) {
            assert_eq!(white(c), c.is_whitespace(), "{code:x}");
        }
    }
}

#[test]
fn numbers_are_written_and_read() {
    assert_eq!(decimal_string(0), "0");
    assert_eq!(decimal_string(u64::MAX), u64::MAX.to_string());
    assert_eq!(parse_u64("18446744073709551615"), Some(u64::MAX));
    for text in ["18446744073709551616", "", "-1", " 1", "1x", "+"] {
        assert_eq!(parse_u64(text), text.parse::<u64>().ok(), "{text}");
    }
    for text in ["+7", "007", "42"] {
        assert_eq!(parse_u64(text), text.parse::<u64>().ok(), "{text}");
    }
    let mut s = String::new();
    append_bool(&mut s, true);
    append_bool(&mut s, false);
    assert_eq!(s, "truefalse");
}

#[test]
fn paths_are_joined_and_named() {
    assert_eq!(path_join("/a", "b"), "/a/b");
    assert_eq!(path_join("/a/", "b"), "/a/b");
    assert_eq!(file_name("/a/b.c").as_deref(), Some("b.c"));
    assert_eq!(file_name("/a/b/").as_deref(), Some("b"));
    assert_eq!(file_name("/"), None);
    assert_eq!(file_name("/a/.."), None);
}

#[test]
fn bytes_are_copied_and_packed() {
    assert!(bytes_eq(&[1, 2], &[1, 2]) && !bytes_eq(&[1], &[1, 2]));
    assert_eq!(copy_bytes(&[1, 2]), vec![1, 2]);
    assert_eq!(copy_range(&[1, 2, 3, 4], 1, 3), vec![2, 3]);
    let mut v = vec![1];
    append_bytes(&mut v, &[2, 3]);
    assert_eq!(v, vec![1, 2, 3]);
    assert_eq!(to_be64(0x0102_0304_0506_0708), vec![1, 2, 3, 4, 5, 6, 7, 8]);
    assert_eq!(from_be64(&to_be64(u64::MAX - 5)), u64::MAX - 5);
}

#[test]
fn rows_are_kept_by_key_in_order() {
    let mut rows: KeyedRows<u32> = KeyedRows::new();
    for (k, v) in [("b", 2), ("a", 1), ("ab", 3), ("b", 4)] {
        rows.insert(k, v);
    }
    assert_eq!(rows.len(), 3);
    let keys: Vec<&str> = (0..3).map(|i| rows.row(i).key.as_str()).collect();
    assert_eq!(keys, vec!["a", "ab", "b"]);
    assert_eq!(rows.get("b"), Some(&4));
    assert!(rows.contains("ab"));
    rows.remove("ab");
    rows.remove("zz");
    assert_eq!(rows.get("ab"), None);
    assert_eq!(rows.len(), 2);
    assert!(matches!(key_order("a", "b"), KeyOrder::Before));
    assert!(matches!(key_order("b", "b"), KeyOrder::Same));
    assert!(matches!(key_order("ba", "b"), KeyOrder::After));
}

#[test]
fn sessions_are_told_apart_by_peer_session_and_round() {
    let mut t = SessionTable::new();
    t.insert("p", 1, 2, 10);
    t.insert("p", 1, 3, 20);
    t.insert("q", 1, 2, 30);
    t.insert("p", 1, 2, 11);
    assert_eq!(t.get("p", 1, 2), Some(11));
    assert_eq!(t.get("p", 1, 3), Some(20));
    assert_eq!(t.get("p", 2, 2), None);
    t.remove("p", 1, 3);
    assert_eq!(t.get("p", 1, 3), None);
    t.keep_from(30);
    assert_eq!(t.get("p", 1, 2), None);
    assert_eq!(t.get("q", 1, 2), Some(30));
}

fn keys(byte: u8) -> NodeKeys {
    NodeKeys::from_secret(&[byte; 32]).unwrap()
}

#[test]
fn node_keys_sign_events_that_verify() {
    let k = keys(3);
    let tags = vec![pair_tag("d", "agent")];
    let e = k.sign(31002, &tags, "hello");
    assert_eq!(e.pubkey, k.public_key());
    assert_eq!((e.kind, e.content.as_str()), (31002, "hello"));
    let key = hex::decode(k.public_key()).unwrap();
    assert!(verify_event_under(&e, &key).is_ok());
    assert!(NodeKeys::from_secret(&[0; 32]).is_none());
    assert!(NodeKeys::from_secret(&[1; 31]).is_none());
}

#[test]
fn generator_key_is_the_key_of_one() {
    let mut one = [0u8; 32];
    one[31] = 1;
    assert_eq!(
        NodeKeys::from_secret(&one).unwrap().public_key(),
        "79be667ef9dcbbac55a06295ce870b07029bfcdb2dce28d959f2815b16f81798"
    );
}

#[test]
fn every_fault_of_an_event_is_told_apart() {
    let k = keys(3);
    let key = hex::decode(k.public_key()).unwrap();
    let e = || k.sign(1, &Vec::new(), "hello");
    let fault = |e: NostrEvent| verify_event_under(&e, &key).unwrap_err();
    assert!(matches!(verify_event_under(&e(), &[7; 32]), Err(VerifyError::WrongKey)));
    assert!(matches!(fault(NostrEvent { id: "zz".to_string(), ..e() }), VerifyError::IdNotHex));
    assert!(matches!(fault(NostrEvent { id: "00".to_string(), ..e() }), VerifyError::IdMismatch));
    let tampered = NostrEvent { content: "bye".to_string(), ..e() };
    assert!(matches!(fault(tampered), VerifyError::IdMismatch));
    assert!(matches!(fault(NostrEvent { sig: "zz".to_string(), ..e() }), VerifyError::SigNotHex));
    let short = NostrEvent { sig: "00".to_string(), ..e() };
    assert!(matches!(fault(short), VerifyError::SigMalformed));
    let other = keys(4).sign(1, &Vec::new(), "hello").sig;
    assert!(matches!(fault(NostrEvent { sig: other, ..e() }), VerifyError::SigInvalid));
}

#[test]
fn key_that_is_no_point_is_refused() {
    let q = [0xffu8; 32];
    let pubkey = hex::encode(q);
    let id = nip01_event_id_with_tags(&pubkey, 1, 1, &Vec::new(), "x");
    let e = NostrEvent {
        id: hex::encode(id),
        pubkey,
        created_at: 1,
        kind: 1,
        tags: Vec::new(),
        content: "x".to_string(),
        sig: "00".repeat(64),
    };
    assert!(matches!(verify_event_under(&e, &q), Err(VerifyError::KeyInvalid)));
}

#[test]
fn event_id_is_the_hash_of_the_canonical_array() {
    let id = nip01_event_id_with_tags(
        "ab",
        7,
        1,
        &vec![vec!["d".to_string(), "q\"".to_string()]],
        "line\n\u{1}",
    );
    let by_hand = nip01_event_id_with_tags("ab", 7, 1, &Vec::new(), "line\n\u{1}");
    assert_ne!(id, by_hand);
    let text = "[0,\"ab\",7,1,[[\"d\",\"q\\\"\"]],\"line\\n\\u0001\"]";
    let digest = <sha2::Sha256 as sha2::Digest>::digest(text.as_bytes());
    assert_eq!(id, digest.to_vec());
}

#[test]
fn json_escapes_are_few() {
    let content = "\"\\/\u{8}\t\n\u{c}\r\u{1f}\u{7f}\u{e9}";
    let id = nip01_event_id_with_tags("ab", 7, 1, &Vec::new(), content);
    let text = "[0,\"ab\",7,1,[],\"\\\"\\\\/\\b\\t\\n\\f\\r\\u001f\u{7f}\u{e9}\"]";
    assert_eq!(id, <sha2::Sha256 as sha2::Digest>::digest(text.as_bytes()).to_vec());
}

#[test]
fn tags_are_found_by_name() {
    let mut tags = vec![vec!["d".to_string()], pair_tag("d", "x")];
    push_tag(&mut tags, pair_tag("d", "y"));
    assert_eq!(tag_value(&vec![pair_tag("p", "k")], "p").as_deref(), Some("k"));
    assert_eq!(tag_value(&vec![pair_tag("p", "k")], "d"), None);
    assert_eq!(valued_tag(&tags, "d").as_deref(), Some("x"));
}

#[test]
fn sealed_message_is_opened_by_its_recipient() {
    let a = keys(5);
    let b = keys(6);
    let sealed = a.seal(b.public_key(), b"secret").unwrap();
    assert!(!sealed.contains("secret"));
    assert_eq!(b.open(a.public_key(), &sealed).unwrap(), b"secret".to_vec());
    assert!(keys(7).open(a.public_key(), &sealed).is_err());
    assert!(b.open(a.public_key(), "junk").is_err());
    assert_eq!(b.open("no key", &sealed).unwrap_err(), "the sender is no public key");
    assert!(a.seal("no key", b"x").is_none());
    assert!(a.seal(b.public_key(), &[]).is_none());
    assert!(a.seal(b.public_key(), &vec![0; NIP44_MAX_PLAINTEXT + 1]).is_none());
    let longest = vec![3; NIP44_MAX_PLAINTEXT];
    let sealed = a.seal(b.public_key(), &longest).unwrap();
    assert_eq!(b.open(a.public_key(), &sealed).unwrap(), longest);
}

#[test]
fn public_keys_are_read_in_lower_case_hex() {
    let k = keys(8).public_key().to_string();
    assert_eq!(parse_public_key(&k).as_deref(), Some(k.as_str()));
    assert_eq!(parse_public_key(&k.to_uppercase()).as_deref(), Some(k.as_str()));
    assert_eq!(parse_public_key("00"), None);
    assert_eq!(parse_public_key(&"zz".repeat(32)), None);
}
