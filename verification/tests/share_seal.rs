use chacha20poly1305::aead::{Aead, KeyInit, Payload};
use kirby_node::share_seal::{
    load_or_create_salt, load_salt, new_host_key, seal, sealed_share_aux_paths, unseal,
    FixedBinding, HostMachineBinding, MachineBinding, SaltError, SealError, SinkSalt, NONCE_LEN,
    SALT_LEN,
};

fn fresh_salt() -> Vec<u8> {
    match load_or_create_salt(None).unwrap() {
        SinkSalt::Created(salt) => salt,
        SinkSalt::Kept(_) => panic!("there was no salt to keep"),
    }
}

#[test]
fn seal_then_unseal_roundtrips_to_the_same_plaintext() {
    let binding = FixedBinding(b"machine-A-binding-secret".to_vec());
    let salt = fresh_salt();
    let plaintext = b"a-frost-share-keypackage-json-blob";

    let sealed = seal(&binding, "holder-1", &salt, plaintext).unwrap();
    assert!(
        !sealed.windows(plaintext.len()).any(|w| w == plaintext),
        "sealed body must not contain the plaintext"
    );
    assert!(sealed.len() > plaintext.len(), "sealed body carries a nonce + tag");

    let opened = unseal(&binding, "holder-1", &salt, &sealed).unwrap();
    assert_eq!(opened, plaintext, "unseal must reproduce the exact plaintext");
}

#[test]
fn unseal_with_a_different_machine_binding_fails_loud() {
    let salt = fresh_salt();
    let plaintext = b"share-bytes";
    let sealed = seal(&FixedBinding(b"machine-A".to_vec()), "h1", &salt, plaintext).unwrap();
    let err = unseal(&FixedBinding(b"machine-B".to_vec()), "h1", &salt, &sealed)
        .expect_err("a different machine binding must fail to unseal");
    assert!(err.message().contains("tag mismatch"), "must be a loud tag-mismatch error");
}

#[test]
fn unseal_with_a_wrong_sink_label_fails_loud() {
    let binding = FixedBinding(b"machine-A".to_vec());
    let salt = fresh_salt();
    let sealed = seal(&binding, "holder-1", &salt, b"share").unwrap();
    assert!(
        unseal(&binding, "holder-2", &salt, &sealed).is_err(),
        "a blob sealed for holder-1 must not unseal as holder-2"
    );
}

#[test]
fn tampering_with_one_ciphertext_byte_fails_the_tag() {
    let binding = FixedBinding(b"machine-A".to_vec());
    let salt = fresh_salt();
    let mut sealed = seal(&binding, "h1", &salt, b"share-bytes-here").unwrap();
    let last = sealed.len() - 1;
    sealed[last] ^= 0x01;
    assert!(
        unseal(&binding, "h1", &salt, &sealed).is_err(),
        "a one-byte tamper must fail the AEAD tag"
    );
}

#[test]
fn per_sink_salt_separates_keys_on_the_same_machine() {
    let binding = FixedBinding(b"one-machine".to_vec());
    let salt_a = fresh_salt();
    let salt_b = fresh_salt();
    assert_ne!(salt_a, salt_b, "two sinks must get distinct random salts");
    let sealed_a = seal(&binding, "h1", &salt_a, b"share").unwrap();
    assert!(
        unseal(&binding, "h1", &salt_b, &sealed_a).is_err(),
        "sink B's salt must not unseal sink A's blob"
    );
}

#[test]
fn sealing_twice_gives_two_bodies() {
    let binding = FixedBinding(b"m".to_vec());
    let salt = fresh_salt();
    let a = seal(&binding, "h", &salt, b"share").unwrap();
    let b = seal(&binding, "h", &salt, b"share").unwrap();
    assert_ne!(a, b);
    assert_eq!(a.len(), NONCE_LEN + 5 + 16);
}

#[test]
fn the_sealed_body_is_what_the_cipher_gives() {
    let binding = FixedBinding(b"m".to_vec());
    let salt = vec![3u8; SALT_LEN];
    let sealed = seal(&binding, "h", &salt, b"share").unwrap();
    let mut key = [0u8; 32];
    hkdf::Hkdf::<sha2::Sha256>::new(Some(&salt), b"m")
        .expand(b"kirby-frost-share-seal-v1:h", &mut key)
        .unwrap();
    let cipher = chacha20poly1305::XChaCha20Poly1305::new((&key).into());
    let opened = cipher
        .decrypt(
            chacha20poly1305::XNonce::from_slice(&sealed[..NONCE_LEN]),
            Payload { msg: &sealed[NONCE_LEN..], aad: b"kirby-frost-share-seal-v1-aad:h" },
        )
        .unwrap();
    assert_eq!(opened, b"share");
}

#[test]
fn a_short_body_and_a_missing_secret_are_told_apart() {
    let none = HostMachineBinding { machine_id: None, host_key: None };
    assert_eq!(seal(&none, "h", &[0; 32], b"x").unwrap_err(), SealError::NoBinding);
    assert_eq!(unseal(&none, "h", &[0; 32], &[0; 40]).unwrap_err(), SealError::NoBinding);
    assert_eq!(unseal(&none, "h", &[0; 32], &[0; 23]).unwrap_err(), SealError::TooShort(23));
}

#[test]
fn a_host_is_bound_by_its_machine_id_or_its_key() {
    let by_id = HostMachineBinding {
        machine_id: Some(b"abc123\nrest".to_vec()),
        host_key: Some(vec![1; SALT_LEN]),
    };
    assert_eq!(by_id.ikm(), Some(b"abc123".to_vec()));
    let blank = HostMachineBinding {
        machine_id: Some(b"\n".to_vec()),
        host_key: Some(vec![1; SALT_LEN]),
    };
    assert_eq!(blank.ikm(), Some(vec![1; SALT_LEN]));
    let short = HostMachineBinding { machine_id: None, host_key: Some(vec![1; 3]) };
    assert_eq!(short.ikm(), None);
    let key = new_host_key().unwrap();
    assert_eq!(key.len(), SALT_LEN);
    assert_ne!(key, new_host_key().unwrap());
}

#[test]
fn a_salt_is_kept_and_a_corrupt_one_refused() {
    let salt = vec![9u8; SALT_LEN];
    assert!(matches!(
        load_or_create_salt(Some(salt.clone())),
        Ok(SinkSalt::Kept(kept)) if kept == salt
    ));
    assert!(matches!(load_or_create_salt(Some(vec![1])), Err(SaltError::Corrupt(1))));
    assert_eq!(load_salt(Some(salt.clone())).unwrap(), salt);
    assert_eq!(load_salt(None).unwrap_err(), SaltError::Missing);
    assert_eq!(load_salt(Some(vec![0; 31])).unwrap_err(), SaltError::Corrupt(31));
}

#[test]
fn the_aux_files_stand_in_the_sink() {
    let (salt, key) = sealed_share_aux_paths("/sink");
    assert!(salt.starts_with("/sink/"));
    assert!(key.starts_with("/sink/"));
    assert_ne!(salt, key);
}

#[test]
fn too_short_a_body_says_how_short() {
    assert_eq!(
        SealError::TooShort(5).message(),
        "sealed share is too short (5 bytes < 24-byte nonce); corrupt or not a sealed blob"
    );
    assert!(SealError::TagMismatch.message().ends_with("sealed share + salt from backup."));
}
