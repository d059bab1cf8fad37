use std::cell::RefCell;

use kirby_node::seed_keyring::{
    InMemoryReconstructor, KeyringWalletSeed, TooFewShares, WalletSeedError,
};
use sha2::{Digest, Sha512};

const MASTER_SEED: [u8; 32] = [7u8; 32];

/// Multiplication in GF(256) with the AES polynomial.
fn mul256(mut a: u8, mut b: u8) -> u8 {
    let mut out = 0u8;
    while b != 0 {
        if b & 1 == 1 {
            out ^= a;
        }
        let carry = a & 0x80 != 0;
        a <<= 1;
        if carry {
            a ^= 0x1b;
        }
        b >>= 1;
    }
    out
}

fn inverse256(a: u8) -> u8 {
    (1..=255u8).find(|b| mul256(a, *b) == 1).unwrap()
}

/// A 2-of-3 split: each byte is the constant term of a line.
fn split(seed: &[u8; 32]) -> Vec<(u8, Vec<u8>)> {
    let slope: Vec<u8> = (0..32u8).map(|i| i.wrapping_mul(37).wrapping_add(11)).collect();
    (1..=3u8)
        .map(|x| (x, seed.iter().zip(&slope).map(|(c, m)| c ^ mul256(*m, x)).collect()))
        .collect()
}

fn combine(a: &(u8, Vec<u8>), b: &(u8, Vec<u8>)) -> Vec<u8> {
    let d = inverse256(a.0 ^ b.0);
    a.1.iter()
        .zip(&b.1)
        .map(|(ya, yb)| mul256(mul256(*ya, b.0) ^ mul256(*yb, a.0), d))
        .collect()
}

fn wallet_seed_of(master: &[u8]) -> [u8; 64] {
    let mut h = Sha512::new();
    h.update(b"wallet");
    h.update(master);
    h.finalize().into()
}

/// A share on the wire: its index, and its bytes.
fn encode(share: (u8, Vec<u8>)) -> (u8, Vec<u8>) {
    let mut wire = vec![share.0];
    wire.extend(share.1);
    (share.0, wire)
}

fn decode(wire: Vec<u8>) -> Option<(u8, Vec<u8>)> {
    if wire.len() == 33 {
        Some((wire[0], wire[1..].to_vec()))
    } else {
        None
    }
}

fn open(shares: Vec<(u8, Vec<u8>)>) -> Result<[u8; 64], String> {
    if shares[0].0 == shares[1].0 {
        return Err("the points are not distinct".to_string());
    }
    Ok(wallet_seed_of(&combine(&shares[0], &shares[1])))
}

fn split_and_store(fresh: bool) -> (InMemoryReconstructor, [u8; 64]) {
    (
        InMemoryReconstructor { fresh, shares: split(&MASTER_SEED).into_iter().map(encode).collect() },
        wallet_seed_of(&MASTER_SEED),
    )
}

#[test]
fn fresh_lease_reconstructs_the_directly_derived_wallet_seed() {
    let (double, expected) = split_and_store(true);
    let provider = KeyringWalletSeed::new(vec![1, 2, 3], double);
    let got = provider
        .wallet_seed(decode, open)
        .expect("fresh lease + a full quorum reconstructs the wallet seed");
    assert_eq!(got, expected);
}

#[test]
fn a_threshold_of_shares_suffices() {
    let (mut double, expected) = split_and_store(true);
    double.shares.retain(|s| s.0 != 3);
    let provider = KeyringWalletSeed::new(vec![1, 2, 3], double);
    let got = provider.wallet_seed(decode, open).expect("2 of 3 shares meet the threshold");
    assert_eq!(got, expected, "any SEAL_THRESHOLD shares reconstruct the same seed");
}

#[test]
fn a_stale_lease_refuses_to_open_the_wallet() {
    let (double, _expected) = split_and_store(false);
    let provider = KeyringWalletSeed::new(vec![1, 2, 3], double);
    let err = provider
        .wallet_seed(decode, open)
        .expect_err("a stale lease MUST refuse to open the wallet");
    assert!(err.message().contains("refusing to open the wallet"), "{}", err.message());
}

#[test]
fn too_few_shares_refuses_to_open_the_wallet() {
    let (mut double, _expected) = split_and_store(true);
    double.shares.retain(|s| s.0 == 1);
    let provider = KeyringWalletSeed::new(vec![1, 2, 3], double);
    let err = provider
        .wallet_seed(decode, open)
        .expect_err("fewer than the threshold of shares MUST refuse");
    assert!(matches!(
        err,
        WalletSeedError::TooFew(TooFewShares { available: 1, of: 3 })
    ));
    assert_eq!(
        err.message(),
        "reconstruct-on-lease: only 1 of 3 shares available, need 2 (no fresh lease, or too few \
         holders reachable) — refusing to open the wallet"
    );
}

#[test]
fn undecodable_share_is_passed_over() {
    let (mut double, expected) = split_and_store(true);
    double.shares[0].1.truncate(5);
    let provider = KeyringWalletSeed::new(vec![1, 2, 3], double);
    assert_eq!(provider.wallet_seed(decode, open).unwrap(), expected);
}

#[test]
fn gathering_stops_once_there_are_enough() {
    let (double, _expected) = split_and_store(true);
    let provider = KeyringWalletSeed::new(vec![2, 3, 1], double);
    let decoded = RefCell::new(vec![]);
    let shares = provider
        .gather(&|wire: Vec<u8>| {
            decoded.borrow_mut().push(wire[0]);
            decode(wire)
        })
        .unwrap();
    assert_eq!(decoded.into_inner(), vec![2, 3]);
    assert_eq!(shares.iter().map(|s| s.0).collect::<Vec<u8>>(), vec![2, 3]);
}

#[test]
fn shares_that_do_not_combine_open_nothing() {
    let (double, _expected) = split_and_store(true);
    let provider = KeyringWalletSeed::new(vec![2, 2], double);
    let err = provider.wallet_seed(decode, open).unwrap_err();
    assert_eq!(
        err.message(),
        "reconstruct master seed from lease-gated shares: the points are not distinct"
    );
}
