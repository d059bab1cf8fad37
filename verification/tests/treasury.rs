use kirby_node::treasury::{
    current_balance, decode_u64, is_lock_contention, is_pollable, ChargeMethodTag, CreditOutcome,
    DebitOutcome, ReconcileOutcome, StorageFault, Treasury, TreasuryError, TreasuryStore,
};

#[test]
fn record_charge_atomic_indexes_and_ledgers_together() {
    let mut t = Treasury::open_temporary(1_000);

    let out = t
        .record_charge_atomic(
            "issue-key-1",
            "charge-abc",
            ChargeMethodTag::Lightning,
            b"charge-proof".to_vec(),
            b"req-hash".to_vec(),
        )
        .unwrap();
    assert!(
        matches!(out, DebitOutcome::Debited { cost_sats: 0, .. }),
        "a fresh charge issues at cost 0"
    );
    assert!(
        t.lookup("issue-key-1").is_some(),
        "the charge's ledger row must exist after record_charge_atomic"
    );
    assert_eq!(
        t.issued_uncredited_charge_ids(),
        vec!["charge-abc".to_string()],
        "the charge must be in the durable poll index"
    );
    assert_eq!(t.remaining().unwrap(), 1_000, "issuing a charge costs the genome nothing");
}

#[test]
fn record_charge_atomic_duplicate_key_does_not_index_a_loser_charge_id() {
    let mut t = Treasury::open_temporary(1_000);

    let first = t
        .record_charge_atomic(
            "issue-key-2",
            "charge-winner",
            ChargeMethodTag::Lightning,
            b"p".to_vec(),
            b"h".to_vec(),
        )
        .unwrap();
    assert!(matches!(first, DebitOutcome::Debited { .. }), "first issue debits (cost 0)");

    let replay = t
        .record_charge_atomic(
            "issue-key-2",
            "charge-LOSER",
            ChargeMethodTag::Lightning,
            b"p".to_vec(),
            b"h".to_vec(),
        )
        .unwrap();
    assert!(
        matches!(replay, DebitOutcome::Duplicate(_)),
        "a same-key re-issue returns Duplicate (no second ledger row)"
    );
    assert_eq!(
        t.issued_uncredited_charge_ids(),
        vec!["charge-winner".to_string()],
        "only the winner is indexed"
    );
    assert_eq!(t.remaining().unwrap(), 1_000, "no balance movement on issue or replay");
}

#[test]
fn economics_income_only_reflects_credits_not_debits() {
    let mut t = Treasury::open_temporary(1_000);

    let snap = t.economics_snapshot(1_000, 0).unwrap();
    assert_eq!(snap.income_sats, 0, "no credit -> no income");
    assert_eq!(snap.jobs_settled, 0);

    let _ = t.debit_and_record("think-1", 50, b"proof".to_vec(), vec![], vec![], vec![]).unwrap();
    let snap = t.economics_snapshot(1_000, 0).unwrap();
    assert_eq!(snap.spent_sats, 50, "the debit is counted as spend");
    assert_eq!(snap.income_sats, 0, "a debit must NOT be counted as income");
    assert_eq!(snap.jobs_settled, 0, "a debit is not a settled job");

    let _ = t.credit_verified("charge-1", 200).unwrap();
    let snap = t.economics_snapshot(1_000, 0).unwrap();
    assert_eq!(snap.income_sats, 200, "the mint-verified credit is income");
    assert_eq!(snap.jobs_settled, 1, "one stranger paid");
    assert_eq!(snap.spent_sats, 50, "spend is unchanged by a credit");
}

#[test]
fn economics_books_reconcile_against_the_identity() {
    let initial = 10_000u64;
    let rent = 300u64;
    let mut t = Treasury::open_temporary(initial);

    let _ = t.credit_verified("c1", 500).unwrap();
    let _ = t.credit_verified("c2", 300).unwrap();
    let _ = t.debit_and_record("a1", 120, b"p".to_vec(), vec![], vec![], vec![]).unwrap();
    let _ = t.debit_and_record("a2", 80, b"p".to_vec(), vec![], vec![], vec![]).unwrap();
    let _ = t.debit_metered(rent).unwrap();

    let snap = t.economics_snapshot(initial, rent).unwrap();
    assert_eq!(snap.remaining_sats, t.remaining().unwrap(), "remaining == the treasury truth");
    assert_eq!(snap.spent_sats, 200, "the ledger's debits; rent EXCLUDED");
    assert_eq!(snap.jobs_settled, 2, "two credits settled");
    assert_eq!(snap.income_sats, 800, "what was credited, derived read-only");
    assert_eq!(
        initial + snap.income_sats - snap.spent_sats - rent,
        snap.remaining_sats,
        "books reconcile against the daemon's authoritative balance"
    );
    assert_eq!(snap.remaining_sats, 10_000 + 800 - 200 - 300, "direct cross-check");
}

#[test]
fn lock_contention_matches_sled_lock_message() {
    let err = TreasuryError::Storage(StorageFault::Io(
        "could not acquire lock on /tmp/kirby-treasury: <WouldBlock>".to_string(),
    ));
    assert!(is_lock_contention(&err));
}

#[test]
fn lock_contention_ignores_other_storage_errors() {
    let err = TreasuryError::Storage(StorageFault::Io("disk is unavailable".to_string()));
    assert!(!is_lock_contention(&err));
    let other = TreasuryError::Storage(StorageFault::Other("could not acquire lock".to_string()));
    assert!(!is_lock_contention(&other));
    assert!(!is_lock_contention(&TreasuryError::Corrupt("could not acquire lock".to_string())));
}

#[test]
fn reconcile_raises_the_balance_to_a_higher_observed_truth() {
    let mut t = Treasury::open_temporary(700);
    let out = t.reconcile_to_observed(1000).unwrap();
    assert_eq!(out, ReconcileOutcome::Raised { from: 700, to: 1000 });
    assert_eq!(t.remaining().unwrap(), 1000);
}

#[test]
fn reconcile_lowers_the_balance_to_a_lower_observed_truth() {
    let mut t = Treasury::open_temporary(700);
    let out = t.reconcile_to_observed(500).unwrap();
    assert_eq!(out, ReconcileOutcome::Lowered { from: 700, to: 500 });
    assert_eq!(t.remaining().unwrap(), 500);
}

#[test]
fn reconcile_is_idempotent_and_survives_a_revisited_value() {
    let mut t = Treasury::open_temporary(1000);
    assert_eq!(t.reconcile_to_observed(1000).unwrap(), ReconcileOutcome::Unchanged { at: 1000 });
    t.reconcile_to_observed(700).unwrap();
    let out = t.reconcile_to_observed(1000).unwrap();
    assert_eq!(out, ReconcileOutcome::Raised { from: 700, to: 1000 });
    assert_eq!(t.remaining().unwrap(), 1000);
}

#[test]
fn a_resume_never_refills_the_treasury() {
    let mut t = Treasury::open(TreasuryStore::new(), 500);
    t.debit_metered(200).unwrap();
    assert_eq!(t.rent_sats(), 200);
    let t = Treasury::open(t.into_store(), 9_999);
    assert_eq!(t.remaining().unwrap(), 300);
    assert_eq!(t.rent_sats(), 0);
    assert_eq!(t.runway_secs_hint(), None);
}

#[test]
fn a_debit_never_overspends() {
    let mut t = Treasury::open_temporary(100);
    let out = t.debit_and_record("k", 101, vec![], vec![], vec![], vec![]).unwrap();
    assert!(matches!(out, DebitOutcome::Insufficient { remaining: 100 }));
    assert!(t.lookup("k").is_none());
    let out = t.debit_metered(101).unwrap();
    assert!(matches!(out, DebitOutcome::Insufficient { remaining: 100 }));
    assert_eq!(t.rent_sats(), 0);
    let out = t.debit_and_record("k", 100, vec![], vec![], vec![], vec![]).unwrap();
    assert!(matches!(out, DebitOutcome::Debited { cost_sats: 100, remaining: 0 }));
    assert_eq!(t.remaining().unwrap(), 0);
}

#[test]
fn a_replayed_act_returns_the_stored_receipt() {
    let mut t = Treasury::open_temporary(100);
    t.debit_and_record("k", 30, vec![1], vec![2], vec![3], vec![4]).unwrap();
    match t.debit_and_record("k", 60, vec![9], vec![9], vec![9], vec![9]).unwrap() {
        DebitOutcome::Duplicate(rec) => {
            assert_eq!(rec.cost_sats, 30);
            assert_eq!(rec.treasury_remaining_after, 70);
            assert_eq!(rec.proof, vec![1]);
            assert_eq!(rec.completion, vec![2]);
            assert_eq!(rec.memory, vec![3]);
            assert_eq!(rec.request_hash, vec![4]);
        }
        other => panic!("expected a duplicate, got {other:?}"),
    }
    assert_eq!(t.remaining().unwrap(), 70);
    assert_eq!(t.spent_sats(), 30);
}

#[test]
fn a_settlement_is_credited_once() {
    let mut t = Treasury::open_temporary(10);
    let out = t.credit_verified("c", 5).unwrap();
    assert!(matches!(out, CreditOutcome::Credited { amount_sats: 5, remaining: 15 }));
    match t.credit_verified("c", 5).unwrap() {
        CreditOutcome::Duplicate(rec) => {
            assert_eq!(rec.proof, b"credit-verified".to_vec());
            assert_eq!(rec.treasury_remaining_after, 15);
        }
        other => panic!("expected a duplicate, got {other:?}"),
    }
    assert_eq!(t.remaining().unwrap(), 15);
    assert!(matches!(
        t.classify_prior(t.credit_lookup("c").unwrap()),
        CreditOutcome::Duplicate(_)
    ));
}

#[test]
fn an_overflow_is_terminal() {
    let mut t = Treasury::open_temporary(10);
    let out = t.credit_verified("c", u64::MAX).unwrap();
    assert!(matches!(out, CreditOutcome::Overflow { remaining: 10 }));
    let out = t.credit_verified("c", 1).unwrap();
    assert!(matches!(out, CreditOutcome::Terminal(_)));
    assert_eq!(t.remaining().unwrap(), 10);
    let row = t.credit_lookup("c").unwrap();
    assert_eq!(row.proof, b"credit-terminal-overflow".to_vec());
    assert!(matches!(t.classify_prior(row), CreditOutcome::Terminal(_)));
    assert_eq!(t.economics_snapshot(10, 0).unwrap().jobs_settled, 0);
}

#[test]
fn acts_and_credits_do_not_share_keys() {
    let mut t = Treasury::open_temporary(100);
    t.debit_and_record("same", 1, vec![], vec![], vec![], vec![]).unwrap();
    let out = t.credit_verified("same", 5).unwrap();
    assert!(matches!(out, CreditOutcome::Credited { .. }));
    assert!(t.issued_uncredited_charge_ids().is_empty());
}

#[test]
fn only_open_lightning_charges_are_polled() {
    let mut t = Treasury::open_temporary(100);
    t.record_issued_charge("b-light", ChargeMethodTag::Lightning);
    t.record_issued_charge("a-light", ChargeMethodTag::Lightning);
    t.record_issued_charge("a-cashu", ChargeMethodTag::Cashu);
    assert_eq!(
        t.issued_uncredited_charge_ids(),
        vec!["a-light".to_string(), "b-light".to_string()]
    );
    t.credit_verified("a-light", 1).unwrap();
    assert_eq!(t.issued_uncredited_charge_ids(), vec!["b-light".to_string()]);
    t.credit_verified("b-light", u64::MAX).unwrap();
    assert!(t.issued_uncredited_charge_ids().is_empty());
}

#[test]
fn charge_tags_round_trip_and_unknown_bytes_are_skipped() {
    assert_eq!(ChargeMethodTag::Lightning.as_byte(), 1);
    assert_eq!(ChargeMethodTag::Cashu.as_byte(), 2);
    assert_eq!(ChargeMethodTag::from_byte(1), Some(ChargeMethodTag::Lightning));
    assert_eq!(ChargeMethodTag::from_byte(2), Some(ChargeMethodTag::Cashu));
    assert_eq!(ChargeMethodTag::from_byte(0), None);
    assert!(is_pollable(1, false));
    assert!(!is_pollable(1, true));
    assert!(!is_pollable(2, false));
    assert!(!is_pollable(7, false));
}

#[test]
fn the_largest_sequence_number_is_found() {
    let mut t = Treasury::open_temporary(100);
    assert_eq!(t.max_idempotency_seq("mem-write-"), None);
    for key in ["mem-write-7", "mem-write-12", "mem-write-x", "mem-write-", "think-99"] {
        t.debit_and_record(key, 0, vec![], vec![], vec![], vec![]).unwrap();
    }
    assert_eq!(t.max_idempotency_seq("mem-write-"), Some(12));
    assert_eq!(t.max_idempotency_seq("think-"), Some(99));
}

#[test]
fn a_corrupt_balance_is_an_error_everywhere() {
    assert_eq!(decode_u64(&[0, 0, 0, 0, 0, 0, 1, 2]).unwrap(), 258);
    let store = TreasuryStore { balance: Some(vec![1, 2, 3]), ..TreasuryStore::new() };
    let mut t = Treasury::open(store, 5);
    let expected = "treasury value is corrupt: expected 8 bytes, got 3";
    assert_eq!(t.remaining().unwrap_err().message(), expected);
    assert_eq!(t.debit_metered(1).unwrap_err().message(), expected);
    assert_eq!(t.credit_verified("c", 1).unwrap_err().message(), expected);
    assert_eq!(t.reconcile_to_observed(1).unwrap_err().message(), expected);
    assert_eq!(t.economics_snapshot(0, 0).unwrap_err().message(), expected);
    let out = t.debit_and_record("k", 1, vec![], vec![], vec![], vec![]);
    assert_eq!(out.unwrap_err().message(), expected);
    assert_eq!(
        current_balance(&None).unwrap_err().message(),
        "treasury value is corrupt: balance key missing"
    );
    let storage = TreasuryError::Storage(StorageFault::Other("gone".to_string()));
    assert_eq!(storage.message(), "treasury storage error: gone");
}

#[test]
fn the_runway_hint_is_published_and_cleared() {
    let mut t = Treasury::open_temporary(1);
    assert_eq!(t.runway_secs_hint(), None);
    t.publish_runway_hint(Some(42));
    assert_eq!(t.runway_secs_hint(), Some(42));
    t.publish_runway_hint(None);
    assert_eq!(t.runway_secs_hint(), None);
}

#[test]
fn income_never_goes_below_zero() {
    let mut t = Treasury::open_temporary(1_000);
    t.reconcile_to_observed(10).unwrap();
    assert_eq!(t.economics_snapshot(1_000, 0).unwrap().income_sats, 0);
}
