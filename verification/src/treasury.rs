//! The daemon-owned treasury: one authoritative balance, the ledger of performed acts, the
//! separate ledger of credits, and the index of issued charges.
//!
//! Every operation is one transaction. What a transaction decides is a function of what it reads
//! (the `*_step` functions), so a persistent store runs the same decisions inside its own
//! transactions that [`Treasury`] runs over its in-memory trees.
//!
//! The balance never goes below zero and never wraps, an act is debited at most once per
//! idempotency key, a settlement is credited at most once per credit id, and a charge is indexed
//! for polling exactly when its ledger row is written.
use vstd::prelude::*;
use vstd::string::StringExecFns;

use crate::bytes;
use crate::keyed;
use crate::keyed::KeyedRows;
use crate::text;

verus! {

/// A store's own failure.
#[derive(Debug)]
pub enum StorageFault {
    /// An I/O failure with this message.
    Io(String),
    /// Any other failure with this message.
    Other(String),
}

/// Errors the treasury surfaces to the daemon: host-side faults, never an outcome that a genome
/// drives.
#[derive(Debug)]
pub enum TreasuryError {
    Storage(StorageFault),
    Corrupt(String),
}

impl TreasuryError {
    /// The error in words.
    pub fn message(&self) -> (r: String)
        ensures
            r@ == match *self {
                TreasuryError::Storage(StorageFault::Io(m)) => "treasury storage error: "@ + m@,
                TreasuryError::Storage(StorageFault::Other(m)) => "treasury storage error: "@ + m@,
                TreasuryError::Corrupt(m) => "treasury value is corrupt: "@ + m@,
            },
    {
        let mut s = String::new();
        match self {
            TreasuryError::Storage(StorageFault::Io(m)) => {
                s.append("treasury storage error: ");
                s.append(m.as_str());
            },
            TreasuryError::Storage(StorageFault::Other(m)) => {
                s.append("treasury storage error: ");
                s.append(m.as_str());
            },
            TreasuryError::Corrupt(m) => {
                s.append("treasury value is corrupt: ");
                s.append(m.as_str());
            },
        }
        assert(forall|a: Seq<char>| #[trigger] (Seq::<char>::empty() + a) =~= a);
        s
    }
}

/// Whether an error is a transient lock contention (a reopen racing the prior holder's lock)
/// rather than a real fault. The store folds the contention into an I/O error's message, so the
/// message is what tells it apart.
pub fn is_lock_contention(err: &TreasuryError) -> (r: bool)
    ensures
        r == (*err matches TreasuryError::Storage(StorageFault::Io(m)) && text::contains_text(
            m@,
            "could not acquire lock"@,
        )),
{
    match err {
        TreasuryError::Storage(StorageFault::Io(m)) => text::str_contains(
            m.as_str(),
            "could not acquire lock",
        ),
        _ => false,
    }
}

// ---------------------------------------------------------------------------------------------
// Rows
// ---------------------------------------------------------------------------------------------
/// What a stored receipt holds.
pub struct Record {
    pub cost_sats: u64,
    pub treasury_remaining_after: u64,
    pub proof: Seq<u8>,
    pub completion: Seq<u8>,
    pub memory: Seq<u8>,
    pub request_hash: Seq<u8>,
}

/// A stored receipt of one performed act, keyed by its idempotency key. Storing the whole receipt
/// lets a replay after a resume return the exact prior one.
#[derive(Debug)]
pub struct PerformedRecord {
    pub cost_sats: u64,
    pub treasury_remaining_after: u64,
    pub proof: Vec<u8>,
    /// The assistant reply of a completion act (empty for every other act).
    pub completion: Vec<u8>,
    /// The encoded result of a memory write (empty for every other act).
    pub memory: Vec<u8>,
    /// The hash of the effective request (empty for acts that compute none).
    pub request_hash: Vec<u8>,
}

impl View for PerformedRecord {
    type V = Record;

    open spec fn view(&self) -> Record {
        Record {
            cost_sats: self.cost_sats,
            treasury_remaining_after: self.treasury_remaining_after,
            proof: self.proof@,
            completion: self.completion@,
            memory: self.memory@,
            request_hash: self.request_hash@,
        }
    }
}

impl Clone for PerformedRecord {
    fn clone(&self) -> (r: Self)
        ensures
            r@ == self@,
    {
        PerformedRecord {
            cost_sats: self.cost_sats,
            treasury_remaining_after: self.treasury_remaining_after,
            proof: bytes::copy_bytes(self.proof.as_slice()),
            completion: bytes::copy_bytes(self.completion.as_slice()),
            memory: bytes::copy_bytes(self.memory.as_slice()),
            request_hash: bytes::copy_bytes(self.request_hash.as_slice()),
        }
    }
}

/// The proof on a row that credited the balance.
pub open spec fn credit_proof() -> Seq<u8> {
    vstd::utf8::encode_utf8("credit-verified"@)
}

/// The proof on the terminal row of a credit that overflowed: it credited nothing, and its charge
/// is settled for good.
pub open spec fn terminal_overflow_proof() -> Seq<u8> {
    vstd::utf8::encode_utf8("credit-terminal-overflow"@)
}

/// The two proofs differ, so a terminal row is never taken for a credit.
pub proof fn credit_proofs_differ()
    ensures
        credit_proof() != terminal_overflow_proof(),
{
    reveal_strlit("credit-verified");
    reveal_strlit("credit-terminal-overflow");
    vstd::utf8::is_ascii_chars_encode_utf8("credit-verified"@);
    vstd::utf8::is_ascii_chars_encode_utf8("credit-terminal-overflow"@);
    assert(credit_proof().len() != terminal_overflow_proof().len());
}

/// A credit-ledger row: it costs nothing and carries a proof marker.
pub open spec fn credit_row(remaining: u64, proof: Seq<u8>) -> Record {
    Record {
        cost_sats: 0,
        treasury_remaining_after: remaining,
        proof,
        completion: Seq::empty(),
        memory: Seq::empty(),
        request_hash: Seq::empty(),
    }
}

fn marked_row(remaining: u64, marker: &str) -> (r: PerformedRecord)
    ensures
        r@ == credit_row(remaining, vstd::utf8::encode_utf8(marker@)),
{
    let r = PerformedRecord {
        cost_sats: 0,
        treasury_remaining_after: remaining,
        proof: bytes::copy_bytes(marker.as_bytes()),
        completion: Vec::new(),
        memory: Vec::new(),
        request_hash: Vec::new(),
    };
    assert(r@.completion =~= Seq::<u8>::empty());
    assert(r@.memory =~= Seq::<u8>::empty());
    assert(r@.request_hash =~= Seq::<u8>::empty());
    r
}

/// The settlement rail a charge was issued on.
#[derive(Debug, Clone, Copy, PartialEq, Eq, Structural)]
pub enum ChargeMethodTag {
    /// A Lightning charge, settled by polling its quote.
    Lightning,
    /// A Cashu charge, settled by token evidence and never polled.
    Cashu,
}

impl ChargeMethodTag {
    /// The byte stored for a rail. Never zero.
    pub open spec fn byte(self) -> u8 {
        match self {
            ChargeMethodTag::Lightning => 1,
            ChargeMethodTag::Cashu => 2,
        }
    }

    /// The byte stored for this rail.
    pub fn as_byte(self) -> (r: u8)
        ensures
            r == self.byte(),
    {
        match self {
            ChargeMethodTag::Lightning => 1,
            ChargeMethodTag::Cashu => 2,
        }
    }

    /// The rail a stored byte stands for; none for an unknown byte.
    pub fn from_byte(b: u8) -> (r: Option<Self>)
        ensures
            r matches Some(tag) ==> tag.byte() == b,
            r is None ==> b != 1 && b != 2,
    {
        match b {
            1 => Some(ChargeMethodTag::Lightning),
            2 => Some(ChargeMethodTag::Cashu),
            _ => None,
        }
    }
}

/// Whether the poller polls a charge: it is on the Lightning rail and nothing has resolved it.
/// A tag that stands for no rail is never polled.
pub fn is_pollable(tag: u8, resolved: bool) -> (r: bool)
    ensures
        r == (tag == ChargeMethodTag::Lightning.byte() && !resolved),
{
    match ChargeMethodTag::from_byte(tag) {
        Some(ChargeMethodTag::Lightning) => !resolved,
        _ => false,
    }
}

// ---------------------------------------------------------------------------------------------
// Outcomes
// ---------------------------------------------------------------------------------------------
/// The result of a debit attempt.
#[derive(Debug)]
pub enum DebitOutcome {
    /// Debited; the balance is now `remaining`.
    Debited { cost_sats: u64, remaining: u64 },
    /// The key was already performed; no debit happened.
    Duplicate(PerformedRecord),
    /// The debit would have driven the balance below zero; refused.
    Insufficient { remaining: u64 },
}

/// The result of a credit attempt.
#[derive(Debug)]
pub enum CreditOutcome {
    /// Credited; the balance is now `remaining`.
    Credited { amount_sats: u64, remaining: u64 },
    /// This credit id was already credited; no credit happened.
    Duplicate(PerformedRecord),
    /// The credit would have wrapped; refused, and the credit id is terminal from now on.
    Overflow { remaining: u64 },
    /// An earlier attempt overflowed: nothing was credited and nothing ever will be.
    Terminal(PerformedRecord),
}

/// The result of a sync to an observed balance.
#[derive(Debug, Clone, Copy, PartialEq, Eq, Structural)]
pub enum ReconcileOutcome {
    Raised { from: u64, to: u64 },
    Lowered { from: u64, to: u64 },
    Unchanged { at: u64 },
}

/// A read-only view of the books.
#[derive(Debug, Clone, Copy, PartialEq, Eq, Structural)]
pub struct EconomicsSnapshot {
    pub remaining_sats: u64,
    /// Income, derived from the balance identity.
    pub income_sats: u64,
    /// The acts' total cost; metered rent is not in it.
    pub spent_sats: u64,
    /// How many settlements credited the balance.
    pub jobs_settled: u64,
}

// ---------------------------------------------------------------------------------------------
// The stored balance
// ---------------------------------------------------------------------------------------------
/// The balance that a stored value writes, if it is one.
pub open spec fn stored_sats(raw: Option<Seq<u8>>) -> Option<u64> {
    match raw {
        Some(b) => if b.len() == 8 {
            Some(bytes::be64(b) as u64)
        } else {
            None
        },
        None => None,
    }
}

/// What is wrong with a stored value that writes no balance.
pub open spec fn balance_fault(raw: Option<Seq<u8>>) -> Seq<char> {
    match raw {
        Some(b) => "expected 8 bytes, got "@ + text::decimal(b.len()),
        None => "balance key missing"@,
    }
}

/// A stored balance is read back as it was written.
pub proof fn stored_balance_round_trip(n: u64)
    ensures
        stored_sats(Some(bytes::be64_bytes(n))) == Some(n),
{
    bytes::be64_round_trip(n);
}

/// Decode a stored balance.
pub fn decode_u64(raw: &[u8]) -> (r: Result<u64, TreasuryError>)
    ensures
        match r {
            Ok(n) => stored_sats(Some(raw@)) == Some(n),
            Err(TreasuryError::Corrupt(m)) => {
                stored_sats(Some(raw@)) is None && m@ == balance_fault(Some(raw@))
            },
            Err(_) => false,
        },
{
    if raw.len() != 8 {
        let mut m = "expected 8 bytes, got ".to_owned();
        text::append_decimal(&mut m, raw.len() as u64);
        return Err(TreasuryError::Corrupt(m));
    }
    Ok(bytes::from_be64(raw))
}

/// Whether an error says that `raw` writes no balance.
pub open spec fn is_balance_error(e: TreasuryError, raw: Option<Seq<u8>>) -> bool {
    &&& stored_sats(raw) is None
    &&& e matches TreasuryError::Corrupt(m) && m@ == balance_fault(raw)
}

/// The view of an optional stored value.
pub open spec fn raw_view(raw: Option<Vec<u8>>) -> Option<Seq<u8>> {
    match raw {
        Some(b) => Some(b@),
        None => None,
    }
}

/// The current balance of a transaction, from the stored value it read.
pub fn current_balance(raw: &Option<Vec<u8>>) -> (r: Result<u64, TreasuryError>)
    ensures
        match r {
            Ok(n) => stored_sats(raw_view(*raw)) == Some(n),
            Err(e) => is_balance_error(e, raw_view(*raw)),
        },
{
    match raw {
        Some(b) => decode_u64(b.as_slice()),
        None => Err(TreasuryError::Corrupt("balance key missing".to_owned())),
    }
}

// ---------------------------------------------------------------------------------------------
// What one transaction decides
// ---------------------------------------------------------------------------------------------
/// What a metered debit does.
#[derive(Debug)]
pub struct MeteredStep {
    pub outcome: DebitOutcome,
    /// The new balance, if it changes.
    pub balance: Option<u64>,
}

/// Decide a metered debit of `amount_sats`: refused when it would go below zero.
pub fn metered_step(raw: &Option<Vec<u8>>, amount_sats: u64) -> (r: Result<
    MeteredStep,
    TreasuryError,
>)
    ensures
        match r {
            Ok(s) => {
                &&& stored_sats(raw_view(*raw)) matches Some(current)
                &&& if amount_sats <= current {
                    &&& s.balance == Some((current - amount_sats) as u64)
                    &&& s.outcome == (DebitOutcome::Debited {
                        cost_sats: amount_sats,
                        remaining: (current - amount_sats) as u64,
                    })
                } else {
                    s.balance is None && s.outcome == (DebitOutcome::Insufficient {
                        remaining: current,
                    })
                }
            },
            Err(e) => is_balance_error(e, raw_view(*raw)),
        },
{
    let current: u64 = match current_balance(raw) {
        Ok(n) => n,
        Err(e) => return Err(e),
    };
    match current.checked_sub(amount_sats) {
        None => Ok(
            MeteredStep {
                outcome: DebitOutcome::Insufficient { remaining: current },
                balance: None,
            },
        ),
        Some(next) => Ok(
            MeteredStep {
                outcome: DebitOutcome::Debited { cost_sats: amount_sats, remaining: next },
                balance: Some(next),
            },
        ),
    }
}

/// What an act leaves in the ledger, apart from the balance after it.
#[derive(Debug)]
pub struct Act {
    pub cost_sats: u64,
    pub proof: Vec<u8>,
    pub completion: Vec<u8>,
    pub memory: Vec<u8>,
    pub request_hash: Vec<u8>,
}

/// The ledger row of an act that left `remaining`.
pub open spec fn act_row(act: Act, remaining: u64) -> Record {
    Record {
        cost_sats: act.cost_sats,
        treasury_remaining_after: remaining,
        proof: act.proof@,
        completion: act.completion@,
        memory: act.memory@,
        request_hash: act.request_hash@,
    }
}

/// What a debit does.
#[derive(Debug)]
pub struct DebitStep {
    pub outcome: DebitOutcome,
    /// The new balance and the ledger row, written together or not at all.
    pub write: Option<(u64, PerformedRecord)>,
}

/// Decide a debit: an already performed key returns its stored record and writes nothing, a cost
/// over the balance is refused, otherwise the balance and the ledger row are written together.
pub fn debit_step(existing: Option<&PerformedRecord>, raw: &Option<Vec<u8>>, act: Act) -> (r:
    Result<DebitStep, TreasuryError>)
    ensures
        match r {
            Ok(s) => match existing {
                Some(rec) => {
                    &&& s.write is None
                    &&& s.outcome matches DebitOutcome::Duplicate(d) && d@ == rec@
                },
                None => {
                    &&& stored_sats(raw_view(*raw)) matches Some(current)
                    &&& if act.cost_sats <= current {
                        let next = (current - act.cost_sats) as u64;
                        &&& s.write matches Some((balance, row)) && balance == next && row@
                            == act_row(act, next)
                        &&& s.outcome == (DebitOutcome::Debited {
                            cost_sats: act.cost_sats,
                            remaining: next,
                        })
                    } else {
                        s.write is None && s.outcome == (DebitOutcome::Insufficient {
                            remaining: current,
                        })
                    }
                },
            },
            Err(e) => existing is None && is_balance_error(e, raw_view(*raw)),
        },
{
    match existing {
        Some(rec) => Ok(DebitStep { outcome: DebitOutcome::Duplicate(rec.clone()), write: None }),
        None => {
            let current: u64 = match current_balance(raw) {
                Ok(n) => n,
                Err(e) => return Err(e),
            };
            match current.checked_sub(act.cost_sats) {
                None => Ok(
                    DebitStep {
                        outcome: DebitOutcome::Insufficient { remaining: current },
                        write: None,
                    },
                ),
                Some(next) => {
                    let cost_sats: u64 = act.cost_sats;
                    let row = PerformedRecord {
                        cost_sats,
                        treasury_remaining_after: next,
                        proof: act.proof,
                        completion: act.completion,
                        memory: act.memory,
                        request_hash: act.request_hash,
                    };
                    Ok(
                        DebitStep {
                            outcome: DebitOutcome::Debited { cost_sats, remaining: next },
                            write: Some((next, row)),
                        },
                    )
                },
            }
        },
    }
}

/// What a credit does.
#[derive(Debug)]
pub struct CreditStep {
    pub outcome: CreditOutcome,
    /// The new balance, if it changes.
    pub balance: Option<u64>,
    /// The credit-ledger row, if one is written.
    pub row: Option<PerformedRecord>,
}

/// Whether a credit row is the terminal marker of an overflow.
fn is_terminal(rec: &PerformedRecord) -> (r: bool)
    ensures
        r == (rec.proof@ == terminal_overflow_proof()),
{
    bytes::bytes_eq(rec.proof.as_slice(), "credit-terminal-overflow".as_bytes())
}

/// Decide a credit: a resolved credit id credits nothing, an amount that would wrap the balance
/// credits nothing and makes the id terminal, otherwise the balance rises and the row is written.
pub fn credit_step(
    existing: Option<&PerformedRecord>,
    raw: &Option<Vec<u8>>,
    amount_sats: u64,
) -> (r: Result<CreditStep, TreasuryError>)
    ensures
        match r {
            Ok(s) => match existing {
                Some(rec) => {
                    &&& s.balance is None
                    &&& s.row is None
                    &&& if rec.proof@ == terminal_overflow_proof() {
                        s.outcome matches CreditOutcome::Terminal(d) && d@ == rec@
                    } else {
                        s.outcome matches CreditOutcome::Duplicate(d) && d@ == rec@
                    }
                },
                None => {
                    &&& stored_sats(raw_view(*raw)) matches Some(current)
                    &&& if current + amount_sats > u64::MAX {
                        &&& s.balance is None
                        &&& s.row matches Some(row) && row@ == credit_row(
                            current,
                            terminal_overflow_proof(),
                        )
                        &&& s.outcome == (CreditOutcome::Overflow { remaining: current })
                    } else {
                        let next = (current + amount_sats) as u64;
                        &&& s.balance == Some(next)
                        &&& s.row matches Some(row) && row@ == credit_row(next, credit_proof())
                        &&& s.outcome == (CreditOutcome::Credited { amount_sats, remaining: next })
                    }
                },
            },
            Err(e) => existing is None && is_balance_error(e, raw_view(*raw)),
        },
{
    match existing {
        Some(rec) => {
            let outcome = if is_terminal(rec) {
                CreditOutcome::Terminal(rec.clone())
            } else {
                CreditOutcome::Duplicate(rec.clone())
            };
            Ok(CreditStep { outcome, balance: None, row: None })
        },
        None => {
            let current: u64 = match current_balance(raw) {
                Ok(n) => n,
                Err(e) => return Err(e),
            };
            match current.checked_add(amount_sats) {
                None => Ok(
                    CreditStep {
                        outcome: CreditOutcome::Overflow { remaining: current },
                        balance: None,
                        row: Some(marked_row(current, "credit-terminal-overflow")),
                    },
                ),
                Some(next) => Ok(
                    CreditStep {
                        outcome: CreditOutcome::Credited { amount_sats, remaining: next },
                        balance: Some(next),
                        row: Some(marked_row(next, "credit-verified")),
                    },
                ),
            }
        },
    }
}

/// Decide a sync to an observed balance.
pub fn reconcile_step(raw: &Option<Vec<u8>>, observed_sats: u64) -> (r: Result<
    ReconcileOutcome,
    TreasuryError,
>)
    ensures
        match r {
            Ok(o) => {
                &&& stored_sats(raw_view(*raw)) matches Some(current)
                &&& o == if observed_sats == current {
                    ReconcileOutcome::Unchanged { at: current }
                } else if observed_sats > current {
                    ReconcileOutcome::Raised { from: current, to: observed_sats }
                } else {
                    ReconcileOutcome::Lowered { from: current, to: observed_sats }
                }
            },
            Err(e) => is_balance_error(e, raw_view(*raw)),
        },
{
    let current: u64 = match current_balance(raw) {
        Ok(n) => n,
        Err(e) => return Err(e),
    };
    if observed_sats == current {
        return Ok(ReconcileOutcome::Unchanged { at: current });
    }
    if observed_sats > current {
        Ok(ReconcileOutcome::Raised { from: current, to: observed_sats })
    } else {
        Ok(ReconcileOutcome::Lowered { from: current, to: observed_sats })
    }
}

// ---------------------------------------------------------------------------------------------
// The books
// ---------------------------------------------------------------------------------------------
/// What a treasury persists: the raw balance value and the three trees.
#[derive(Debug)]
pub struct TreasuryStore {
    pub balance: Option<Vec<u8>>,
    pub ledger: KeyedRows<PerformedRecord>,
    pub credit_ledger: KeyedRows<PerformedRecord>,
    pub issued_charges: KeyedRows<u8>,
}

/// What a store holds.
pub struct Books {
    pub balance: Option<Seq<u8>>,
    pub ledger: Map<Seq<char>, Record>,
    pub credits: Map<Seq<char>, Record>,
    pub charges: Map<Seq<char>, u8>,
}

/// The records of a table.
pub open spec fn records(rows: Map<Seq<char>, PerformedRecord>) -> Map<Seq<char>, Record> {
    rows.map_values(|r: PerformedRecord| r@)
}

impl View for TreasuryStore {
    type V = Books;

    open spec fn view(&self) -> Books {
        Books {
            balance: raw_view(self.balance),
            ledger: records(self.ledger@),
            credits: records(self.credit_ledger@),
            charges: self.issued_charges@,
        }
    }
}

impl TreasuryStore {
    /// A store with nothing in it.
    pub fn new() -> (r: Self)
        ensures
            r@ == (Books {
                balance: None,
                ledger: Map::empty(),
                credits: Map::empty(),
                charges: Map::empty(),
            }),
    {
        let r = TreasuryStore {
            balance: None,
            ledger: KeyedRows::new(),
            credit_ledger: KeyedRows::new(),
            issued_charges: KeyedRows::new(),
        };
        assert(r@.ledger =~= Map::<Seq<char>, Record>::empty());
        assert(r@.credits =~= Map::<Seq<char>, Record>::empty());
        r
    }
}

impl Books {
    /// The balance, if the stored value writes one.
    pub open spec fn sats(self) -> Option<u64> {
        stored_sats(self.balance)
    }

    /// These books with another balance.
    pub open spec fn with_balance(self, sats: u64) -> Books {
        Books { balance: Some(bytes::be64_bytes(sats)), ..self }
    }

    /// The books after seeding: an existing balance stays, whatever the seed.
    pub open spec fn seeded(self, initial_sats: u64) -> Books {
        if self.balance is Some {
            self
        } else {
            self.with_balance(initial_sats)
        }
    }

    /// The books after a metered debit.
    pub open spec fn metered(self, amount_sats: u64) -> Books {
        match self.sats() {
            Some(current) => if amount_sats <= current {
                self.with_balance((current - amount_sats) as u64)
            } else {
                self
            },
            None => self,
        }
    }

    /// Whether a debit under `key` goes through: the key is new and the balance covers the cost.
    pub open spec fn affords(self, key: Seq<char>, cost_sats: u64) -> bool {
        !self.ledger.contains_key(key) && (self.sats() matches Some(current) && cost_sats <= current)
    }

    /// The books after an attempted debit of `act` under `key`.
    pub open spec fn debited(self, key: Seq<char>, act: Act) -> Books {
        if self.affords(key, act.cost_sats) {
            let next = (self.sats()->0 - act.cost_sats) as u64;
            Books {
                ledger: self.ledger.insert(key, act_row(act, next)),
                ..self.with_balance(next)
            }
        } else {
            self
        }
    }

    /// The books after an attempt to record an issued charge: the ledger row under `key` and the
    /// index entry of `charge_id` are written together or not at all.
    pub open spec fn charged(
        self,
        key: Seq<char>,
        charge_id: Seq<char>,
        method: ChargeMethodTag,
        act: Act,
    ) -> Books {
        if self.affords(key, act.cost_sats) {
            let after = self.debited(key, act);
            Books { charges: after.charges.insert(charge_id, method.byte()), ..after }
        } else {
            self
        }
    }

    /// The books after an attempted credit.
    pub open spec fn credited(self, credit_id: Seq<char>, amount_sats: u64) -> Books {
        if self.credits.contains_key(credit_id) {
            self
        } else {
            match self.sats() {
                None => self,
                Some(current) => if current + amount_sats > u64::MAX {
                    Books {
                        credits: self.credits.insert(
                            credit_id,
                            credit_row(current, terminal_overflow_proof()),
                        ),
                        ..self
                    }
                } else {
                    let next = (current + amount_sats) as u64;
                    Books {
                        credits: self.credits.insert(credit_id, credit_row(next, credit_proof())),
                        ..self.with_balance(next)
                    }
                },
            }
        }
    }

    /// The books after a sync to an observed balance.
    pub open spec fn reconciled(self, observed_sats: u64) -> Books {
        match self.sats() {
            None => self,
            Some(current) => if current == observed_sats {
                self
            } else {
                self.with_balance(observed_sats)
            },
        }
    }

    /// The acts' total cost.
    pub open spec fn spent(self) -> nat {
        keyed::sum_values(self.ledger.map_values(|r: Record| r.cost_sats as nat))
    }

    /// How many credit rows credited the balance.
    pub open spec fn settled(self) -> nat {
        keyed::sum_values(self.credits.map_values(|r: Record| settled_weight(r)))
    }

    /// Whether the poller polls `charge_id`.
    pub open spec fn polls(self, charge_id: Seq<char>) -> bool {
        &&& self.charges.contains_key(charge_id)
        &&& self.charges[charge_id] == ChargeMethodTag::Lightning.byte()
        &&& !self.credits.contains_key(charge_id)
    }

    /// Whether `n` is the sequence number of some ledger key with `prefix`.
    pub open spec fn has_seq(self, prefix: Seq<char>, n: u64) -> bool {
        exists|suffix: Seq<char>|
            self.ledger.contains_key(#[trigger] (prefix + suffix)) && text::parsed_u64(suffix)
                == Some(n)
    }

    /// Whether `largest` is the largest sequence number of the ledger keys with `prefix`, or none if
    /// there is none.
    pub open spec fn is_largest_seq(self, prefix: Seq<char>, largest: Option<u64>) -> bool {
        match largest {
            Some(m) => self.has_seq(prefix, m) && (forall|n: u64| #[trigger]
                self.has_seq(prefix, n) ==> n <= m),
            None => forall|n: u64| !(#[trigger] self.has_seq(prefix, n)),
        }
    }
}

/// 1 for a row that credited the balance, 0 for a terminal marker.
pub open spec fn settled_weight(r: Record) -> nat {
    if r.proof == credit_proof() {
        1
    } else {
        0
    }
}

/// A sum capped at the largest u64.
pub open spec fn capped(n: nat) -> u64 {
    if n > u64::MAX {
        u64::MAX
    } else {
        n as u64
    }
}

/// The income that the balance identity gives.
pub open spec fn derived_income(remaining: u64, spent: u64, rent: u64, initial: u64) -> u64 {
    let held = capped((capped((remaining + spent) as nat) + rent) as nat);
    if held >= initial {
        (held - initial) as u64
    } else {
        0
    }
}

/// The runway hint's value for "unknown".
pub const RUNWAY_HINT_UNKNOWN: u64 = u64::MAX;

/// The daemon-owned treasury.
#[derive(Debug)]
pub struct Treasury {
    store: TreasuryStore,
    rent_sats: u64,
    runway_hint: u64,
}

impl View for Treasury {
    type V = Books;

    closed spec fn view(&self) -> Books {
        self.store@
    }
}

impl Treasury {
    /// The metered rent burned this run.
    pub closed spec fn rent(&self) -> u64 {
        self.rent_sats
    }

    /// The published runway, if one is known.
    pub closed spec fn runway(&self) -> Option<u64> {
        if self.runway_hint == RUNWAY_HINT_UNKNOWN {
            None
        } else {
            Some(self.runway_hint)
        }
    }

    /// Open a treasury over what was persisted, seeding the balance only if there is none: a
    /// resume never refills the treasury. Rent and runway start anew with each run.
    pub fn open(store: TreasuryStore, initial_sats: u64) -> (r: Self)
        ensures
            r@ == store@.seeded(initial_sats),
            r.rent() == 0,
            r.runway() is None,
    {
        let mut store = store;
        if store.balance.is_none() {
            store.balance = Some(bytes::to_be64(initial_sats));
        }
        Treasury { store, rent_sats: 0, runway_hint: RUNWAY_HINT_UNKNOWN }
    }

    /// Open a fresh treasury that nothing persists.
    pub fn open_temporary(initial_sats: u64) -> (r: Self)
        ensures
            r@ == (Books {
                balance: Some(bytes::be64_bytes(initial_sats)),
                ledger: Map::empty(),
                credits: Map::empty(),
                charges: Map::empty(),
            }),
            r@.sats() == Some(initial_sats),
            r.rent() == 0,
            r.runway() is None,
    {
        proof {
            stored_balance_round_trip(initial_sats);
        }
        Treasury::open(TreasuryStore::new(), initial_sats)
    }

    /// Close the treasury, handing back what persists.
    pub fn into_store(self) -> (r: TreasuryStore)
        ensures
            r@ == self@,
    {
        self.store
    }

    /// The authoritative balance.
    pub fn remaining(&self) -> (r: Result<u64, TreasuryError>)
        ensures
            match r {
                Ok(n) => self@.sats() == Some(n),
                Err(e) => is_balance_error(e, self@.balance),
            },
    {
        current_balance(&self.store.balance)
    }

    /// The stored record of an already performed key.
    pub fn lookup(&self, key: &str) -> (r: Option<PerformedRecord>)
        ensures
            r is Some <==> self@.ledger.contains_key(key@),
            r matches Some(rec) ==> rec@ == self@.ledger[key@],
    {
        match self.store.ledger.get(key) {
            Some(rec) => Some(rec.clone()),
            None => None,
        }
    }

    /// The stored row of an already resolved credit id: a credit, or a terminal overflow.
    pub fn credit_lookup(&self, credit_id: &str) -> (r: Option<PerformedRecord>)
        ensures
            r is Some <==> self@.credits.contains_key(credit_id@),
            r matches Some(rec) ==> rec@ == self@.credits[credit_id@],
    {
        match self.store.credit_ledger.get(credit_id) {
            Some(rec) => Some(rec.clone()),
            None => None,
        }
    }

    /// The outcome that a settlement retry returns for a prior credit row.
    pub fn classify_prior(&self, prior: PerformedRecord) -> (r: CreditOutcome)
        ensures
            r == if prior.proof@ == terminal_overflow_proof() {
                CreditOutcome::Terminal(prior)
            } else {
                CreditOutcome::Duplicate(prior)
            },
    {
        if is_terminal(&prior) {
            CreditOutcome::Terminal(prior)
        } else {
            CreditOutcome::Duplicate(prior)
        }
    }

    /// Index an issued charge for the settlement poller.
    pub fn record_issued_charge(&mut self, charge_id: &str, method: ChargeMethodTag)
        ensures
            final(self)@ == (Books {
                charges: old(self)@.charges.insert(charge_id@, method.byte()),
                ..old(self)@
            }),
            final(self).rent() == old(self).rent(),
            final(self).runway() == old(self).runway(),
    {
        self.store.issued_charges.insert(charge_id, method.as_byte());
    }

    /// The charges to poll, in key order: issued on the Lightning rail and not resolved.
    pub fn issued_uncredited_charge_ids(&self) -> (r: Vec<String>)
        ensures
            forall|i: int, j: int|
                #![trigger r@[i], r@[j]]
                0 <= i < j < r@.len() ==> keyed::key_before(r@[i]@, r@[j]@),
            forall|id: Seq<char>| #[trigger]
                self@.polls(id) <==> exists|i: int| 0 <= i < r@.len() && (#[trigger] r@[i])@ == id,
    {
        let mut out: Vec<String> = Vec::new();
        let n: usize = self.store.issued_charges.len();
        let ghost rows = self.store.issued_charges.rows();
        proof {
            keyed::rows_are_the_mapping(rows);
        }
        let ghost mut from: Seq<int> = Seq::empty();
        let mut i: usize = 0;
        while i < n
            invariant
                i <= n == rows.len(),
                rows == self.store.issued_charges.rows(),
                self.store.issued_charges@ == keyed::as_map(rows),
                keyed::in_key_order(rows),
                from.len() == out@.len(),
                forall|k: int|
                    0 <= k < out@.len() ==> 0 <= #[trigger] from[k] < i && out@[k]@
                        == rows[from[k]].key@ && self@.polls(out@[k]@),
                forall|j: int, k: int|
                    #![trigger from[j], from[k]]
                    0 <= j < k < from.len() ==> from[j] < from[k],
                forall|k: int|
                    0 <= k < i && self@.polls((#[trigger] rows[k]).key@) ==> exists|m: int|
                        0 <= m < out@.len() && (#[trigger] out@[m])@ == rows[k].key@,
            decreases n - i,
        {
            let row = self.store.issued_charges.row(i);
            let resolved: bool = self.store.credit_ledger.contains(row.key.as_str());
            let ghost before = out@;
            if is_pollable(row.value, resolved) {
                out.push(row.key.clone());
                proof {
                    from = from.push(i as int);
                    assert(self@.polls(row.key@));
                    assert forall|k: int| 0 <= k <= i && self@.polls(
                        (#[trigger] rows[k]).key@,
                    ) implies exists|m: int|
                        0 <= m < out@.len() && (#[trigger] out@[m])@ == rows[k].key@ by {
                        if k < i {
                            let m = choose|m: int|
                                0 <= m < before.len() && (#[trigger] before[m])@ == rows[k].key@;
                            assert(out@[m] == before[m]);
                        } else {
                            assert(out@[before.len() as int]@ == rows[k].key@);
                        }
                    }
                }
            } else {
                assert(!self@.polls(rows[i as int].key@));
            }
            i = i + 1;
        }
        proof {
            assert forall|j: int, k: int|
                #![trigger out@[j], out@[k]]
                0 <= j < k < out@.len() implies keyed::key_before(out@[j]@, out@[k]@) by {
                assert(from[j] < from[k]);
                assert(keyed::key_before(rows[from[j]].key@, rows[from[k]].key@));
            }
            assert forall|id: Seq<char>| #[trigger] self@.polls(id) implies exists|m: int|
                0 <= m < out@.len() && (#[trigger] out@[m])@ == id by {
                let k = choose|k: int| 0 <= k < rows.len() && (#[trigger] rows[k]).key@ == id;
                assert(self@.polls(rows[k].key@));
            }
            assert forall|id: Seq<char>|
                (exists|m: int| 0 <= m < out@.len() && (#[trigger] out@[m])@ == id)
                implies #[trigger] self@.polls(id) by {
                let m = choose|m: int| 0 <= m < out@.len() && (#[trigger] out@[m])@ == id;
                assert(0 <= from[m]);
            }
        }
        out
    }

    /// The largest sequence number among the ledger keys `<prefix><number>`.
    pub fn max_idempotency_seq(&self, prefix: &str) -> (r: Option<u64>)
        ensures
            self@.is_largest_seq(prefix@, r),
    {
        let mut max: Option<u64> = None;
        let n: usize = self.store.ledger.len();
        let ghost rows = self.store.ledger.rows();
        proof {
            keyed::rows_are_the_mapping(rows);
        }
        let mut i: usize = 0;
        while i < n
            invariant
                i <= n == rows.len(),
                rows == self.store.ledger.rows(),
                self.store.ledger@ == keyed::as_map(rows),
                forall|k: int, suffix: Seq<char>|
                    0 <= k < i && (#[trigger] rows[k]).key@ == #[trigger] (prefix@ + suffix) && (
                    text::parsed_u64(suffix) is Some) ==> (max is Some && text::parsed_u64(
                        suffix,
                    )->0 <= max->0),
                max matches Some(m) ==> self@.has_seq(prefix@, m),
            decreases n - i,
        {
            let row = self.store.ledger.row(i);
            match text::str_strip_prefix(row.key.as_str(), prefix) {
                Some(suffix) => {
                    proof {
                        assert forall|s: Seq<char>| row.key@ == #[trigger] (prefix@ + s) implies s
                            == suffix@ by {
                            assert(s =~= (prefix@ + s).skip(prefix@.len() as int));
                            assert(suffix@ =~= (prefix@ + suffix@).skip(prefix@.len() as int));
                        }
                    }
                    match text::parse_u64(suffix.as_str()) {
                        Some(v) => {
                            assert(self@.ledger.contains_key(prefix@ + suffix@));
                            assert(self@.has_seq(prefix@, v));
                            max = match max {
                                Some(m) => if m >= v {
                                    Some(m)
                                } else {
                                    Some(v)
                                },
                                None => Some(v),
                            };
                        },
                        None => {},
                    }
                },
                None => {
                    proof {
                        assert forall|s: Seq<char>| row.key@ != #[trigger] (prefix@ + s) by {
                            assert(prefix@ =~= (prefix@ + s).take(prefix@.len() as int));
                            if row.key@ == prefix@ + s {
                                assert(prefix@.is_prefix_of(row.key@));
                            }
                        }
                    }
                },
            }
            i = i + 1;
        }
        proof {
            assert forall|v: u64| #[trigger] self@.has_seq(prefix@, v) implies max is Some && v
                <= max->0 by {
                let suffix = choose|suffix: Seq<char>|
                    self@.ledger.contains_key(#[trigger] (prefix@ + suffix)) && text::parsed_u64(
                        suffix,
                    ) == Some(v);
                let k = choose|k: int|
                    0 <= k < rows.len() && (#[trigger] rows[k]).key@ == prefix@ + suffix;
                assert(rows[k].key@ == prefix@ + suffix);
            }
        }
        max
    }

    /// The acts' total cost, capped at the largest u64.
    pub fn spent_sats(&self) -> (r: u64)
        ensures
            r == capped(self@.spent()),
    {
        let mut total: u64 = 0;
        let n: usize = self.store.ledger.len();
        let ghost rows = self.store.ledger.rows();
        let ghost f = |r: PerformedRecord| r.cost_sats as nat;
        let mut i: usize = 0;
        assert(rows.take(0) =~= Seq::<keyed::Row<PerformedRecord>>::empty());
        while i < n
            invariant
                i <= n == rows.len(),
                rows == self.store.ledger.rows(),
                f == (|r: PerformedRecord| r.cost_sats as nat),
                total == capped(keyed::sum_rows(rows.take(i as int), f)),
            decreases n - i,
        {
            let row = self.store.ledger.row(i);
            proof {
                assert(rows.take(i + 1).drop_last() =~= rows.take(i as int));
                assert(rows.take(i + 1).last() == *row);
            }
            total = total.saturating_add(row.value.cost_sats);
            i = i + 1;
        }
        proof {
            assert(rows.take(i as int) =~= rows);
            keyed::sum_rows_is_sum_values(rows, f);
            assert(self@.ledger.map_values(|r: Record| r.cost_sats as nat) =~= keyed::as_map(
                rows,
            ).map_values(f));
        }
        total
    }

    /// How many credits settled, capped at the largest u64.
    fn jobs_settled(&self) -> (r: u64)
        ensures
            r == capped(self@.settled()),
    {
        let mut total: u64 = 0;
        let n: usize = self.store.credit_ledger.len();
        let ghost rows = self.store.credit_ledger.rows();
        let ghost f = |r: PerformedRecord| settled_weight(r@);
        let mut i: usize = 0;
        assert(rows.take(0) =~= Seq::<keyed::Row<PerformedRecord>>::empty());
        while i < n
            invariant
                i <= n == rows.len(),
                rows == self.store.credit_ledger.rows(),
                f == (|r: PerformedRecord| settled_weight(r@)),
                total == capped(keyed::sum_rows(rows.take(i as int), f)),
            decreases n - i,
        {
            let row = self.store.credit_ledger.row(i);
            proof {
                assert(rows.take(i + 1).drop_last() =~= rows.take(i as int));
                assert(rows.take(i + 1).last() == *row);
            }
            if bytes::bytes_eq(row.value.proof.as_slice(), "credit-verified".as_bytes()) {
                total = total.saturating_add(1);
            }
            i = i + 1;
        }
        proof {
            assert(rows.take(i as int) =~= rows);
            keyed::sum_rows_is_sum_values(rows, f);
            assert(self@.credits.map_values(|r: Record| settled_weight(r)) =~= keyed::as_map(
                rows,
            ).map_values(f));
        }
        total
    }

    /// A read-only snapshot of the books. Income is what the balance identity leaves, so nothing
    /// a genome reports can raise it.
    pub fn economics_snapshot(&self, initial_sats: u64, rent_sats: u64) -> (r: Result<
        EconomicsSnapshot,
        TreasuryError,
    >)
        ensures
            match r {
                Ok(snap) => {
                    &&& self@.sats() == Some(snap.remaining_sats)
                    &&& snap.spent_sats == capped(self@.spent())
                    &&& snap.jobs_settled == capped(self@.settled())
                    &&& snap.income_sats == derived_income(
                        snap.remaining_sats,
                        snap.spent_sats,
                        rent_sats,
                        initial_sats,
                    )
                },
                Err(e) => is_balance_error(e, self@.balance),
            },
    {
        let remaining_sats: u64 = match self.remaining() {
            Ok(n) => n,
            Err(e) => return Err(e),
        };
        let spent_sats: u64 = self.spent_sats();
        let jobs_settled: u64 = self.jobs_settled();
        let income_sats: u64 = remaining_sats.saturating_add(spent_sats).saturating_add(
            rent_sats,
        ).saturating_sub(initial_sats);
        Ok(EconomicsSnapshot { remaining_sats, income_sats, spent_sats, jobs_settled })
    }

    /// Debit metered burn. No ledger row is written; the rent counter grows by what was debited.
    /// A refusal is the signal that the budget is exhausted.
    pub fn debit_metered(&mut self, amount_sats: u64) -> (r: Result<DebitOutcome, TreasuryError>)
        ensures
            final(self)@ == old(self)@.metered(amount_sats),
            final(self).runway() == old(self).runway(),
            match r {
                Ok(DebitOutcome::Debited { cost_sats, remaining }) => {
                    &&& old(self)@.sats() matches Some(current)
                    &&& amount_sats <= current
                    &&& cost_sats == amount_sats
                    &&& remaining == current - amount_sats
                    &&& final(self).rent() == old(self).rent().wrapping_add(amount_sats)
                },
                Ok(DebitOutcome::Insufficient { remaining }) => {
                    &&& old(self)@.sats() == Some(remaining)
                    &&& amount_sats > remaining
                    &&& final(self).rent() == old(self).rent()
                },
                Ok(DebitOutcome::Duplicate(_)) => false,
                Err(e) => {
                    &&& is_balance_error(e, old(self)@.balance)
                    &&& final(self).rent() == old(self).rent()
                },
            },
    {
        match metered_step(&self.store.balance, amount_sats) {
            Err(e) => Err(e),
            Ok(step) => {
                match step.balance {
                    Some(next) => {
                        self.store.balance = Some(bytes::to_be64(next));
                        self.rent_sats = self.rent_sats.wrapping_add(amount_sats);
                    },
                    None => {},
                }
                Ok(step.outcome)
            },
        }
    }

    /// The metered rent burned this run.
    pub fn rent_sats(&self) -> (r: u64)
        ensures
            r == self.rent(),
    {
        self.rent_sats
    }

    /// Publish the seconds to broke; `None` means unknown.
    pub fn publish_runway_hint(&mut self, runway_secs: Option<u64>)
        ensures
            final(self)@ == old(self)@,
            final(self).rent() == old(self).rent(),
            final(self).runway() == if runway_secs == Some(RUNWAY_HINT_UNKNOWN) {
                None
            } else {
                runway_secs
            },
    {
        self.runway_hint = runway_secs.unwrap_or(RUNWAY_HINT_UNKNOWN);
    }

    /// The last published seconds to broke.
    pub fn runway_secs_hint(&self) -> (r: Option<u64>)
        ensures
            r == self.runway(),
    {
        if self.runway_hint == RUNWAY_HINT_UNKNOWN {
            None
        } else {
            Some(self.runway_hint)
        }
    }

    /// Debit `cost_sats` and record the receipt under `key`, together or not at all.
    pub fn debit_and_record(
        &mut self,
        key: &str,
        cost_sats: u64,
        proof: Vec<u8>,
        completion: Vec<u8>,
        memory: Vec<u8>,
        request_hash: Vec<u8>,
    ) -> (r: Result<DebitOutcome, TreasuryError>)
        ensures
            final(self)@ == old(self)@.debited(
                key@,
                (Act { cost_sats, proof, completion, memory, request_hash }),
            ),
            final(self).rent() == old(self).rent(),
            final(self).runway() == old(self).runway(),
            is_debit_result(r, old(self)@, key@, cost_sats),
    {
        let act = Act { cost_sats, proof, completion, memory, request_hash };
        match debit_step(self.store.ledger.get(key), &self.store.balance, act) {
            Err(e) => Err(e),
            Ok(step) => {
                match step.write {
                    Some((next, row)) => {
                        let ghost before = self.store.ledger@;
                        self.store.balance = Some(bytes::to_be64(next));
                        self.store.ledger.insert(key, row);
                        assert(records(before.insert(key@, row)) =~= records(before).insert(
                            key@,
                            row@,
                        ));
                    },
                    None => {},
                }
                Ok(step.outcome)
            },
        }
    }

    /// Record an issued charge: its cost-free ledger row and its index entry, together or not at
    /// all. A replayed key writes neither, so a charge id minted for a lost race is never indexed.
    pub fn record_charge_atomic(
        &mut self,
        idempotency_key: &str,
        charge_id: &str,
        method: ChargeMethodTag,
        proof: Vec<u8>,
        request_hash: Vec<u8>,
    ) -> (r: Result<DebitOutcome, TreasuryError>)
        ensures
            exists|act: Act|
                {
                    &&& is_charge_act(act, proof@, request_hash@)
                    &&& final(self)@ == #[trigger] old(self)@.charged(
                        idempotency_key@,
                        charge_id@,
                        method,
                        act,
                    )
                },
            final(self).rent() == old(self).rent(),
            final(self).runway() == old(self).runway(),
            is_debit_result(r, old(self)@, idempotency_key@, 0),
    {
        let act = Act {
            cost_sats: 0,
            proof,
            completion: Vec::new(),
            memory: Vec::new(),
            request_hash,
        };
        let ghost charge = act;
        assert(is_charge_act(charge, proof@, request_hash@)) by {
            assert(charge.completion@ =~= Seq::<u8>::empty());
            assert(charge.memory@ =~= Seq::<u8>::empty());
        }
        let r = match debit_step(self.store.ledger.get(idempotency_key), &self.store.balance, act) {
            Err(e) => Err(e),
            Ok(step) => {
                match step.write {
                    Some((next, row)) => {
                        let ghost before = self.store.ledger@;
                        self.store.balance = Some(bytes::to_be64(next));
                        self.store.ledger.insert(idempotency_key, row);
                        self.store.issued_charges.insert(charge_id, method.as_byte());
                        assert(records(before.insert(idempotency_key@, row)) =~= records(
                            before,
                        ).insert(idempotency_key@, row@));
                    },
                    None => {},
                }
                Ok(step.outcome)
            },
        };
        assert(self@ == old(self)@.charged(idempotency_key@, charge_id@, method, charge));
        r
    }

    /// Credit a verified settlement, at most once per credit id. An amount that would wrap the
    /// balance credits nothing and closes the id for good.
    pub fn credit_verified(&mut self, credit_id: &str, amount_sats: u64) -> (r: Result<
        CreditOutcome,
        TreasuryError,
    >)
        ensures
            final(self)@ == old(self)@.credited(credit_id@, amount_sats),
            final(self).rent() == old(self).rent(),
            final(self).runway() == old(self).runway(),
            is_credit_result(r, old(self)@, credit_id@, amount_sats),
    {
        match credit_step(
            self.store.credit_ledger.get(credit_id),
            &self.store.balance,
            amount_sats,
        ) {
            Err(e) => Err(e),
            Ok(step) => {
                match step.balance {
                    Some(next) => {
                        self.store.balance = Some(bytes::to_be64(next));
                    },
                    None => {},
                }
                match step.row {
                    Some(row) => {
                        let ghost before = self.store.credit_ledger@;
                        self.store.credit_ledger.insert(credit_id, row);
                        assert(records(before.insert(credit_id@, row)) =~= records(before).insert(
                            credit_id@,
                            row@,
                        ));
                    },
                    None => {},
                }
                Ok(step.outcome)
            },
        }
    }

    /// Set the balance to an externally observed truth, in either direction. The caller passes a
    /// verified, successful reading only.
    pub fn reconcile_to_observed(&mut self, observed_sats: u64) -> (r: Result<
        ReconcileOutcome,
        TreasuryError,
    >)
        ensures
            final(self)@ == old(self)@.reconciled(observed_sats),
            final(self).rent() == old(self).rent(),
            final(self).runway() == old(self).runway(),
            match r {
                Ok(o) => {
                    &&& old(self)@.sats() matches Some(current)
                    &&& o == if observed_sats == current {
                        ReconcileOutcome::Unchanged { at: current }
                    } else if observed_sats > current {
                        ReconcileOutcome::Raised { from: current, to: observed_sats }
                    } else {
                        ReconcileOutcome::Lowered { from: current, to: observed_sats }
                    }
                },
                Err(e) => is_balance_error(e, old(self)@.balance),
            },
    {
        match reconcile_step(&self.store.balance, observed_sats) {
            Err(e) => Err(e),
            Ok(outcome) => {
                match outcome {
                    ReconcileOutcome::Unchanged { .. } => {},
                    _ => {
                        self.store.balance = Some(bytes::to_be64(observed_sats));
                    },
                }
                Ok(outcome)
            },
        }
    }
}

/// Whether `act` is what an issued charge leaves in the ledger: no cost, no reply, no memory.
pub open spec fn is_charge_act(act: Act, proof: Seq<u8>, request_hash: Seq<u8>) -> bool {
    &&& act.cost_sats == 0
    &&& act.proof@ == proof
    &&& act.completion@ == Seq::<u8>::empty()
    &&& act.memory@ == Seq::<u8>::empty()
    &&& act.request_hash@ == request_hash
}

/// What a debit of `cost_sats` under `key` returns on `books`.
pub open spec fn is_debit_result(
    r: Result<DebitOutcome, TreasuryError>,
    books: Books,
    key: Seq<char>,
    cost_sats: u64,
) -> bool {
    match r {
        Ok(DebitOutcome::Duplicate(rec)) => {
            books.ledger.contains_key(key) && rec@ == books.ledger[key]
        },
        Ok(DebitOutcome::Insufficient { remaining }) => {
            &&& !books.ledger.contains_key(key)
            &&& books.sats() == Some(remaining)
            &&& cost_sats > remaining
        },
        Ok(DebitOutcome::Debited { cost_sats: cost, remaining }) => {
            &&& books.affords(key, cost_sats)
            &&& cost == cost_sats
            &&& remaining == books.sats()->0 - cost_sats
        },
        Err(e) => !books.ledger.contains_key(key) && is_balance_error(e, books.balance),
    }
}

/// What a credit of `amount_sats` under `credit_id` returns on `books`.
pub open spec fn is_credit_result(
    r: Result<CreditOutcome, TreasuryError>,
    books: Books,
    credit_id: Seq<char>,
    amount_sats: u64,
) -> bool {
    let known = books.credits.contains_key(credit_id);
    match r {
        Ok(CreditOutcome::Duplicate(rec)) => {
            &&& known
            &&& rec@ == books.credits[credit_id]
            &&& rec@.proof != terminal_overflow_proof()
        },
        Ok(CreditOutcome::Terminal(rec)) => {
            &&& known
            &&& rec@ == books.credits[credit_id]
            &&& rec@.proof == terminal_overflow_proof()
        },
        Ok(CreditOutcome::Overflow { remaining }) => {
            &&& !known
            &&& books.sats() == Some(remaining)
            &&& remaining + amount_sats > u64::MAX
        },
        Ok(CreditOutcome::Credited { amount_sats: amount, remaining }) => {
            &&& !known
            &&& books.sats() matches Some(current)
            &&& amount == amount_sats
            &&& remaining == current + amount_sats
        },
        Err(e) => !known && is_balance_error(e, books.balance),
    }
}

// ---------------------------------------------------------------------------------------------
// Laws
// ---------------------------------------------------------------------------------------------
/// Reopening what was persisted keeps the books as they are, whatever the seed: a resume never
/// refills the treasury.
pub proof fn resume_never_refills(books: Books, first: u64, second: u64)
    ensures
        books.seeded(first).seeded(second) == books.seeded(first),
{
}

/// A debit never overspends: the balance falls by exactly the cost or stays, and never rises.
pub proof fn debit_never_overspends(books: Books, key: Seq<char>, act: Act)
    requires
        books.sats() is Some,
    ensures
        books.debited(key, act).sats() is Some,
        books.affords(key, act.cost_sats) ==> books.debited(key, act).sats()->0 == books.sats()->0
            - act.cost_sats,
        !books.affords(key, act.cost_sats) ==> books.debited(key, act) == books,
{
    if books.affords(key, act.cost_sats) {
        stored_balance_round_trip((books.sats()->0 - act.cost_sats) as u64);
    }
}

/// A metered debit never overspends, and writes no row anywhere.
pub proof fn metering_never_overspends(books: Books, amount: u64)
    requires
        books.sats() is Some,
    ensures
        books.metered(amount).sats() == if amount <= books.sats()->0 {
            Some((books.sats()->0 - amount) as u64)
        } else {
            books.sats()
        },
        books.metered(amount).ledger == books.ledger,
        books.metered(amount).credits == books.credits,
        books.metered(amount).charges == books.charges,
{
    if amount <= books.sats()->0 {
        stored_balance_round_trip((books.sats()->0 - amount) as u64);
    }
}

/// An act is performed at most once: once a debit went through, replaying its key, with whatever
/// cost and content, changes nothing.
pub proof fn debit_is_idempotent(books: Books, key: Seq<char>, act: Act, replay: Act)
    requires
        books.affords(key, act.cost_sats),
    ensures
        books.debited(key, act).ledger.contains_key(key),
        books.debited(key, act).debited(key, replay) == books.debited(key, act),
{
}

/// The balance and the receipt move together: the balance changes under a debit exactly when the
/// ledger row appears, and the row records the balance that the debit left.
pub proof fn debit_and_receipt_are_atomic(books: Books, key: Seq<char>, act: Act)
    ensures
        ({
            let after = books.debited(key, act);
            &&& after.ledger != books.ledger ==> after.sats() == Some(
                after.ledger[key].treasury_remaining_after,
            )
            &&& after.ledger == books.ledger ==> after == books
        }),
{
    if books.affords(key, act.cost_sats) {
        let next = (books.sats()->0 - act.cost_sats) as u64;
        stored_balance_round_trip(next);
        let after = books.debited(key, act);
        assert(after.ledger.contains_key(key));
        assert(after.ledger != books.ledger);
    }
}

/// A settlement is credited at most once: crediting the same id again, with whatever amount,
/// changes nothing.
pub proof fn credit_happens_once(books: Books, id: Seq<char>, amount: u64, again: u64)
    requires
        books.sats() is Some,
    ensures
        books.credited(id, amount).credits.contains_key(id),
        books.credited(id, amount).credited(id, again) == books.credited(id, amount),
{
}

/// A credit never wraps: the balance rises by exactly the amount or stays.
pub proof fn credit_never_wraps(books: Books, id: Seq<char>, amount: u64)
    requires
        books.sats() is Some,
    ensures
        ({
            let current = books.sats()->0;
            let after = books.credited(id, amount).sats();
            if books.credits.contains_key(id) || current + amount > u64::MAX {
                after == Some(current)
            } else {
                after == Some((current + amount) as u64)
            }
        }),
{
    let current = books.sats()->0;
    if !books.credits.contains_key(id) && current + amount <= u64::MAX {
        stored_balance_round_trip((current + amount) as u64);
    }
}

/// An overflowed credit is terminal: it leaves the balance alone, and every retry, with whatever
/// amount, is answered with the terminal row and credits nothing.
pub proof fn overflow_is_terminal(books: Books, id: Seq<char>, amount: u64, retry: u64)
    requires
        !books.credits.contains_key(id),
        books.sats() matches Some(current) && current + amount > u64::MAX,
    ensures
        ({
            let after = books.credited(id, amount);
            &&& after.balance == books.balance
            &&& after.credits[id].proof == terminal_overflow_proof()
            &&& after.credited(id, retry) == after
            &&& forall|r: Result<CreditOutcome, TreasuryError>| #[trigger]
                is_credit_result(r, after, id, retry) ==> r matches Ok(CreditOutcome::Terminal(_))
        }),
{
    credit_proofs_differ();
}

/// The namespaces are disjoint: an act never touches the credits, and a credit never touches the
/// acts or the charges, so no idempotency key can stand in a settlement's way.
pub proof fn namespaces_are_disjoint(
    books: Books,
    key: Seq<char>,
    act: Act,
    id: Seq<char>,
    amount: u64,
)
    ensures
        books.debited(key, act).credits == books.credits,
        books.debited(key, act).charges == books.charges,
        books.credited(id, amount).ledger == books.ledger,
        books.credited(id, amount).charges == books.charges,
{
}

/// A charge is indexed exactly when its ledger row is written: a fresh issue writes both, a
/// replay writes neither, and an issue costs nothing.
pub proof fn charge_is_indexed_with_its_row(
    books: Books,
    key: Seq<char>,
    charge_id: Seq<char>,
    method: ChargeMethodTag,
    act: Act,
)
    requires
        act.cost_sats == 0,
        books.sats() is Some,
    ensures
        ({
            let after = books.charged(key, charge_id, method, act);
            &&& after.sats() == books.sats()
            &&& books.ledger.contains_key(key) ==> after == books
            &&& !books.ledger.contains_key(key) ==> after.ledger.contains_key(key)
                && after.charges.contains_key(charge_id) && after.charges[charge_id]
                == method.byte()
            &&& forall|other: Seq<char>| other != charge_id ==> (
            #[trigger] after.charges.contains_key(other)) == books.charges.contains_key(other)
        }),
{
    stored_balance_round_trip(books.sats()->0);
}

/// A fresh Lightning charge is polled until its settlement is resolved, by a credit or by an
/// overflow, and never after. A Cashu charge is never polled.
pub proof fn charge_is_polled_until_resolved(
    books: Books,
    key: Seq<char>,
    charge_id: Seq<char>,
    method: ChargeMethodTag,
    act: Act,
    amount: u64,
)
    requires
        act.cost_sats == 0,
        books.sats() is Some,
        !books.ledger.contains_key(key),
        !books.credits.contains_key(charge_id),
    ensures
        ({
            let issued = books.charged(key, charge_id, method, act);
            &&& issued.polls(charge_id) == (method == ChargeMethodTag::Lightning)
            &&& !issued.credited(charge_id, amount).polls(charge_id)
        }),
{
    stored_balance_round_trip(books.sats()->0);
}

/// An act's debit never enters the poll set.
pub proof fn acts_are_never_polled(books: Books, key: Seq<char>, act: Act, id: Seq<char>)
    ensures
        books.debited(key, act).polls(id) == books.polls(id),
        books.metered(act.cost_sats).polls(id) == books.polls(id),
{
}

/// Observing a balance sets it, observing it again changes nothing, and a value seen before can
/// be observed anew.
pub proof fn reconcile_sets_and_is_idempotent(books: Books, observed: u64, other: u64)
    requires
        books.sats() is Some,
    ensures
        books.reconciled(observed).sats() == Some(observed),
        books.reconciled(observed).reconciled(observed) == books.reconciled(observed),
        books.reconciled(observed).reconciled(other).reconciled(observed).sats() == Some(observed),
        books.reconciled(observed).ledger == books.ledger,
        books.reconciled(observed).credits == books.credits,
        books.reconciled(observed).charges == books.charges,
{
    stored_balance_round_trip(observed);
    stored_balance_round_trip(other);
}

/// What the treasury has taken in: the balance, plus what acts cost, plus the rent.
pub open spec fn taken_in(books: Books, rent: nat) -> nat {
    books.sats()->0 as nat + books.spent() + rent
}

/// The books balance. Neither an act nor an issued charge nor metered rent changes what the
/// treasury has taken in, and a credit changes it by exactly what it credited: so the income that
/// the identity `initial + income - spent - rent == remaining` gives is the sum of the credits.
pub proof fn books_balance(
    books: Books,
    rent: nat,
    key: Seq<char>,
    act: Act,
    charge_id: Seq<char>,
    method: ChargeMethodTag,
    amount: u64,
    id: Seq<char>,
)
    requires
        books.sats() is Some,
        books.ledger.dom().finite(),
    ensures
        taken_in(books.debited(key, act), rent) == taken_in(books, rent),
        taken_in(books.charged(key, charge_id, method, act), rent) == taken_in(books, rent),
        taken_in(
            books.metered(amount),
            if amount <= books.sats()->0 {
                rent + amount as nat
            } else {
                rent
            },
        ) == taken_in(books, rent),
        taken_in(books.credited(id, amount), rent) == taken_in(books, rent) + if
            books.credits.contains_key(id) || books.sats()->0 + amount > u64::MAX {
            0
        } else {
            amount as nat
        },
        books.debited(key, act).ledger.dom().finite(),
{
    metering_never_overspends(books, amount);
    credit_never_wraps(books, id, amount);
    debit_never_overspends(books, key, act);
    let cost = |r: Record| r.cost_sats as nat;
    let costs = books.ledger.map_values(cost);
    assert(costs.dom() =~= books.ledger.dom());
    if books.affords(key, act.cost_sats) {
        let next = (books.sats()->0 - act.cost_sats) as u64;
        keyed::sum_with(costs, key, act.cost_sats as nat);
        assert(books.debited(key, act).ledger.map_values(cost) =~= costs.insert(
            key,
            act.cost_sats as nat,
        ));
        assert(books.debited(key, act).ledger.dom() =~= books.ledger.dom().insert(key));
    }
}

/// The snapshot's identity: within u64 range, and with at least the initial budget taken in,
/// `initial + income - spent - rent == remaining`.
pub proof fn snapshot_identity(remaining: u64, spent: u64, rent: u64, initial: u64)
    requires
        initial <= remaining + spent + rent <= u64::MAX,
    ensures
        initial + derived_income(remaining, spent, rent, initial) - spent - rent == remaining,
{
}

/// Only a credit that credited the balance counts as a settled job.
pub proof fn only_credits_settle(books: Books, id: Seq<char>, amount: u64)
    requires
        books.sats() is Some,
        books.credits.dom().finite(),
    ensures
        books.credited(id, amount).settled() == books.settled() + if books.credits.contains_key(id)
            || books.sats()->0 + amount > u64::MAX {
            0nat
        } else {
            1nat
        },
{
    credit_proofs_differ();
    let weight = |r: Record| settled_weight(r);
    let weights = books.credits.map_values(weight);
    assert(weights.dom() =~= books.credits.dom());
    if !books.credits.contains_key(id) {
        let after = books.credited(id, amount);
        let w = settled_weight(after.credits[id]);
        keyed::sum_with(weights, id, w);
        assert(after.credits.map_values(weight) =~= weights.insert(id, w));
    }
}

/// The rail of a charge is read back as it was stored, and no byte stands for two rails.
pub proof fn rail_bytes_round_trip(a: ChargeMethodTag, b: ChargeMethodTag)
    ensures
        a.byte() == b.byte() <==> a == b,
        a.byte() != 0,
{
}

// ---------------------------------------------------------------------------------------------
// What the calls come to
// ---------------------------------------------------------------------------------------------
/// A fresh charge is recorded as it was given: its row holds the given proof and the given hash of
/// the request, costs nothing, and is what a later lookup or a replay of the key hands out; its index
/// entry holds its rail. Nothing else changes.
pub proof fn charge_is_recorded_as_given(
    t: &mut Treasury,
    key: &str,
    charge_id: &str,
    method: ChargeMethodTag,
    proof: Vec<u8>,
    request_hash: Vec<u8>,
    cost: u64,
    remaining: u64,
    found: Option<PerformedRecord>,
    left: Result<u64, TreasuryError>,
)
    requires
        call_ensures(
            Treasury::record_charge_atomic,
            (t, key, charge_id, method, proof, request_hash),
            Ok(DebitOutcome::Debited { cost_sats: cost, remaining }),
        ),
        call_ensures(Treasury::lookup, (&*final(t), key), found),
        call_ensures(Treasury::remaining, (&*final(t),), left),
    ensures
        cost == 0,
        old(t)@.sats() == Some(remaining),
        left == Ok::<u64, TreasuryError>(remaining),
        !old(t)@.ledger.contains_key(key@),
        final(t)@.ledger.contains_key(key@),
        final(t)@.ledger[key@].proof == proof@,
        final(t)@.ledger[key@].request_hash == request_hash@,
        final(t)@.ledger[key@].cost_sats == 0,
        final(t)@.ledger[key@].treasury_remaining_after == remaining,
        final(t)@.ledger[key@].completion.len() == 0,
        final(t)@.ledger[key@].memory.len() == 0,
        found is Some,
        found->0.proof@ == proof@,
        found->0.request_hash@ == request_hash@,
        found->0.cost_sats == 0,
        found->0.treasury_remaining_after == remaining,
        final(t)@.charges.contains_key(charge_id@),
        final(t)@.charges[charge_id@] == match method {
            ChargeMethodTag::Lightning => 1u8,
            ChargeMethodTag::Cashu => 2u8,
        },
        final(t)@.ledger.remove(key@) == old(t)@.ledger,
        final(t)@.charges.remove(charge_id@) == old(t)@.charges.remove(charge_id@),
        final(t)@.credits == old(t)@.credits,
        final(t).rent() == old(t).rent(),
        final(t).runway() == old(t).runway(),
{
    stored_balance_round_trip(remaining);
    assert(final(t)@.sats() == Some(remaining));
    assert(final(t)@.ledger.remove(key@) =~= old(t)@.ledger);
    assert(final(t)@.charges.remove(charge_id@) =~= old(t)@.charges.remove(charge_id@));
}

/// A debit that goes through takes exactly its cost, and its row is recorded as it was given: a later
/// lookup hands out the given proof, reply, memory and hash, each in its place, with the cost and the
/// balance it left. Nothing else changes.
pub proof fn debit_is_recorded_as_given(
    t: &mut Treasury,
    key: &str,
    cost_sats: u64,
    proof: Vec<u8>,
    completion: Vec<u8>,
    memory: Vec<u8>,
    request_hash: Vec<u8>,
    cost: u64,
    remaining: u64,
    found: Option<PerformedRecord>,
    left: Result<u64, TreasuryError>,
)
    requires
        call_ensures(
            Treasury::debit_and_record,
            (t, key, cost_sats, proof, completion, memory, request_hash),
            Ok(DebitOutcome::Debited { cost_sats: cost, remaining }),
        ),
        call_ensures(Treasury::lookup, (&*final(t), key), found),
        call_ensures(Treasury::remaining, (&*final(t),), left),
    ensures
        cost == cost_sats,
        old(t)@.sats() is Some,
        old(t)@.sats()->0 == remaining + cost_sats,
        left == Ok::<u64, TreasuryError>(remaining),
        !old(t)@.ledger.contains_key(key@),
        found is Some,
        found->0.proof@ == proof@,
        found->0.completion@ == completion@,
        found->0.memory@ == memory@,
        found->0.request_hash@ == request_hash@,
        found->0.cost_sats == cost_sats,
        found->0.treasury_remaining_after == remaining,
        final(t)@.ledger.remove(key@) == old(t)@.ledger,
        final(t)@.credits == old(t)@.credits,
        final(t)@.charges == old(t)@.charges,
        final(t).rent() == old(t).rent(),
        final(t).runway() == old(t).runway(),
{
    stored_balance_round_trip(remaining);
    assert(final(t)@.sats() == Some(remaining));
    assert(final(t)@.ledger.remove(key@) =~= old(t)@.ledger);
}

/// A replay is answered with the stored row: where the key is in the ledger, a debit or a charge under
/// it, whatever it asks for, hands out the row and changes nothing. Where it is not, it goes through
/// exactly if the balance covers the cost, and is refused without a change otherwise.
pub proof fn replay_is_answered_with_the_stored_row(
    t: &mut Treasury,
    key: &str,
    cost_sats: u64,
    proof: Vec<u8>,
    completion: Vec<u8>,
    memory: Vec<u8>,
    request_hash: Vec<u8>,
    r: Result<DebitOutcome, TreasuryError>,
)
    requires
        call_ensures(
            Treasury::debit_and_record,
            (t, key, cost_sats, proof, completion, memory, request_hash),
            r,
        ),
    ensures
        old(t)@.ledger.contains_key(key@) <==> r matches Ok(DebitOutcome::Duplicate(_)),
        r matches Ok(DebitOutcome::Duplicate(rec)) ==> rec.proof@ == old(t)@.ledger[key@].proof
            && rec.completion@ == old(t)@.ledger[key@].completion && rec.memory@ == old(t)@.ledger[key@].memory && rec.request_hash@ == old(t)@.ledger[key@].request_hash
            && rec.cost_sats == old(t)@.ledger[key@].cost_sats && rec.treasury_remaining_after
            == old(t)@.ledger[key@].treasury_remaining_after,
        !(r matches Ok(DebitOutcome::Debited { .. })) ==> final(t)@ == old(t)@,
        !old(t)@.ledger.contains_key(key@) ==> match old(t)@.sats() {
            Some(have) => if cost_sats <= have {
                r matches Ok(DebitOutcome::Debited { .. })
            } else {
                r matches Ok(DebitOutcome::Insufficient { remaining }) && remaining == have
            },
            None => r is Err,
        },
{
}

/// The same of a charge: a replayed key hands out the stored row and indexes nothing.
pub proof fn replayed_charge_is_answered_with_the_stored_row(
    t: &mut Treasury,
    key: &str,
    charge_id: &str,
    method: ChargeMethodTag,
    proof: Vec<u8>,
    request_hash: Vec<u8>,
    r: Result<DebitOutcome, TreasuryError>,
)
    requires
        call_ensures(
            Treasury::record_charge_atomic,
            (t, key, charge_id, method, proof, request_hash),
            r,
        ),
    ensures
        old(t)@.ledger.contains_key(key@) <==> r matches Ok(DebitOutcome::Duplicate(_)),
        r matches Ok(DebitOutcome::Duplicate(rec)) ==> rec.proof@ == old(t)@.ledger[key@].proof
            && rec.request_hash@ == old(t)@.ledger[key@].request_hash && rec.cost_sats == old(t)@.ledger[key@].cost_sats,
        !(r matches Ok(DebitOutcome::Debited { .. })) ==> final(t)@ == old(t)@,
        !old(t)@.ledger.contains_key(key@) && old(t)@.sats() is Some ==> (r matches Ok(
            DebitOutcome::Debited { .. },
        )),
        !old(t)@.ledger.contains_key(key@) && old(t)@.sats() is None ==> r is Err,
{
}

/// A settlement that is credited raises the balance by exactly its amount, and leaves a row that marks
/// a credit. Neither acts nor charges change, and nothing is credited under another id.
pub proof fn credit_raises_the_balance_by_its_amount(
    t: &mut Treasury,
    id: &str,
    amount_sats: u64,
    amount: u64,
    remaining: u64,
    found: Option<PerformedRecord>,
    left: Result<u64, TreasuryError>,
)
    requires
        call_ensures(
            Treasury::credit_verified,
            (t, id, amount_sats),
            Ok(CreditOutcome::Credited { amount_sats: amount, remaining }),
        ),
        call_ensures(Treasury::credit_lookup, (&*final(t), id), found),
        call_ensures(Treasury::remaining, (&*final(t),), left),
    ensures
        amount == amount_sats,
        old(t)@.sats() is Some,
        remaining == old(t)@.sats()->0 + amount_sats,
        left == Ok::<u64, TreasuryError>(remaining),
        !old(t)@.credits.contains_key(id@),
        found is Some,
        found->0.proof@ == vstd::utf8::encode_utf8("credit-verified"@),
        found->0.cost_sats == 0,
        found->0.treasury_remaining_after == remaining,
        final(t)@.credits.remove(id@) == old(t)@.credits,
        final(t)@.ledger == old(t)@.ledger,
        final(t)@.charges == old(t)@.charges,
        final(t).rent() == old(t).rent(),
        final(t).runway() == old(t).runway(),
{
    stored_balance_round_trip(remaining);
    assert(final(t)@.sats() == Some(remaining));
    assert(final(t)@.credits.remove(id@) =~= old(t)@.credits);
}

/// When a settlement is credited and when not: a new id is credited unless that would wrap, an
/// overflow leaves a terminal row and the balance as it was, and a known id is answered with its row
/// and changes nothing.
pub proof fn settlement_is_answered_by_its_row(
    t: &mut Treasury,
    id: &str,
    amount_sats: u64,
    r: Result<CreditOutcome, TreasuryError>,
    found: Option<PerformedRecord>,
)
    requires
        call_ensures(Treasury::credit_verified, (t, id, amount_sats), r),
        call_ensures(Treasury::credit_lookup, (&*final(t), id), found),
        old(t)@.sats() is Some,
    ensures
        !old(t)@.credits.contains_key(id@) && old(t)@.sats()->0 + amount_sats <= u64::MAX <==> (
        r matches Ok(CreditOutcome::Credited { .. })),
        !old(t)@.credits.contains_key(id@) && old(t)@.sats()->0 + amount_sats > u64::MAX <==> (
        r matches Ok(CreditOutcome::Overflow { .. })),
        r matches Ok(CreditOutcome::Overflow { remaining }) ==> {
            &&& old(t)@.sats() == Some(remaining)
            &&& final(t)@.balance == old(t)@.balance
            &&& found is Some
            &&& found->0.proof@ == vstd::utf8::encode_utf8("credit-terminal-overflow"@)
            &&& found->0.treasury_remaining_after == remaining
            &&& final(t)@.credits.remove(id@) == old(t)@.credits
            &&& final(t)@.ledger == old(t)@.ledger
            &&& final(t)@.charges == old(t)@.charges
        },
        old(t)@.credits.contains_key(id@) ==> {
            &&& final(t)@ == old(t)@
            &&& old(t)@.credits[id@].proof == vstd::utf8::encode_utf8(
                "credit-terminal-overflow"@,
            ) ==> (r matches Ok(CreditOutcome::Terminal(rec)) && rec@ == old(t)@.credits[id@])
            &&& old(t)@.credits[id@].proof != vstd::utf8::encode_utf8(
                "credit-terminal-overflow"@,
            ) ==> (r matches Ok(CreditOutcome::Duplicate(rec)) && rec@ == old(t)@.credits[id@])
        },
{
    if !old(t)@.credits.contains_key(id@) {
        assert(final(t)@.credits.remove(id@) =~= old(t)@.credits);
    }
}

/// Rent takes exactly what was metered from the balance and adds it to the rent counter; where the
/// balance does not cover it, nothing is taken. The ledgers and the charges stay as they are.
pub proof fn rent_is_taken_once_from_the_balance(
    t: &mut Treasury,
    amount_sats: u64,
    r: Result<DebitOutcome, TreasuryError>,
    left: Result<u64, TreasuryError>,
    rent: u64,
)
    requires
        call_ensures(Treasury::debit_metered, (t, amount_sats), r),
        call_ensures(Treasury::remaining, (&*final(t),), left),
        call_ensures(Treasury::rent_sats, (&*final(t),), rent),
        old(t)@.sats() is Some,
        old(t).rent() + amount_sats <= u64::MAX,
    ensures
        amount_sats <= old(t)@.sats()->0 ==> {
            &&& r == Ok::<DebitOutcome, TreasuryError>(
                DebitOutcome::Debited {
                    cost_sats: amount_sats,
                    remaining: (old(t)@.sats()->0 - amount_sats) as u64,
                },
            )
            &&& left == Ok::<u64, TreasuryError>((old(t)@.sats()->0 - amount_sats) as u64)
            &&& rent == old(t).rent() + amount_sats
        },
        amount_sats > old(t)@.sats()->0 ==> {
            &&& r == Ok::<DebitOutcome, TreasuryError>(
                DebitOutcome::Insufficient { remaining: old(t)@.sats()->0 },
            )
            &&& left == Ok::<u64, TreasuryError>(old(t)@.sats()->0)
            &&& rent == old(t).rent()
        },
        final(t)@.ledger == old(t)@.ledger,
        final(t)@.credits == old(t)@.credits,
        final(t)@.charges == old(t)@.charges,
        final(t).runway() == old(t).runway(),
{
    metering_never_overspends(old(t)@, amount_sats);
    assert(final(t)@.sats() is Some);
}

/// The rent counter goes round at the end of its range, as a counter does.
pub proof fn rent_counter_goes_round(
    t: &mut Treasury,
    amount_sats: u64,
    cost: u64,
    remaining: u64,
    rent: u64,
)
    requires
        call_ensures(
            Treasury::debit_metered,
            (t, amount_sats),
            Ok(DebitOutcome::Debited { cost_sats: cost, remaining }),
        ),
        call_ensures(Treasury::rent_sats, (&*final(t),), rent),
        old(t).rent() + amount_sats > u64::MAX,
    ensures
        rent == old(t).rent() + amount_sats - u64::MAX - 1,
{
}

/// An observed balance becomes the balance, and the outcome names both and the direction. Nothing else
/// changes.
pub proof fn observed_balance_becomes_the_balance(
    t: &mut Treasury,
    observed: u64,
    r: Result<ReconcileOutcome, TreasuryError>,
    left: Result<u64, TreasuryError>,
)
    requires
        call_ensures(Treasury::reconcile_to_observed, (t, observed), r),
        call_ensures(Treasury::remaining, (&*final(t),), left),
        old(t)@.sats() is Some,
    ensures
        left == Ok::<u64, TreasuryError>(observed),
        r is Ok,
        observed > old(t)@.sats()->0 <==> r->Ok_0 is Raised,
        observed < old(t)@.sats()->0 <==> r->Ok_0 is Lowered,
        observed == old(t)@.sats()->0 <==> r->Ok_0 is Unchanged,
        r->Ok_0 matches ReconcileOutcome::Raised { from, to } ==> Some(from) == old(t)@.sats() && to
            == observed,
        r->Ok_0 matches ReconcileOutcome::Lowered { from, to } ==> Some(from) == old(t)@.sats() && to
            == observed,
        r->Ok_0 matches ReconcileOutcome::Unchanged { at } ==> at == observed,
        final(t)@.ledger == old(t)@.ledger,
        final(t)@.credits == old(t)@.credits,
        final(t)@.charges == old(t)@.charges,
        final(t).rent() == old(t).rent(),
        final(t).runway() == old(t).runway(),
{
    stored_balance_round_trip(observed);
    reconcile_sets_and_is_idempotent(old(t)@, observed, observed);
}

/// A treasury opens with the persisted balance where there is one, and with the seed where there is
/// none; whatever the seed, the ledgers and the charges are the persisted ones. Closing it hands back
/// what it holds, so a resume finds what the last run left.
pub proof fn opening_keeps_what_was_persisted(
    store: TreasuryStore,
    seed: u64,
    t: Treasury,
    left: Result<u64, TreasuryError>,
    closed: TreasuryStore,
    rent: u64,
    runway: Option<u64>,
)
    requires
        call_ensures(Treasury::open, (store, seed), t),
        call_ensures(Treasury::remaining, (&t,), left),
        call_ensures(Treasury::into_store, (t,), closed),
        call_ensures(Treasury::rent_sats, (&t,), rent),
        call_ensures(Treasury::runway_secs_hint, (&t,), runway),
    ensures
        store@.balance is None ==> left == Ok::<u64, TreasuryError>(seed),
        store@.balance is Some ==> t@ == store@,
        t@.ledger == store@.ledger,
        t@.credits == store@.credits,
        t@.charges == store@.charges,
        closed@ == t@,
        rent == 0,
        runway is None,
{
    stored_balance_round_trip(seed);
    if store@.balance is None {
        assert(t@.sats() == Some(seed));
    }
}

/// What the snapshot says: the balance, the acts' total cost, the credits that raised the balance, and
/// as income what is left over of balance, cost and rent once the seed is taken off.
pub proof fn snapshot_adds_up(
    t: Treasury,
    initial: u64,
    rent: u64,
    snap: EconomicsSnapshot,
    left: Result<u64, TreasuryError>,
    spent: u64,
)
    requires
        call_ensures(Treasury::economics_snapshot, (&t, initial, rent), Ok(snap)),
        call_ensures(Treasury::remaining, (&t,), left),
        call_ensures(Treasury::spent_sats, (&t,), spent),
        snap.remaining_sats + spent + rent <= u64::MAX,
    ensures
        left == Ok::<u64, TreasuryError>(snap.remaining_sats),
        snap.spent_sats == spent,
        snap.remaining_sats + spent + rent >= initial ==> snap.income_sats == snap.remaining_sats
            + spent + rent - initial,
        snap.remaining_sats + spent + rent < initial ==> snap.income_sats == 0,
        t@.spent() <= u64::MAX ==> spent == t@.spent(),
        t@.spent() > u64::MAX ==> spent == u64::MAX,
        t@.settled() <= u64::MAX ==> snap.jobs_settled == t@.settled(),
{
}

/// Where the sums do not fit, the snapshot caps them: balance and cost first, then rent, and the seed
/// is taken off what is left, down to nothing.
pub proof fn snapshot_caps_its_sums(
    t: Treasury,
    initial: u64,
    rent: u64,
    snap: EconomicsSnapshot,
)
    requires
        call_ensures(Treasury::economics_snapshot, (&t, initial, rent), Ok(snap)),
        snap.remaining_sats + snap.spent_sats + rent > u64::MAX,
    ensures
        snap.income_sats == u64::MAX - initial,
{
}

/// What acts cost adds up: a row adds its cost to the total, and an empty ledger costs nothing.
pub proof fn costs_add_up(books: Books, key: Seq<char>, row: Record)
    requires
        books.ledger.dom().finite(),
        !books.ledger.contains_key(key),
    ensures
        (Books { ledger: books.ledger.insert(key, row), ..books }).spent() == books.spent()
            + row.cost_sats,
        (Books { ledger: Map::empty(), ..books }).spent() == 0,
{
    let cost = |r: Record| r.cost_sats as nat;
    let costs = books.ledger.map_values(cost);
    assert(costs.dom() =~= books.ledger.dom());
    keyed::sum_with(costs, key, row.cost_sats as nat);
    assert(books.ledger.insert(key, row).map_values(cost) =~= costs.insert(
        key,
        row.cost_sats as nat,
    ));
    assert(Map::<Seq<char>, Record>::empty().map_values(cost).dom() =~= Set::<Seq<char>>::empty());
}

/// The poller gets exactly the Lightning charges that nothing has resolved: one that was issued and
/// has no credit row of either kind is among them, and nothing else is.
pub proof fn poller_gets_the_unresolved_lightning_charges(
    t: Treasury,
    ids: Vec<String>,
    id: Seq<char>,
)
    requires
        call_ensures(Treasury::issued_uncredited_charge_ids, (&t,), ids),
    ensures
        (t@.charges.contains_key(id) && t@.charges[id] == 1 && !t@.credits.contains_key(id)) <==> (
        exists|i: int| 0 <= i < ids@.len() && (#[trigger] ids@[i])@ == id),
{
    assert(t@.polls(id) <==> exists|i: int| 0 <= i < ids@.len() && (#[trigger] ids@[i])@ == id);
}

/// Indexing a charge makes it known on its rail, and touches neither the balance nor a ledger nor
/// another charge.
pub proof fn indexed_charge_is_on_its_rail(t: &mut Treasury, id: &str, method: ChargeMethodTag)
    requires
        call_ensures(Treasury::record_issued_charge, (t, id, method), ()),
    ensures
        final(t)@.charges.contains_key(id@),
        method == ChargeMethodTag::Lightning <==> final(t)@.charges[id@] == 1,
        method == ChargeMethodTag::Cashu <==> final(t)@.charges[id@] == 2,
        final(t)@.charges.remove(id@) == old(t)@.charges.remove(id@),
        final(t)@.balance == old(t)@.balance,
        final(t)@.ledger == old(t)@.ledger,
        final(t)@.credits == old(t)@.credits,
{
    assert(final(t)@.charges.remove(id@) =~= old(t)@.charges.remove(id@));
}

/// A restarted genome never reuses a sequence number: the largest one found is at least every number
/// that stands behind the prefix in some ledger key, and it stands behind it in one.
pub proof fn no_sequence_number_is_missed(
    t: Treasury,
    prefix: &str,
    r: Option<u64>,
    suffix: Seq<char>,
    n: u64,
)
    requires
        call_ensures(Treasury::max_idempotency_seq, (&t, prefix), r),
    ensures
        t@.ledger.contains_key(prefix@ + suffix) && text::parsed_u64(suffix) == Some(n) ==> r is Some
            && n <= r->0,
        r is Some ==> exists|s: Seq<char>|
            t@.ledger.contains_key(#[trigger] (prefix@ + s)) && text::parsed_u64(s) == r,
{
    if t@.ledger.contains_key(prefix@ + suffix) && text::parsed_u64(suffix) == Some(n) {
        assert(t@.has_seq(prefix@, n));
    }
    if r is Some {
        assert(t@.has_seq(prefix@, r->0));
    }
}

/// A published runway is what is read back, until another is published, but for the one value that
/// stands for an unknown one; the books do not change.
pub proof fn published_runway_is_read_back(
    t: &mut Treasury,
    runway: Option<u64>,
    r: Option<u64>,
)
    requires
        call_ensures(Treasury::publish_runway_hint, (t, runway), ()),
        call_ensures(Treasury::runway_secs_hint, (&*final(t),), r),
    ensures
        runway != Some(u64::MAX) ==> r == runway,
        runway == Some(u64::MAX) ==> r is None,
        final(t)@ == old(t)@,
        final(t).rent() == old(t).rent(),
{
}

/// A retry is classified by the row's proof: terminal for an overflow, a duplicate for anything else,
/// and the row is handed out unchanged.
pub proof fn retry_is_classified_by_its_proof(t: Treasury, prior: PerformedRecord, r: CreditOutcome)
    requires
        call_ensures(Treasury::classify_prior, (&t, prior), r),
    ensures
        prior.proof@ == vstd::utf8::encode_utf8("credit-terminal-overflow"@) ==> r
            == CreditOutcome::Terminal(prior),
        prior.proof@ != vstd::utf8::encode_utf8("credit-terminal-overflow"@) ==> r
            == CreditOutcome::Duplicate(prior),
{
}

/// The stored balance is eight bytes, the most significant first; anything else is corrupt.
pub proof fn stored_balance_is_eight_bytes(raw: &[u8], r: Result<u64, TreasuryError>)
    requires
        call_ensures(decode_u64, (raw,), r),
    ensures
        r is Ok <==> raw@.len() == 8,
        r matches Ok(n) ==> n == raw@[0] * 0x100_0000_0000_0000 + raw@[1] * 0x1_0000_0000_0000
            + raw@[2] * 0x100_0000_0000 + raw@[3] * 0x1_0000_0000 + raw@[4] * 0x100_0000 + raw@[5]
            * 0x1_0000 + raw@[6] * 0x100 + raw@[7],
        r is Err ==> r->Err_0 is Corrupt,
{
}

/// A lock contention is told by what an I/O fault says, wherever in its message, and by nothing else.
pub proof fn contention_is_told_by_its_message(
    err: TreasuryError,
    r: bool,
    before: Seq<char>,
    after: Seq<char>,
)
    requires
        call_ensures(is_lock_contention, (&err,), r),
    ensures
        err matches TreasuryError::Storage(StorageFault::Io(m)) ==> (m@ == before
            + "could not acquire lock"@ + after ==> r),
        r ==> {
            &&& err matches TreasuryError::Storage(StorageFault::Io(m))
            &&& exists|at: int|
                0 <= at && at + 22 <= m@.len() && #[trigger] m@.subrange(at, at + 22)
                    == "could not acquire lock"@
        },
{
    reveal_strlit("could not acquire lock");
    let needle = "could not acquire lock"@;
    if let TreasuryError::Storage(StorageFault::Io(m)) = err {
        if m@ == before + needle + after {
            let at = before.len() as int;
            assert(m@.subrange(at, at + needle.len()) =~= needle);
            assert(text::occurs_at(m@, needle, at));
        }
        if r {
            let at = choose|at: int| #[trigger] text::occurs_at(m@, needle, at);
            assert(m@.subrange(at, at + 22) == needle);
        }
    }
}

/// A rail is read back from its byte, the two rails have different bytes, neither of them zero, and
/// only an unresolved charge on the Lightning rail is polled.
pub proof fn rails_are_told_apart(
    tag: ChargeMethodTag,
    other: ChargeMethodTag,
    b: u8,
    c: u8,
    back: Option<ChargeMethodTag>,
    resolved: bool,
    polled: bool,
    stray: u8,
    rail: Option<ChargeMethodTag>,
    stray_polled: bool,
)
    requires
        call_ensures(ChargeMethodTag::as_byte, (tag,), b),
        call_ensures(ChargeMethodTag::as_byte, (other,), c),
        call_ensures(ChargeMethodTag::from_byte, (b,), back),
        call_ensures(is_pollable, (b, resolved), polled),
        call_ensures(ChargeMethodTag::from_byte, (stray,), rail),
        call_ensures(is_pollable, (stray, resolved), stray_polled),
    ensures
        back == Some(tag),
        b != 0,
        tag != other ==> b != c,
        tag == ChargeMethodTag::Lightning ==> b == 1 && polled == !resolved,
        tag == ChargeMethodTag::Cashu ==> b == 2 && !polled,
        stray == 0 || stray > 2 ==> rail is None && !stray_polled,
{
}

/// A treasury that nothing persists starts with its seed and nothing else: no act, no credit, no
/// charge, no rent.
pub proof fn temporary_treasury_starts_empty(
    initial_sats: u64,
    t: Treasury,
    remaining: Result<u64, TreasuryError>,
    rent: u64,
    key: Seq<char>,
)
    requires
        call_ensures(Treasury::open_temporary, (initial_sats,), t),
        call_ensures(Treasury::remaining, (&t,), remaining),
        call_ensures(Treasury::rent_sats, (&t,), rent),
    ensures
        remaining == Ok::<u64, TreasuryError>(initial_sats),
        rent == 0,
        !t@.ledger.contains_key(key),
        !t@.credits.contains_key(key),
        !t@.charges.contains_key(key),
{
    stored_balance_round_trip(initial_sats);
}

/// A stored value that writes no balance is reported as corrupt, with its length, and a missing one as
/// missing: no balance is made up for it.
pub proof fn bad_balance_is_named(
    raw: &[u8],
    decoded: Result<u64, TreasuryError>,
    stored: Option<Vec<u8>>,
    current: Result<u64, TreasuryError>,
    t: Treasury,
    remaining: Result<u64, TreasuryError>,
)
    requires
        call_ensures(decode_u64, (raw,), decoded),
        call_ensures(current_balance, (&stored,), current),
        call_ensures(Treasury::remaining, (&t,), remaining),
    ensures
        raw@.len() != 8 <==> decoded is Err,
        raw@.len() != 8 ==> (decoded matches Err(TreasuryError::Corrupt(m)) && m@
            == "expected 8 bytes, got "@ + text::decimal(raw@.len())),
        stored is None ==> (current matches Err(TreasuryError::Corrupt(m)) && m@
            == "balance key missing"@),
        stored matches Some(b) ==> (current is Err <==> b@.len() != 8),
        t@.balance is None ==> (remaining matches Err(TreasuryError::Corrupt(m)) && m@
            == "balance key missing"@),
        t@.balance matches Some(b) ==> (remaining is Err <==> b.len() != 8),
{
}

} // verus!
