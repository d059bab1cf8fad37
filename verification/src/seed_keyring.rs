//! Opening a wallet under a lease: gather enough shares of its master seed, while the lease lets
//! them out, and refuse with fewer.
//!
//! How a share's bytes are decoded, and how shares are combined into the wallet's seed, is handed in.
use vstd::prelude::*;
use vstd::string::StringExecFns;

use crate::text;

verus! {

/// How many shares the master seed is rebuilt from.
pub const SEAL_THRESHOLD: usize = 2;

/// Lets shares out while a lease is fresh.
pub trait ShareReconstructor {
    /// Whether `answer` can be the answer to a request for the share with this index: none without a
    /// fresh lease, or where its holder cannot be reached.
    spec fn may_answer(&self, share_index: u8, answer: Option<Seq<u8>>) -> bool;

    /// The bytes of the share with this index, counted from 1.
    fn get_when_lease_fresh(&self, share_index: u8) -> (r: Option<Vec<u8>>)
        ensures
            self.may_answer(
                share_index,
                match r {
                    Some(b) => Some(b@),
                    None => None,
                },
            ),
    ;
}

/// Shares in memory, let out while a flag is set.
#[derive(Debug)]
pub struct InMemoryReconstructor {
    /// Whether the lease is fresh.
    pub fresh: bool,
    /// The shares, each under its index. Of two with one index, the first counts.
    pub shares: Vec<(u8, Vec<u8>)>,
}

/// The first share under `share_index`.
pub open spec fn share_under(shares: Seq<(u8, Vec<u8>)>, share_index: u8) -> Option<Seq<u8>>
    decreases shares.len(),
{
    if shares.len() == 0 {
        None
    } else if shares[0].0 == share_index {
        Some(shares[0].1@)
    } else {
        share_under(shares.skip(1), share_index)
    }
}

impl ShareReconstructor for InMemoryReconstructor {
    open spec fn may_answer(&self, share_index: u8, answer: Option<Seq<u8>>) -> bool {
        answer == if self.fresh {
            share_under(self.shares@, share_index)
        } else {
            None
        }
    }

    fn get_when_lease_fresh(&self, share_index: u8) -> (r: Option<Vec<u8>>) {
        if !self.fresh {
            return None;
        }
        let mut i: usize = 0;
        assert(self.shares@.skip(0) =~= self.shares@);
        while i < self.shares.len()
            invariant
                self.fresh,
                i <= self.shares@.len(),
                share_under(self.shares@, share_index) == share_under(
                    self.shares@.skip(i as int),
                    share_index,
                ),
            decreases self.shares@.len() - i,
        {
            assert(self.shares@.skip(i as int)[0] == self.shares@[i as int]);
            assert(self.shares@.skip(i as int).skip(1) =~= self.shares@.skip(i + 1));
            if self.shares[i].0 == share_index {
                return Some(crate::bytes::copy_bytes(self.shares[i].1.as_slice()));
            }
            i = i + 1;
        }
        None
    }
}

/// The shares among answers, in order.
pub open spec fn shares_among<S>(answers: Seq<Option<S>>) -> Seq<S>
    decreases answers.len(),
{
    if answers.len() == 0 {
        Seq::empty()
    } else {
        match answers.last() {
            Some(s) => shares_among(answers.drop_last()).push(s),
            None => shares_among(answers.drop_last()),
        }
    }
}

/// Too few shares came together: the wallet stays shut.
#[derive(Debug, Clone, Copy, PartialEq, Eq, Structural)]
pub struct TooFewShares {
    pub available: usize,
    pub of: usize,
}

impl TooFewShares {
    /// The refusal as a line of a log.
    pub open spec fn text(&self) -> Seq<char> {
        "reconstruct-on-lease: only "@ + text::decimal(self.available as nat) + " of "@
            + text::decimal(self.of as nat) + " shares available, need "@ + text::decimal(
            SEAL_THRESHOLD as nat,
        ) + " (no fresh lease, or too few holders reachable) — refusing to open the wallet"@
    }

    /// The refusal as a line of a log.
    pub fn message(&self) -> (r: String)
        ensures
            r@ == self.text(),
    {
        let mut s = "reconstruct-on-lease: only ".to_owned();
        text::append_decimal(&mut s, self.available as u64);
        s.append(" of ");
        text::append_decimal(&mut s, self.of as u64);
        s.append(" shares available, need ");
        text::append_decimal(&mut s, SEAL_THRESHOLD as u64);
        s.append(" (no fresh lease, or too few holders reachable) — refusing to open the wallet");
        s
    }
}

/// Why a wallet stays shut.
#[derive(Debug)]
pub enum WalletSeedError {
    TooFew(TooFewShares),
    /// The gathered shares do not combine.
    Unopened(String),
}

impl WalletSeedError {
    /// The error as a line of a log.
    pub fn message(&self) -> (r: String)
        ensures
            r@ == match self {
                WalletSeedError::TooFew(t) => t.text(),
                WalletSeedError::Unopened(e) => {
                    "reconstruct master seed from lease-gated shares: "@ + e@
                },
            },
    {
        match self {
            WalletSeedError::TooFew(t) => t.message(),
            WalletSeedError::Unopened(e) => {
                let mut s = "reconstruct master seed from lease-gated shares: ".to_owned();
                s.append(e.as_str());
                s
            },
        }
    }
}

/// Whether `usable` can come of asking `source` for a share: what it answered, decoded.
pub open spec fn can_come_back<R: ShareReconstructor, S, D: Fn(Vec<u8>) -> Option<S>>(
    source: R,
    share_index: u8,
    decode: D,
    usable: Option<S>,
) -> bool {
    ||| source.may_answer(share_index, None) && usable is None
    ||| exists|bytes: Vec<u8>|
        source.may_answer(share_index, Some(bytes@)) && #[trigger] call_ensures(
            decode,
            (bytes,),
            usable,
        )
}

/// Whether `answers` can come of asking `source` for the shares with these indices, in order, until
/// enough are together.
pub open spec fn can_gather<R: ShareReconstructor, S, D: Fn(Vec<u8>) -> Option<S>>(
    source: R,
    indices: Seq<u8>,
    decode: D,
    answers: Seq<Option<S>>,
) -> bool {
    &&& answers.len() <= indices.len()
    &&& forall|i: int|
        0 <= i < answers.len() ==> can_come_back(source, indices[i], decode, #[trigger] answers[i])
    &&& forall|n: int|
        0 <= n < answers.len() ==> shares_among(#[trigger] answers.take(n)).len() < SEAL_THRESHOLD
}

/// Opens a wallet from shares that a lease lets out.
pub struct KeyringWalletSeed<R> {
    share_indices: Vec<u8>,
    reconstructor: R,
}

impl<R: ShareReconstructor> KeyringWalletSeed<R> {
    /// The indices to try.
    pub closed spec fn indices(&self) -> Seq<u8> {
        self.share_indices@
    }

    /// What lets the shares out.
    pub closed spec fn source(&self) -> R {
        self.reconstructor
    }

    /// A keyring over the shares with these indices.
    pub fn new(share_indices: Vec<u8>, reconstructor: R) -> (r: Self)
        ensures
            r.indices() == share_indices@,
            r.source() == reconstructor,
    {
        KeyringWalletSeed { share_indices, reconstructor }
    }

    /// Gather shares under the lease, in the order of the indices, until enough are together. An
    /// index whose share is not let out, or does not decode, is passed over.
    pub fn gather<S, D: Fn(Vec<u8>) -> Option<S>>(&self, decode: &D) -> (r: Result<
        Vec<S>,
        TooFewShares,
    >)
        requires
            forall|bytes: Vec<u8>| call_requires(*decode, (bytes,)),
        ensures
            exists|answers: Seq<Option<S>>| #[trigger]
                can_gather(self.source(), self.indices(), *decode, answers) && match r {
                    Ok(shares) => shares@ == shares_among(answers) && shares@.len()
                        == SEAL_THRESHOLD,
                    Err(e) => {
                        &&& answers.len() == self.indices().len()
                        &&& shares_among(answers).len() < SEAL_THRESHOLD
                        &&& e.available == shares_among(answers).len()
                        &&& e.of == self.indices().len()
                    },
                },
    {
        let mut shares: Vec<S> = Vec::new();
        let ghost mut answers: Seq<Option<S>> = Seq::empty();
        let mut i: usize = 0;
        while i < self.share_indices.len() && shares.len() < SEAL_THRESHOLD
            invariant
                i <= self.share_indices@.len(),
                answers.len() == i,
                shares@ == shares_among(answers),
                shares@.len() <= SEAL_THRESHOLD,
                can_gather(self.reconstructor, self.share_indices@, *decode, answers),
                forall|bytes: Vec<u8>| call_requires(*decode, (bytes,)),
            decreases self.share_indices@.len() - i,
        {
            let share_index: u8 = self.share_indices[i];
            let usable = match self.reconstructor.get_when_lease_fresh(share_index) {
                Some(bytes) => decode(bytes),
                None => None,
            };
            assert(can_come_back(self.reconstructor, share_index, *decode, usable));
            proof {
                let before = answers;
                answers = before.push(usable);
                assert(answers.drop_last() =~= before);
                assert forall|k: int| 0 <= k < answers.len() implies can_come_back(
                    self.reconstructor,
                    self.share_indices@[k],
                    *decode,
                    #[trigger] answers[k],
                ) by {
                    if k < before.len() {
                        assert(answers[k] == before[k]);
                    }
                }
                assert forall|n: int| 0 <= n < answers.len() implies shares_among(
                    #[trigger] answers.take(n),
                ).len() < SEAL_THRESHOLD by {
                    if n < before.len() {
                        assert(answers.take(n) =~= before.take(n));
                    } else {
                        assert(answers.take(n) =~= before);
                    }
                }
            }
            match usable {
                Some(s) => shares.push(s),
                None => {},
            }
            i = i + 1;
        }
        assert(can_gather(self.source(), self.indices(), *decode, answers));
        if shares.len() < SEAL_THRESHOLD {
            return Err(TooFewShares { available: shares.len(), of: self.share_indices.len() });
        }
        Ok(shares)
    }

    /// The wallet's seed: the gathered shares, combined by `open`. With too few shares nothing is
    /// combined.
    pub fn wallet_seed<S, D: Fn(Vec<u8>) -> Option<S>, O: FnOnce(Vec<S>) -> Result<[u8; 64], String>>(
        &self,
        decode: D,
        open: O,
    ) -> (r: Result<[u8; 64], WalletSeedError>)
        requires
            forall|bytes: Vec<u8>| call_requires(decode, (bytes,)),
            forall|shares: Vec<S>|
                shares@.len() == SEAL_THRESHOLD ==> call_requires(open, (shares,)),
        ensures
            match r {
                Ok(seed) => self.combined(decode, open, Ok(seed)),
                Err(WalletSeedError::Unopened(e)) => self.combined(decode, open, Err(e)),
                Err(WalletSeedError::TooFew(t)) => self.fell_short::<S, D>(decode, t),
            },
    {
        match self.gather(&decode) {
            Ok(shares) => match open(shares) {
                Ok(seed) => Ok(seed),
                Err(e) => Err(WalletSeedError::Unopened(e)),
            },
            Err(t) => Err(WalletSeedError::TooFew(t)),
        }
    }

    /// Whether `outcome` can come of combining shares that can be gathered.
    pub open spec fn combined<
        S,
        D: Fn(Vec<u8>) -> Option<S>,
        O: FnOnce(Vec<S>) -> Result<[u8; 64], String>,
    >(&self, decode: D, open: O, outcome: Result<[u8; 64], String>) -> bool {
        exists|answers: Seq<Option<S>>, shares: Vec<S>|
            {
                &&& #[trigger] can_gather(self.source(), self.indices(), decode, answers)
                &&& shares@ == shares_among(answers)
                &&& shares@.len() == SEAL_THRESHOLD
                &&& #[trigger] call_ensures(open, (shares,), outcome)
            }
    }

    /// Whether all shares can be asked for and `t` be all that comes of it.
    pub open spec fn fell_short<S, D: Fn(Vec<u8>) -> Option<S>>(
        &self,
        decode: D,
        t: TooFewShares,
    ) -> bool {
        exists|answers: Seq<Option<S>>|
            {
                &&& #[trigger] can_gather(self.source(), self.indices(), decode, answers)
                &&& answers.len() == self.indices().len()
                &&& t.available == shares_among(answers).len()
                &&& t.available < SEAL_THRESHOLD
                &&& t.of == self.indices().len()
            }
    }
}

/// No lease, no wallet: where the source lets no share out, no seed comes of the keyring, and nothing
/// is combined.
pub proof fn no_lease_opens_no_wallet<
    R: ShareReconstructor,
    S,
    D: Fn(Vec<u8>) -> Option<S>,
    O: FnOnce(Vec<S>) -> Result<[u8; 64], String>,
>(keyring: KeyringWalletSeed<R>, decode: D, open: O, outcome: Result<[u8; 64], String>)
    requires
        forall|i: int, answer: Option<Seq<u8>>|
            0 <= i < keyring.indices().len() && #[trigger] keyring.source().may_answer(
                keyring.indices()[i],
                answer,
            ) ==> answer is None,
    ensures
        !keyring.combined(decode, open, outcome),
{
    if keyring.combined(decode, open, outcome) {
        let (answers, shares): (Seq<Option<S>>, Vec<S>) = choose|
            answers: Seq<Option<S>>,
            shares: Vec<S>,
        |
            {
                &&& #[trigger] can_gather(keyring.source(), keyring.indices(), decode, answers)
                &&& shares@ == shares_among(answers)
                &&& shares@.len() == SEAL_THRESHOLD
                &&& #[trigger] call_ensures(open, (shares,), outcome)
            };
        assert forall|i: int| 0 <= i < answers.len() implies (#[trigger] answers[i]) is None by {
            assert(can_come_back(keyring.source(), keyring.indices()[i], decode, answers[i]));
        }
        lemma_nothing_usable(answers);
    }
}

proof fn lemma_nothing_usable<S>(answers: Seq<Option<S>>)
    requires
        forall|i: int| 0 <= i < answers.len() ==> (#[trigger] answers[i]) is None,
    ensures
        shares_among(answers).len() == 0,
    decreases answers.len(),
{
    if answers.len() > 0 {
        assert(answers[answers.len() - 1] is None);
        assert forall|i: int| 0 <= i < answers.drop_last().len() implies (
        #[trigger] answers.drop_last()[i]) is None by {
            assert(answers[i] is None);
        }
        lemma_nothing_usable(answers.drop_last());
    }
}

/// Any two shares suffice: where usable shares came back for two indices, enough are together.
pub proof fn threshold_of_shares_suffices<S>(answers: Seq<Option<S>>, i: int, j: int)
    requires
        0 <= i < j < answers.len(),
        answers[i] is Some,
        answers[j] is Some,
    ensures
        shares_among(answers).len() >= SEAL_THRESHOLD,
    decreases answers.len(),
{
    let init = answers.drop_last();
    if j < answers.len() - 1 {
        assert(init[i] == answers[i] && init[j] == answers[j]);
        threshold_of_shares_suffices(init, i, j);
    } else {
        lemma_a_share_counts(init, i);
    }
}

proof fn lemma_a_share_counts<S>(answers: Seq<Option<S>>, i: int)
    requires
        0 <= i < answers.len(),
        answers[i] is Some,
    ensures
        shares_among(answers).len() >= 1,
    decreases answers.len(),
{
    if i < answers.len() - 1 {
        assert(answers.drop_last()[i] == answers[i]);
        lemma_a_share_counts(answers.drop_last(), i);
    }
}

/// No share beyond the threshold leaves its holder: what is gathered is never more.
pub proof fn gathering_stops_at_the_threshold<
    R: ShareReconstructor,
    S,
    D: Fn(Vec<u8>) -> Option<S>,
>(source: R, indices: Seq<u8>, decode: D, answers: Seq<Option<S>>)
    requires
        can_gather(source, indices, decode, answers),
    ensures
        shares_among(answers).len() <= SEAL_THRESHOLD,
{
    if answers.len() > 0 {
        assert(answers.take(answers.len() - 1) =~= answers.drop_last());
    }
}

// ---------------------------------------------------------------------------------------------
// What the calls come to
// ---------------------------------------------------------------------------------------------
/// What is let out from memory: under a fresh lease the first share of the index, whole, and without
/// one nothing.
pub proof fn fresh_lease_lets_the_asked_share_out(
    source: InMemoryReconstructor,
    share_index: u8,
    r: Option<Vec<u8>>,
    i: int,
)
    requires
        call_ensures(
            <InMemoryReconstructor as ShareReconstructor>::get_when_lease_fresh,
            (&source, share_index),
            r,
        ),
        0 <= i < source.shares@.len(),
        forall|j: int| 0 <= j < i ==> (#[trigger] source.shares@[j]).0 != share_index,
    ensures
        !source.fresh ==> r is None,
        source.fresh && source.shares@[i].0 == share_index ==> r is Some && r->0@
            == source.shares@[i].1@,
        r is Some ==> source.fresh,
{
    lemma_first_under(source.shares@, share_index, i);
}

proof fn lemma_first_under(shares: Seq<(u8, Vec<u8>)>, share_index: u8, i: int)
    requires
        0 <= i < shares.len(),
        forall|j: int| 0 <= j < i ==> (#[trigger] shares[j]).0 != share_index,
    ensures
        shares[i].0 == share_index ==> share_under(shares, share_index) == Some(shares[i].1@),
    decreases shares.len(),
{
    if i > 0 {
        let rest = shares.skip(1);
        assert(shares[0].0 != share_index);
        assert forall|j: int| 0 <= j < i - 1 implies (#[trigger] rest[j]).0 != share_index by {
            assert(rest[j] == shares[j + 1]);
        }
        lemma_first_under(rest, share_index, i - 1);
        assert(rest[i - 1] == shares[i]);
    }
}

proof fn lemma_share_was_answered<S>(answers: Seq<Option<S>>, k: int) -> (i: int)
    requires
        0 <= k < shares_among(answers).len(),
    ensures
        0 <= i < answers.len(),
        answers[i] == Some(shares_among(answers)[k]),
    decreases answers.len(),
{
    let init = answers.drop_last();
    if answers.last() is Some && k == shares_among(answers).len() - 1 {
        answers.len() - 1
    } else {
        let i = lemma_share_was_answered(init, k);
        assert(init[i] == answers[i]);
        i
    }
}

/// What is gathered: exactly two shares, each of them decoded from what was let out for one of the
/// keyring's indices; or fewer than two came together, of as many as there are indices.
pub proof fn gathered_shares_were_let_out<R: ShareReconstructor, S, D: Fn(Vec<u8>) -> Option<S>>(
    keyring: KeyringWalletSeed<R>,
    decode: D,
    r: Result<Vec<S>, TooFewShares>,
    k: int,
)
    requires
        call_ensures(KeyringWalletSeed::<R>::gather::<S, D>, (&keyring, &decode), r),
    ensures
        r matches Ok(shares) ==> shares@.len() == 2,
        r matches Err(t) ==> t.available < 2 && t.of == keyring.indices().len(),
        r is Ok && 0 <= k < 2 ==> exists|i: int, bytes: Vec<u8>|
            {
                &&& 0 <= i < keyring.indices().len()
                &&& #[trigger] keyring.source().may_answer(
                    keyring.indices()[i],
                    Some(bytes@),
                )
                &&& call_ensures(decode, (bytes,), Some(r->Ok_0@[k]))
            },
{
    let answers = choose|answers: Seq<Option<S>>| #[trigger]
        can_gather(keyring.source(), keyring.indices(), decode, answers) && match r {
            Ok(shares) => shares@ == shares_among(answers) && shares@.len() == SEAL_THRESHOLD,
            Err(e) => {
                &&& answers.len() == keyring.indices().len()
                &&& shares_among(answers).len() < SEAL_THRESHOLD
                &&& e.available == shares_among(answers).len()
                &&& e.of == keyring.indices().len()
            },
        };
    if r is Ok && 0 <= k < 2 {
        let i = lemma_share_was_answered(answers, k);
        assert(can_come_back(keyring.source(), keyring.indices()[i], decode, answers[i]));
        let bytes = choose|bytes: Vec<u8>|
            keyring.source().may_answer(keyring.indices()[i], Some(bytes@))
                && #[trigger] call_ensures(decode, (bytes,), answers[i]);
        assert(keyring.source().may_answer(keyring.indices()[i], Some(bytes@)));
    }
}

/// Two shares open the wallet: where a fresh lease lets shares out for two of the keyring's indices, and
/// whatever is let out decodes, enough are gathered and handed over to be combined, and what they
/// combine to is the result. Without a fresh lease nothing is combined.
pub proof fn wallet_opens_under_a_fresh_lease_only<
    S,
    D: Fn(Vec<u8>) -> Option<S>,
    O: FnOnce(Vec<S>) -> Result<[u8; 64], String>,
>(
    keyring: KeyringWalletSeed<InMemoryReconstructor>,
    decode: D,
    open: O,
    r: Result<[u8; 64], WalletSeedError>,
    i: int,
    j: int,
)
    requires
        call_ensures(
            KeyringWalletSeed::<InMemoryReconstructor>::wallet_seed::<S, D, O>,
            (&keyring, decode, open),
            r,
        ),
        forall|bytes: Vec<u8>, s: Option<S>| #[trigger]
            call_ensures(decode, (bytes,), s) ==> s is Some,
        0 <= i < j < keyring.indices().len(),
        share_under(keyring.source().shares@, keyring.indices()[i]) is Some,
        share_under(keyring.source().shares@, keyring.indices()[j]) is Some,
    ensures
        keyring.source().fresh ==> !(r matches Err(WalletSeedError::TooFew(_))),
        !keyring.source().fresh ==> (r matches Err(WalletSeedError::TooFew(t)) && t.available == 0
            && t.of == keyring.indices().len()),
{
    if keyring.source().fresh {
        if r matches Err(WalletSeedError::TooFew(t)) {
            let t = r->Err_0->TooFew_0;
            let answers = choose|answers: Seq<Option<S>>|
                {
                    &&& #[trigger] can_gather(keyring.source(), keyring.indices(), decode, answers)
                    &&& answers.len() == keyring.indices().len()
                    &&& shares_among(answers).len() < SEAL_THRESHOLD
                    &&& t.available == shares_among(answers).len()
                    &&& t.of == keyring.indices().len()
                };
            assert(can_come_back(keyring.source(), keyring.indices()[i], decode, answers[i]));
            assert(can_come_back(keyring.source(), keyring.indices()[j], decode, answers[j]));
            threshold_of_shares_suffices(answers, i, j);
        }
    } else {
        match r {
            Ok(seed) => {
                no_lease_opens_no_wallet(keyring, decode, open, Ok(seed));
            },
            Err(WalletSeedError::Unopened(e)) => {
                no_lease_opens_no_wallet(keyring, decode, open, Err(e));
            },
            Err(WalletSeedError::TooFew(t)) => {
                let answers = choose|answers: Seq<Option<S>>|
                    {
                        &&& #[trigger] can_gather(
                            keyring.source(),
                            keyring.indices(),
                            decode,
                            answers,
                        )
                        &&& answers.len() == keyring.indices().len()
                        &&& shares_among(answers).len() < SEAL_THRESHOLD
                        &&& t.available == shares_among(answers).len()
                        &&& t.of == keyring.indices().len()
                    };
                assert forall|k: int| 0 <= k < answers.len() implies (#[trigger] answers[k])
                    is None by {
                    assert(can_come_back(
                        keyring.source(),
                        keyring.indices()[k],
                        decode,
                        answers[k],
                    ));
                }
                lemma_nothing_usable(answers);
            },
        }
    }
}

/// A wallet that stays shut for want of shares says how many there were, of how many, and that two are
/// needed.
pub proof fn shut_wallet_says_what_it_lacks(few: TooFewShares, r: String)
    requires
        call_ensures(TooFewShares::message, (&few,), r),
    ensures
        r@ == "reconstruct-on-lease: only "@ + text::decimal(few.available as nat) + " of "@
            + text::decimal(few.of as nat) + " shares available, need "@ + text::decimal(2)
            + " (no fresh lease, or too few holders reachable) — refusing to open the wallet"@,
{
}

} // verus!
