//! A table of numbers under a peer, a session and a round.
use vstd::prelude::*;

use crate::text;

verus! {

/// What a row stands under: a peer's key, a session, and a round of it.
pub type SessionKey = (Seq<char>, u64, u8);

/// One row.
struct SessionRow {
    peer: String,
    session: u64,
    round: u8,
    value: u64,
}

impl SessionRow {
    spec fn key(&self) -> SessionKey {
        (self.peer@, self.session, self.round)
    }
}

spec fn distinct(rows: Seq<SessionRow>) -> bool {
    forall|i: int, j: int|
        #![trigger rows[i], rows[j]]
        0 <= i < j < rows.len() ==> rows[i].key() != rows[j].key()
}

spec fn has_row(rows: Seq<SessionRow>, key: SessionKey) -> bool {
    exists|i: int| 0 <= i < rows.len() && (#[trigger] rows[i]).key() == key
}

spec fn row_of(rows: Seq<SessionRow>, key: SessionKey) -> int {
    choose|i: int| 0 <= i < rows.len() && (#[trigger] rows[i]).key() == key
}

spec fn table_of(rows: Seq<SessionRow>) -> Map<SessionKey, u64> {
    Map::new(|key: SessionKey| has_row(rows, key), |key: SessionKey| rows[row_of(rows, key)].value)
}

proof fn lemma_row_is_in_table(rows: Seq<SessionRow>, i: int)
    requires
        distinct(rows),
        0 <= i < rows.len(),
    ensures
        table_of(rows).contains_key(rows[i].key()),
        table_of(rows)[rows[i].key()] == rows[i].value,
{
    assert(has_row(rows, rows[i].key()));
    let j = row_of(rows, rows[i].key());
    assert(rows[j].key() == rows[i].key());
    if i < j {
        assert(rows[i].key() != rows[j].key());
    }
    if j < i {
        assert(rows[j].key() != rows[i].key());
    }
}

/// A table of numbers under a peer, a session and a round.
pub struct SessionTable {
    rows: Vec<SessionRow>,
}

impl View for SessionTable {
    type V = Map<SessionKey, u64>;

    closed spec fn view(&self) -> Map<SessionKey, u64> {
        table_of(self.rows@)
    }
}

/// The rows whose numbers are at least `floor`.
pub open spec fn at_least(table: Map<SessionKey, u64>, floor: int) -> Map<SessionKey, u64> {
    table.restrict(Set::new(|key: SessionKey| table.contains_key(key) && table[key] >= floor))
}

impl SessionTable {
    #[verifier::type_invariant]
    spec fn well_formed(&self) -> bool {
        distinct(self.rows@)
    }

    /// An empty table.
    pub fn new() -> (r: Self)
        ensures
            r@ == Map::<SessionKey, u64>::empty(),
    {
        let r = SessionTable { rows: Vec::new() };
        assert(r@ =~= Map::<SessionKey, u64>::empty());
        r
    }

    fn find(&self, peer: &str, session: u64, round: u8) -> (r: Option<usize>)
        ensures
            r is Some <==> self@.contains_key((peer@, session, round)),
            r matches Some(i) ==> i < self.rows@.len() && self.rows@[i as int].key() == (
                peer@,
                session,
                round,
            ) && self@[(peer@, session, round)] == self.rows@[i as int].value,
    {
        proof {
            use_type_invariant(self);
        }
        let ghost key = (peer@, session, round);
        let mut i: usize = 0;
        while i < self.rows.len()
            invariant
                i <= self.rows@.len(),
                key == (peer@, session, round),
                distinct(self.rows@),
                forall|j: int| 0 <= j < i ==> (#[trigger] self.rows@[j]).key() != key,
            decreases self.rows@.len() - i,
        {
            let row = &self.rows[i];
            if row.session == session && row.round == round && text::str_eq(
                row.peer.as_str(),
                peer,
            ) {
                proof {
                    lemma_row_is_in_table(self.rows@, i as int);
                }
                return Some(i);
            }
            i = i + 1;
        }
        None
    }

    /// The number under a key.
    pub fn get(&self, peer: &str, session: u64, round: u8) -> (r: Option<u64>)
        ensures
            r == if self@.contains_key((peer@, session, round)) {
                Some(self@[(peer@, session, round)])
            } else {
                None
            },
    {
        match self.find(peer, session, round) {
            Some(i) => Some(self.rows[i].value),
            None => None,
        }
    }

    /// Put a number under a key, in place of the one that was there.
    pub fn insert(&mut self, peer: &str, session: u64, round: u8, value: u64)
        ensures
            final(self)@ == old(self)@.insert((peer@, session, round), value),
    {
        self.remove(peer, session, round);
        proof {
            use_type_invariant(&*self);
        }
        let ghost before = self.rows@;
        let ghost key = (peer@, session, round);
        let mut rows: Vec<SessionRow> = Vec::new();
        std::mem::swap(&mut rows, &mut self.rows);
        rows.push(SessionRow { peer: peer.to_owned(), session, round, value });
        proof {
            assert(!has_row(before, key)) by {
                assert(!table_of(before).contains_key(key));
            }
            assert forall|i: int, j: int|
                #![trigger rows@[i], rows@[j]]
                0 <= i < j < rows@.len() implies rows@[i].key() != rows@[j].key() by {
                if j < before.len() {
                    assert(before[i].key() != before[j].key());
                } else {
                    assert(before[i].key() != key);
                }
            }
            lemma_pushed(before, rows@[before.len() as int]);
            assert(rows@ =~= before.push(rows@[before.len() as int]));
            assert(old(self)@.remove(key).insert(key, value) =~= old(self)@.insert(key, value));
        }
        self.rows = rows;
    }

    /// Remove the row under a key, if there is one.
    pub fn remove(&mut self, peer: &str, session: u64, round: u8)
        ensures
            final(self)@ == old(self)@.remove((peer@, session, round)),
    {
        let at = self.find(peer, session, round);
        proof {
            use_type_invariant(&*self);
        }
        match at {
            Some(i) => {
                let ghost before = self.rows@;
                let mut rows: Vec<SessionRow> = Vec::new();
                std::mem::swap(&mut rows, &mut self.rows);
                let _gone = rows.remove(i);
                proof {
                    lemma_removed(before, i as int);
                }
                self.rows = rows;
            },
            None => {
                assert(self@.remove((peer@, session, round)) =~= self@);
            },
        }
    }

    /// Drop the rows whose numbers fall short of `floor`.
    pub fn keep_from(&mut self, floor: u64)
        ensures
            final(self)@ == at_least(old(self)@, floor as int),
    {
        proof {
            use_type_invariant(&*self);
        }
        let ghost all = self.rows@;
        let mut rows: Vec<SessionRow> = Vec::new();
        std::mem::swap(&mut rows, &mut self.rows);
        let mut kept: Vec<SessionRow> = Vec::new();
        let ghost keep = |row: SessionRow| row.value >= floor;
        let mut n: usize = rows.len();
        assert(rows@ =~= all.take(n as int));
        while n > 0
            invariant
                n == rows@.len(),
                n <= all.len(),
                rows@ == all.take(n as int),
                distinct(all),
                distinct(kept@),
                forall|i: int|
                    0 <= i < kept@.len() ==> (#[trigger] kept@[i]).value >= floor && exists|j: int|
                        n <= j < all.len() && #[trigger] all[j] == kept@[i],
                forall|j: int|
                    n <= j < all.len() && (#[trigger] all[j]).value >= floor ==> kept@.contains(
                        all[j],
                    ),
            decreases n,
        {
            let row = rows.pop().unwrap();
            n = n - 1;
            assert(row == all[n as int]);
            assert(rows@ =~= all.take(n as int));
            if row.value >= floor {
                let ghost before = kept@;
                kept.push(row);
                proof {
                    assert(kept@[before.len() as int] == all[n as int]);
                    assert forall|i: int, j: int|
                        #![trigger kept@[i], kept@[j]]
                        0 <= i < j < kept@.len() implies kept@[i].key() != kept@[j].key() by {
                        if j < before.len() {
                            assert(before[i].key() != before[j].key());
                        } else {
                            assert(before[i] == kept@[i]);
                            let k = choose|k: int| n + 1 <= k < all.len() && #[trigger] all[k]
                                == before[i];
                            assert(all[n as int].key() != all[k].key());
                        }
                    }
                    assert forall|j: int|
                        n <= j < all.len() && (#[trigger] all[j]).value >= floor implies kept@.contains(
                        all[j],
                    ) by {
                        if j == n {
                            assert(kept@[before.len() as int] == all[j]);
                        } else {
                            assert(before.contains(all[j]));
                            let k = choose|k: int| 0 <= k < before.len() && before[k] == all[j];
                            assert(kept@[k] == all[j]);
                        }
                    }
                    assert forall|i: int| 0 <= i < kept@.len() implies (
                    #[trigger] kept@[i]).value >= floor && exists|j: int|
                        n <= j < all.len() && #[trigger] all[j] == kept@[i] by {
                        if i < before.len() {
                            assert(before[i] == kept@[i]);
                        } else {
                            assert(all[n as int] == kept@[i]);
                        }
                    }
                }
            }
        }
        proof {
            lemma_kept(all, kept@, floor);
        }
        self.rows = kept;
    }
}

proof fn lemma_pushed(rows: Seq<SessionRow>, row: SessionRow)
    requires
        distinct(rows),
        !has_row(rows, row.key()),
    ensures
        table_of(rows.push(row)) == table_of(rows).insert(row.key(), row.value),
{
    let more = rows.push(row);
    assert(distinct(more)) by {
        assert forall|i: int, j: int|
            #![trigger more[i], more[j]]
            0 <= i < j < more.len() implies more[i].key() != more[j].key() by {
            if j == rows.len() {
                assert(more[i] == rows[i]);
            } else {
                assert(more[i] == rows[i] && more[j] == rows[j]);
            }
        }
    }
    lemma_row_is_in_table(more, rows.len() as int);
    assert forall|key: SessionKey|
        table_of(more).contains_key(key) <==> #[trigger] table_of(rows).insert(
            row.key(),
            row.value,
        ).contains_key(key) by {
        if has_row(more, key) {
            let i = row_of(more, key);
            if i < rows.len() {
                assert(rows[i].key() == key);
            }
        }
        if has_row(rows, key) {
            let i = row_of(rows, key);
            assert(more[i].key() == key);
        }
    }
    assert forall|key: SessionKey| #[trigger]
        table_of(more).contains_key(key) implies table_of(more)[key] == table_of(rows).insert(
        row.key(),
        row.value,
    )[key] by {
        if key != row.key() {
            let i = row_of(more, key);
            assert(more[i].key() == key);
            assert(rows[i] == more[i]);
            lemma_row_is_in_table(rows, i);
            lemma_row_is_in_table(more, i);
        }
    }
    assert(table_of(more) =~= table_of(rows).insert(row.key(), row.value));
}

proof fn lemma_removed(rows: Seq<SessionRow>, at: int)
    requires
        distinct(rows),
        0 <= at < rows.len(),
    ensures
        distinct(rows.remove(at)),
        table_of(rows.remove(at)) == table_of(rows).remove(rows[at].key()),
{
    let rest = rows.remove(at);
    assert forall|i: int, j: int|
        #![trigger rest[i], rest[j]]
        0 <= i < j < rest.len() implies rest[i].key() != rest[j].key() by {
        let a = if i < at {
            i
        } else {
            i + 1
        };
        let b = if j < at {
            j
        } else {
            j + 1
        };
        assert(rows[a].key() != rows[b].key());
    }
    let gone = rows[at].key();
    assert forall|key: SessionKey| #[trigger]
        table_of(rest).contains_key(key) implies table_of(rows).remove(gone).contains_key(key)
        && table_of(rows).remove(gone)[key] == table_of(rest)[key] by {
        let i = row_of(rest, key);
        assert(rest[i].key() == key);
        let a = if i < at {
            i
        } else {
            i + 1
        };
        assert(rows[a] == rest[i]);
        if a < at {
            assert(rows[a].key() != rows[at].key());
        } else {
            assert(rows[at].key() != rows[a].key());
        }
        lemma_row_is_in_table(rows, a);
        lemma_row_is_in_table(rest, i);
    }
    assert forall|key: SessionKey| #[trigger]
        table_of(rows).remove(gone).contains_key(key) implies table_of(rest).contains_key(key) by {
        let a = row_of(rows, key);
        assert(rows[a].key() == key);
        let i = if a < at {
            a
        } else {
            a - 1
        };
        assert(rest[i] == rows[a]);
        assert(has_row(rest, key));
    }
    assert(table_of(rest) =~= table_of(rows).remove(gone));
}

proof fn lemma_kept(all: Seq<SessionRow>, kept: Seq<SessionRow>, floor: u64)
    requires
        distinct(all),
        distinct(kept),
        forall|i: int|
            0 <= i < kept.len() ==> (#[trigger] kept[i]).value >= floor && exists|j: int|
                0 <= j < all.len() && #[trigger] all[j] == kept[i],
        forall|j: int|
            0 <= j < all.len() && (#[trigger] all[j]).value >= floor ==> kept.contains(all[j]),
    ensures
        table_of(kept) == at_least(table_of(all), floor as int),
{
    assert forall|key: SessionKey| #[trigger]
        table_of(kept).contains_key(key) implies table_of(all).contains_key(key) && table_of(
        all,
    )[key] == table_of(kept)[key] && table_of(all)[key] >= floor by {
        let i = row_of(kept, key);
        assert(kept[i].key() == key);
        lemma_row_is_in_table(kept, i);
        let j = choose|j: int| 0 <= j < all.len() && #[trigger] all[j] == kept[i];
        lemma_row_is_in_table(all, j);
    }
    assert forall|key: SessionKey| #[trigger]
        table_of(all).contains_key(key) && table_of(all)[key] >= floor implies table_of(
        kept,
    ).contains_key(key) by {
        let j = row_of(all, key);
        assert(all[j].key() == key);
        lemma_row_is_in_table(all, j);
        assert(kept.contains(all[j]));
        let i = choose|i: int| 0 <= i < kept.len() && kept[i] == all[j];
        assert(kept[i].key() == key);
    }
    assert(table_of(kept) =~= at_least(table_of(all), floor as int));
}

/// A table tells its keys apart by peer, session and round: what is put under one of them is read back
/// there, what is taken away is gone, and every other key keeps its number. Forgetting what is below a
/// floor keeps the rest as it is.
pub proof fn table_tells_its_keys_apart(
    filled: &mut SessionTable,
    emptied: &mut SessionTable,
    floored: &mut SessionTable,
    peer: &str,
    session: u64,
    round: u8,
    value: u64,
    floor: u64,
    other_peer: &str,
    other_session: u64,
    other_round: u8,
    put: Option<u64>,
    other_before: Option<u64>,
    other_after: Option<u64>,
    gone: Option<u64>,
    other_left: Option<u64>,
    floored_other: Option<u64>,
)
    requires
        call_ensures(SessionTable::insert, (filled, peer, session, round, value), ()),
        call_ensures(SessionTable::get, (&*final(filled), peer, session, round), put),
        call_ensures(
            SessionTable::get,
            (&*old(filled), other_peer, other_session, other_round),
            other_before,
        ),
        call_ensures(
            SessionTable::get,
            (&*final(filled), other_peer, other_session, other_round),
            other_after,
        ),
        *final(filled) == *old(emptied),
        call_ensures(SessionTable::remove, (emptied, peer, session, round), ()),
        call_ensures(SessionTable::get, (&*final(emptied), peer, session, round), gone),
        call_ensures(
            SessionTable::get,
            (&*final(emptied), other_peer, other_session, other_round),
            other_left,
        ),
        *old(floored) == *old(filled),
        call_ensures(SessionTable::keep_from, (floored, floor), ()),
        call_ensures(
            SessionTable::get,
            (&*final(floored), other_peer, other_session, other_round),
            floored_other,
        ),
        other_peer@ != peer@ || other_session != session || other_round != round,
    ensures
        put == Some(value),
        other_after == other_before,
        gone is None,
        other_left == other_before,
        other_before is Some && other_before->0 >= floor ==> floored_other == other_before,
        other_before is None || other_before->0 < floor ==> floored_other is None,
{
}

} // verus!
