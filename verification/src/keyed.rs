//! An ordered table of rows keyed by text: at most one row per key, rows in key order.
use vstd::prelude::*;

use crate::text;

verus! {

/// How two keys stand to each other.
#[derive(Debug, Clone, Copy, PartialEq, Eq, Structural)]
pub enum KeyOrder {
    Before,
    Same,
    After,
}

/// Whether key `a` comes before key `b`: character by character, a proper prefix first.
pub open spec fn key_before(a: Seq<char>, b: Seq<char>) -> bool
    decreases a.len(),
{
    if b.len() == 0 {
        false
    } else if a.len() == 0 {
        true
    } else if a[0] != b[0] {
        (a[0] as int) < (b[0] as int)
    } else {
        key_before(a.skip(1), b.skip(1))
    }
}

/// The key order is total: of two different keys exactly one comes first.
pub proof fn key_order_is_total(a: Seq<char>, b: Seq<char>)
    ensures
        a == b ==> !key_before(a, b),
        a != b ==> (key_before(a, b) <==> !key_before(b, a)),
    decreases a.len(),
{
    if a.len() > 0 && b.len() > 0 {
        if a[0] == b[0] {
            key_order_is_total(a.skip(1), b.skip(1));
            if a.skip(1) == b.skip(1) {
                assert(a =~= seq![a[0]] + a.skip(1));
                assert(b =~= seq![b[0]] + b.skip(1));
            }
        }
    } else if a.len() == 0 && b.len() == 0 {
        assert(a =~= b);
    }
}

/// The key order is transitive.
pub proof fn key_order_is_transitive(a: Seq<char>, b: Seq<char>, c: Seq<char>)
    requires
        key_before(a, b),
        key_before(b, c),
    ensures
        key_before(a, c),
    decreases a.len(),
{
    if a.len() > 0 && b.len() > 0 && c.len() > 0 {
        if a[0] == b[0] && b[0] == c[0] {
            key_order_is_transitive(a.skip(1), b.skip(1), c.skip(1));
        }
    }
}

/// Compare two keys.
pub fn key_order(a: &str, b: &str) -> (r: KeyOrder)
    ensures
        r == if a@ == b@ {
            KeyOrder::Same
        } else if key_before(a@, b@) {
            KeyOrder::Before
        } else {
            KeyOrder::After
        },
{
    let x = text::chars_of(a);
    let y = text::chars_of(b);
    let mut i: usize = 0;
    assert(x@.skip(0) =~= a@);
    assert(y@.skip(0) =~= b@);
    while i < x.len() && i < y.len() && x[i] == y[i]
        invariant
            x@ == a@,
            y@ == b@,
            i <= x@.len(),
            i <= y@.len(),
            forall|k: int| 0 <= k < i ==> x@[k] == y@[k],
            key_before(a@, b@) == key_before(x@.skip(i as int), y@.skip(i as int)),
        decreases x@.len() - i,
    {
        assert(x@.skip(i as int).skip(1) =~= x@.skip(i + 1));
        assert(y@.skip(i as int).skip(1) =~= y@.skip(i + 1));
        i = i + 1;
    }
    if i == x.len() && i == y.len() {
        assert(a@ =~= b@);
        KeyOrder::Same
    } else if i == y.len() {
        assert(a@.len() != b@.len());
        KeyOrder::After
    } else if i == x.len() {
        assert(a@.len() != b@.len());
        KeyOrder::Before
    } else {
        assert(a@[i as int] != b@[i as int]);
        assert(x@.skip(i as int)[0] == x@[i as int]);
        assert(y@.skip(i as int)[0] == y@[i as int]);
        let p: char = x[i];
        let q: char = y[i];
        if p < q {
            KeyOrder::Before
        } else {
            KeyOrder::After
        }
    }
}

/// A row of a table.
#[derive(Debug)]
pub struct Row<V> {
    pub key: String,
    pub value: V,
}

/// Whether the keys of `rows` stand in strict key order.
pub open spec fn in_key_order<V>(rows: Seq<Row<V>>) -> bool {
    forall|i: int, j: int|
        #![trigger rows[i], rows[j]]
        0 <= i < j < rows.len() ==> key_before(rows[i].key@, rows[j].key@)
}

/// Whether `rows` holds a row for `key`.
pub open spec fn has_key<V>(rows: Seq<Row<V>>, key: Seq<char>) -> bool {
    exists|i: int| 0 <= i < rows.len() && (#[trigger] rows[i]).key@ == key
}

/// The position of the row for `key`.
pub open spec fn position_of<V>(rows: Seq<Row<V>>, key: Seq<char>) -> int {
    choose|i: int| 0 <= i < rows.len() && (#[trigger] rows[i]).key@ == key
}

/// The mapping from keys to values that `rows` stands for.
pub open spec fn as_map<V>(rows: Seq<Row<V>>) -> Map<Seq<char>, V> {
    Map::new(
        |key: Seq<char>| has_key(rows, key),
        |key: Seq<char>| rows[position_of(rows, key)].value,
    )
}

/// An ordered table keyed by text.
#[derive(Debug)]
pub struct KeyedRows<V> {
    rows: Vec<Row<V>>,
}

impl<V> View for KeyedRows<V> {
    type V = Map<Seq<char>, V>;

    closed spec fn view(&self) -> Map<Seq<char>, V> {
        as_map(self.rows@)
    }
}

/// In an ordered table, the row at `i` is what its key maps to.
proof fn lemma_row_is_mapped<V>(rows: Seq<Row<V>>, i: int)
    requires
        in_key_order(rows),
        0 <= i < rows.len(),
    ensures
        as_map(rows).contains_key(rows[i].key@),
        as_map(rows)[rows[i].key@] == rows[i].value,
        position_of(rows, rows[i].key@) == i,
{
    let key = rows[i].key@;
    assert(has_key(rows, key));
    let p = position_of(rows, key);
    assert(0 <= p < rows.len() && rows[p].key@ == key);
    if p < i {
        assert(key_before(rows[p].key@, rows[i].key@));
        key_order_is_total(key, key);
    } else if i < p {
        assert(key_before(rows[i].key@, rows[p].key@));
        key_order_is_total(key, key);
    }
}

/// Putting a row at its place in the order adds it to the mapping.
proof fn lemma_insert_row<V>(rows: Seq<Row<V>>, at: int, row: Row<V>)
    requires
        in_key_order(rows),
        0 <= at <= rows.len(),
        forall|i: int| 0 <= i < at ==> key_before((#[trigger] rows[i]).key@, row.key@),
        forall|i: int| at <= i < rows.len() ==> key_before(row.key@, (#[trigger] rows[i]).key@),
    ensures
        in_key_order(rows.insert(at, row)),
        !has_key(rows, row.key@),
        as_map(rows.insert(at, row)) == as_map(rows).insert(row.key@, row.value),
{
    let after = rows.insert(at, row);
    assert forall|i: int, j: int|
        #![trigger after[i], after[j]]
        0 <= i < j < after.len() implies key_before(after[i].key@, after[j].key@) by {
        let a = if i < at {
            rows[i]
        } else if i == at {
            row
        } else {
            rows[i - 1]
        };
        let b = if j < at {
            rows[j]
        } else if j == at {
            row
        } else {
            rows[j - 1]
        };
        assert(after[i] == a);
        assert(after[j] == b);
    }
    if has_key(rows, row.key@) {
        let p = position_of(rows, row.key@);
        assert(rows[p].key@ == row.key@);
        key_order_is_total(row.key@, row.key@);
        assert(false);
    }
    assert forall|key: Seq<char>| has_key(after, key) == (has_key(rows, key) || key == row.key@) by {
        if has_key(rows, key) {
            let p = position_of(rows, key);
            let q = if p < at {
                p
            } else {
                p + 1
            };
            assert(after[q].key@ == key);
        }
        if key == row.key@ {
            assert(after[at].key@ == key);
        }
        if has_key(after, key) && key != row.key@ {
            let q = position_of(after, key);
            let p = if q < at {
                q
            } else {
                q - 1
            };
            assert(rows[p].key@ == key);
        }
    }
    assert forall|key: Seq<char>| #[trigger] has_key(after, key) implies as_map(after)[key] == as_map(
        rows,
    ).insert(row.key@, row.value)[key] by {
        let q = position_of(after, key);
        lemma_row_is_mapped(after, q);
        if key == row.key@ {
            lemma_row_is_mapped(after, at);
        } else {
            let p = if q < at {
                q
            } else {
                q - 1
            };
            assert(rows[p] == after[q]);
            lemma_row_is_mapped(rows, p);
        }
    }
    assert(as_map(after) =~= as_map(rows).insert(row.key@, row.value));
}

/// Replacing the value of a row replaces it in the mapping.
proof fn lemma_replace_row<V>(rows: Seq<Row<V>>, at: int, row: Row<V>)
    requires
        in_key_order(rows),
        0 <= at < rows.len(),
        row.key@ == rows[at].key@,
    ensures
        in_key_order(rows.update(at, row)),
        as_map(rows.update(at, row)) == as_map(rows).insert(row.key@, row.value),
{
    let after = rows.update(at, row);
    assert forall|i: int, j: int|
        #![trigger after[i], after[j]]
        0 <= i < j < after.len() implies key_before(after[i].key@, after[j].key@) by {
        assert(key_before(rows[i].key@, rows[j].key@));
    }
    assert forall|key: Seq<char>| has_key(after, key) == has_key(rows, key) by {
        if has_key(rows, key) {
            let p = position_of(rows, key);
            assert(after[p].key@ == key);
        }
        if has_key(after, key) {
            let q = position_of(after, key);
            assert(rows[q].key@ == key);
        }
    }
    assert(has_key(rows, row.key@)) by {
        assert(rows[at].key@ == row.key@);
    }
    assert forall|key: Seq<char>| #[trigger] has_key(after, key) implies as_map(after)[key] == as_map(
        rows,
    ).insert(row.key@, row.value)[key] by {
        let q = position_of(after, key);
        lemma_row_is_mapped(after, q);
        lemma_row_is_mapped(after, at);
        if key != row.key@ {
            assert(rows[q] == after[q]);
            lemma_row_is_mapped(rows, q);
        }
    }
    assert(as_map(after) =~= as_map(rows).insert(row.key@, row.value));
}

/// Taking a row out removes its key from the mapping.
proof fn lemma_remove_row<V>(rows: Seq<Row<V>>, at: int)
    requires
        in_key_order(rows),
        0 <= at < rows.len(),
    ensures
        in_key_order(rows.remove(at)),
        as_map(rows.remove(at)) == as_map(rows).remove(rows[at].key@),
{
    let after = rows.remove(at);
    let gone = rows[at].key@;
    assert forall|i: int, j: int|
        #![trigger after[i], after[j]]
        0 <= i < j < after.len() implies key_before(after[i].key@, after[j].key@) by {
        let p = if i < at {
            i
        } else {
            i + 1
        };
        let q = if j < at {
            j
        } else {
            j + 1
        };
        assert(after[i] == rows[p]);
        assert(after[j] == rows[q]);
    }
    assert forall|key: Seq<char>| has_key(after, key) == (has_key(rows, key) && key != gone) by {
        if has_key(rows, key) && key != gone {
            let p = position_of(rows, key);
            let q = if p < at {
                p
            } else {
                p - 1
            };
            assert(after[q].key@ == key);
        }
        if has_key(after, key) {
            let q = position_of(after, key);
            let p = if q < at {
                q
            } else {
                q + 1
            };
            assert(rows[p].key@ == key);
            if p < at {
                assert(key_before(rows[p].key@, rows[at].key@));
            } else {
                assert(key_before(rows[at].key@, rows[p].key@));
            }
            key_order_is_total(gone, gone);
        }
    }
    assert forall|key: Seq<char>| #[trigger] has_key(after, key) implies as_map(after)[key] == as_map(
        rows,
    ).remove(gone)[key] by {
        let q = position_of(after, key);
        let p = if q < at {
            q
        } else {
            q + 1
        };
        assert(after[q] == rows[p]);
        lemma_row_is_mapped(after, q);
        lemma_row_is_mapped(rows, p);
    }
    assert(as_map(after) =~= as_map(rows).remove(gone));
}

/// Where `key` stands in an ordered table: its row, or the place a new row belongs.
fn locate<V>(rows: &Vec<Row<V>>, key: &str) -> (r: (usize, bool))
    requires
        in_key_order(rows@),
    ensures
        r.0 <= rows@.len(),
        r.1 ==> r.0 < rows@.len() && rows@[r.0 as int].key@ == key@,
        !r.1 ==> !has_key(rows@, key@) && (forall|i: int|
            0 <= i < r.0 ==> key_before((#[trigger] rows@[i]).key@, key@)) && (forall|i: int|
            r.0 <= i < rows@.len() ==> key_before(key@, (#[trigger] rows@[i]).key@)),
{
    let mut i: usize = 0;
    while i < rows.len()
        invariant
            in_key_order(rows@),
            i <= rows@.len(),
            forall|k: int| 0 <= k < i ==> key_before((#[trigger] rows@[k]).key@, key@),
        decreases rows@.len() - i,
    {
        match key_order(rows[i].key.as_str(), key) {
            KeyOrder::Same => {
                return (i, true);
            },
            KeyOrder::Before => {
                i = i + 1;
            },
            KeyOrder::After => {
                proof {
                    key_order_is_total(rows@[i as int].key@, key@);
                    assert forall|k: int| i <= k < rows@.len() implies key_before(
                        key@,
                        (#[trigger] rows@[k]).key@,
                    ) by {
                        if k > i {
                            assert(key_before(rows@[i as int].key@, rows@[k].key@));
                            key_order_is_transitive(key@, rows@[i as int].key@, rows@[k].key@);
                        }
                    }
                    if has_key(rows@, key@) {
                        key_order_is_total(key@, key@);
                    }
                }
                return (i, false);
            },
        }
    }
    proof {
        if has_key(rows@, key@) {
            key_order_is_total(key@, key@);
        }
    }
    (i, false)
}

impl<V> KeyedRows<V> {
    #[verifier::type_invariant]
    spec fn ordered(&self) -> bool {
        in_key_order(self.rows@)
    }

    /// The rows in key order.
    pub closed spec fn rows(&self) -> Seq<Row<V>> {
        self.rows@
    }

    /// An empty table.
    pub fn new() -> (r: Self)
        ensures
            r@ == Map::<Seq<char>, V>::empty(),
            r.rows().len() == 0,
    {
        let r = KeyedRows { rows: Vec::new() };
        assert(r@ =~= Map::<Seq<char>, V>::empty());
        r
    }

    /// The value under `key`.
    pub fn get(&self, key: &str) -> (r: Option<&V>)
        ensures
            r is Some <==> self@.contains_key(key@),
            r matches Some(v) ==> *v == self@[key@],
    {
        proof {
            use_type_invariant(self);
        }
        let (at, found) = locate(&self.rows, key);
        if found {
            proof {
                lemma_row_is_mapped(self.rows@, at as int);
            }
            Some(&self.rows[at].value)
        } else {
            None
        }
    }

    /// Whether there is a row under `key`.
    pub fn contains(&self, key: &str) -> (r: bool)
        ensures
            r == self@.contains_key(key@),
    {
        self.get(key).is_some()
    }

    /// Put `value` under `key`, in place of the value that was there.
    pub fn insert(&mut self, key: &str, value: V)
        ensures
            final(self)@ == old(self)@.insert(key@, value),
    {
        proof {
            use_type_invariant(&*self);
        }
        let mut rows: Vec<Row<V>> = Vec::new();
        std::mem::swap(&mut rows, &mut self.rows);
        let (at, found) = locate(&rows, key);
        let row = Row { key: key.to_owned(), value };
        if found {
            proof {
                lemma_replace_row(rows@, at as int, row);
            }
            rows.set(at, row);
        } else {
            proof {
                lemma_insert_row(rows@, at as int, row);
            }
            rows.insert(at, row);
        }
        self.rows = rows;
    }

    /// Remove the row under `key`, if there is one.
    pub fn remove(&mut self, key: &str)
        ensures
            final(self)@ == old(self)@.remove(key@),
    {
        proof {
            use_type_invariant(&*self);
        }
        let mut rows: Vec<Row<V>> = Vec::new();
        std::mem::swap(&mut rows, &mut self.rows);
        let (at, found) = locate(&rows, key);
        if found {
            proof {
                lemma_remove_row(rows@, at as int);
            }
            let _gone = rows.remove(at);
        } else {
            assert(as_map(rows@) =~= as_map(rows@).remove(key@));
        }
        self.rows = rows;
    }

    /// The number of rows. The rows stand in key order and are the mapping.
    pub fn len(&self) -> (r: usize)
        ensures
            r == self.rows().len(),
            in_key_order(self.rows()),
            self@ == as_map(self.rows()),
    {
        proof {
            use_type_invariant(self);
        }
        self.rows.len()
    }

    /// Row `i` in key order.
    pub fn row(&self, i: usize) -> (r: &Row<V>)
        requires
            i < self.rows().len(),
        ensures
            *r == self.rows()[i as int],
            self@.contains_key(r.key@),
            self@[r.key@] == r.value,
    {
        proof {
            use_type_invariant(self);
            lemma_row_is_mapped(self.rows@, i as int);
        }
        &self.rows[i]
    }
}

/// The table's mapping, row by row.
pub proof fn rows_are_the_mapping<V>(rows: Seq<Row<V>>)
    requires
        in_key_order(rows),
    ensures
        forall|i: int|
            0 <= i < rows.len() ==> as_map(rows).contains_key((#[trigger] rows[i]).key@) && as_map(
                rows,
            )[rows[i].key@] == rows[i].value,
        forall|key: Seq<char>|
            as_map(rows).contains_key(key) ==> exists|i: int|
                0 <= i < rows.len() && (#[trigger] rows[i]).key@ == key,
        as_map(rows).dom().finite(),
        as_map(rows).dom().len() == rows.len(),
    decreases rows.len(),
{
    assert forall|i: int| 0 <= i < rows.len() implies as_map(rows).contains_key(
        (#[trigger] rows[i]).key@,
    ) && as_map(rows)[rows[i].key@] == rows[i].value by {
        lemma_row_is_mapped(rows, i);
    }
    if rows.len() == 0 {
        assert(as_map(rows).dom() =~= Set::<Seq<char>>::empty());
    } else {
        let init = rows.drop_last();
        let last = rows.last();
        assert forall|i: int, j: int|
            #![trigger init[i], init[j]]
            0 <= i < j < init.len() implies key_before(init[i].key@, init[j].key@) by {
            assert(key_before(rows[i].key@, rows[j].key@));
        }
        rows_are_the_mapping(init);
        assert forall|i: int| 0 <= i < init.len() implies key_before(
            (#[trigger] init[i]).key@,
            last.key@,
        ) by {
            assert(key_before(rows[i].key@, rows[rows.len() - 1].key@));
        }
        lemma_insert_row(init, init.len() as int, last);
        assert(init.insert(init.len() as int, last) =~= rows);
        assert(as_map(rows).dom() =~= as_map(init).dom().insert(last.key@));
    }
}

// ---------------------------------------------------------------------------------------------
// Sums over a table
// ---------------------------------------------------------------------------------------------
/// The sum of the values of a finite mapping.
pub open spec fn sum_values(m: Map<Seq<char>, nat>) -> nat
    decreases m.dom().len(),
    when m.dom().finite()
{
    if m.dom().len() == 0 {
        0
    } else {
        let key = m.dom().choose();
        m[key] + sum_values(m.remove(key))
    }
}

/// Any key's value can be taken out of a sum.
pub proof fn sum_without(m: Map<Seq<char>, nat>, key: Seq<char>)
    requires
        m.dom().finite(),
        m.contains_key(key),
    ensures
        sum_values(m) == m[key] + sum_values(m.remove(key)),
    decreases m.dom().len(),
{
    assert(m.dom().len() > 0) by {
        assert(m.dom().contains(key));
        if m.dom().len() == 0 {
            assert(m.dom() =~= Set::<Seq<char>>::empty());
        }
    }
    let c = m.dom().choose();
    if c != key {
        sum_without(m.remove(c), key);
        sum_without(m.remove(key), c);
        assert(m.remove(c).remove(key) =~= m.remove(key).remove(c));
    }
}

/// A new key adds its value to the sum.
pub proof fn sum_with(m: Map<Seq<char>, nat>, key: Seq<char>, value: nat)
    requires
        m.dom().finite(),
        !m.contains_key(key),
    ensures
        sum_values(m.insert(key, value)) == sum_values(m) + value,
{
    let after = m.insert(key, value);
    sum_without(after, key);
    assert(after.remove(key) =~= m);
}

/// The sum of what `f` gives for each row.
pub open spec fn sum_rows<V>(rows: Seq<Row<V>>, f: spec_fn(V) -> nat) -> nat
    decreases rows.len(),
{
    if rows.len() == 0 {
        0
    } else {
        sum_rows(rows.drop_last(), f) + f(rows.last().value)
    }
}

/// The sum over the rows is the sum over the mapping.
pub proof fn sum_rows_is_sum_values<V>(rows: Seq<Row<V>>, f: spec_fn(V) -> nat)
    requires
        in_key_order(rows),
    ensures
        as_map(rows).dom().finite(),
        sum_values(as_map(rows).map_values(f)) == sum_rows(rows, f),
    decreases rows.len(),
{
    rows_are_the_mapping(rows);
    if rows.len() == 0 {
        assert(as_map(rows).map_values(f).dom() =~= Set::<Seq<char>>::empty());
    } else {
        let init = rows.drop_last();
        let last = rows.last();
        assert forall|i: int, j: int|
            #![trigger init[i], init[j]]
            0 <= i < j < init.len() implies key_before(init[i].key@, init[j].key@) by {
            assert(key_before(rows[i].key@, rows[j].key@));
        }
        sum_rows_is_sum_values(init, f);
        assert forall|i: int| 0 <= i < init.len() implies key_before(
            (#[trigger] init[i]).key@,
            last.key@,
        ) by {
            assert(key_before(rows[i].key@, rows[rows.len() - 1].key@));
        }
        lemma_insert_row(init, init.len() as int, last);
        assert(init.insert(init.len() as int, last) =~= rows);
        let m = as_map(init).map_values(f);
        assert(m.dom() =~= as_map(init).dom());
        sum_with(m, last.key@, f(last.value));
        assert(as_map(rows).map_values(f) =~= m.insert(last.key@, f(last.value)));
    }
}

// ---------------------------------------------------------------------------------------------
// Laws
// ---------------------------------------------------------------------------------------------
/// The key order goes by the first character in which two keys differ, and a proper prefix comes
/// first.
pub proof fn first_difference_decides(
    common: Seq<char>,
    a: char,
    b: char,
    x: Seq<char>,
    y: Seq<char>,
)
    ensures
        (a as int) < (b as int) ==> key_before(common + seq![a] + x, common + seq![b] + y),
        key_before(common, common + seq![a] + x),
    decreases common.len(),
{
    let p = common + seq![a] + x;
    let q = common + seq![b] + y;
    if common.len() > 0 {
        let rest = common.skip(1);
        first_difference_decides(rest, a, b, x, y);
        assert(p.skip(1) =~= rest + seq![a] + x);
        assert(q.skip(1) =~= rest + seq![b] + y);
        assert(p[0] == common[0] && q[0] == common[0]);
    } else {
        assert(p[0] == a && q[0] == b);
    }
}

/// A table holds one value per key: what is put under a key is read back, what is taken away is gone,
/// and every other key keeps its value.
pub proof fn table_holds_one_value_per_key<V>(
    filled: &mut KeyedRows<V>,
    emptied: &mut KeyedRows<V>,
    key: &str,
    value: V,
    other: &str,
    put: Option<&V>,
    before: Option<&V>,
    after: Option<&V>,
    gone: Option<&V>,
    left: Option<&V>,
    known: bool,
)
    requires
        call_ensures(KeyedRows::<V>::insert, (filled, key, value), ()),
        call_ensures(KeyedRows::<V>::get, (&*final(filled), key), put),
        call_ensures(KeyedRows::<V>::get, (&*old(filled), other), before),
        call_ensures(KeyedRows::<V>::get, (&*final(filled), other), after),
        call_ensures(KeyedRows::<V>::contains, (&*final(filled), other), known),
        *final(filled) == *old(emptied),
        call_ensures(KeyedRows::<V>::remove, (emptied, key), ()),
        call_ensures(KeyedRows::<V>::get, (&*final(emptied), key), gone),
        call_ensures(KeyedRows::<V>::get, (&*final(emptied), other), left),
        other@ != key@,
    ensures
        put is Some && *(put->0) == value,
        before is Some <==> after is Some,
        known <==> before is Some,
        before is Some ==> *(after->0) == *(before->0),
        gone is None,
        left is Some <==> before is Some,
        before is Some ==> *(left->0) == *(before->0),
{
}

} // verus!
