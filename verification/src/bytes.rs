//! Byte-string helpers: equality, copies, and big-endian integers.
use vstd::prelude::*;

verus! {

/// Whether two byte strings are equal.
pub fn bytes_eq(a: &[u8], b: &[u8]) -> (r: bool)
    ensures
        r == (a@ == b@),
{
    if a.len() != b.len() {
        return false;
    }
    let mut i: usize = 0;
    while i < a.len()
        invariant
            i <= a@.len(),
            a@.len() == b@.len(),
            forall|k: int| 0 <= k < i ==> a@[k] == b@[k],
        decreases a@.len() - i,
    {
        if a[i] != b[i] {
            return false;
        }
        i = i + 1;
    }
    assert(a@ =~= b@);
    true
}

/// A copy of a byte string.
pub fn copy_bytes(a: &[u8]) -> (r: Vec<u8>)
    ensures
        r@ == a@,
{
    vstd::slice::slice_to_vec(a)
}

/// `a[from..to]`.
pub fn copy_range(a: &[u8], from: usize, to: usize) -> (r: Vec<u8>)
    requires
        from <= to <= a@.len(),
    ensures
        r@ == a@.subrange(from as int, to as int),
{
    let mut r: Vec<u8> = Vec::new();
    let mut i: usize = from;
    while i < to
        invariant
            from <= i <= to <= a@.len(),
            r@ == a@.subrange(from as int, i as int),
        decreases to - i,
    {
        r.push(a[i]);
        assert(a@.subrange(from as int, i + 1) =~= a@.subrange(from as int, i as int).push(
            a@[i as int],
        ));
        i = i + 1;
    }
    r
}

/// Append `b` to `a`.
pub fn append_bytes(a: &mut Vec<u8>, b: &[u8])
    ensures
        final(a)@ == old(a)@ + b@,
{
    let ghost start = a@;
    let mut i: usize = 0;
    assert(a@ =~= start + b@.take(0));
    while i < b.len()
        invariant
            i <= b@.len(),
            a@ == start + b@.take(i as int),
        decreases b@.len() - i,
    {
        a.push(b[i]);
        assert(b@.take(i + 1) =~= b@.take(i as int).push(b@[i as int]));
        assert(a@ =~= start + b@.take(i + 1));
        i = i + 1;
    }
    assert(b@.take(i as int) =~= b@);
}

// ---------------------------------------------------------------------------------------------
// Big-endian u64
// ---------------------------------------------------------------------------------------------
/// The eight big-endian bytes of `n`.
pub open spec fn be64_bytes(n: u64) -> Seq<u8> {
    seq![
        (n / 0x100_0000_0000_0000) as u8,
        ((n / 0x1_0000_0000_0000) % 0x100) as u8,
        ((n / 0x100_0000_0000) % 0x100) as u8,
        ((n / 0x1_0000_0000) % 0x100) as u8,
        ((n / 0x100_0000) % 0x100) as u8,
        ((n / 0x1_0000) % 0x100) as u8,
        ((n / 0x100) % 0x100) as u8,
        (n % 0x100) as u8,
    ]
}

/// The u64 that eight big-endian bytes write.
pub open spec fn be64(raw: Seq<u8>) -> int {
    0x100_0000_0000_0000 * raw[0] + 0x1_0000_0000_0000 * raw[1] + 0x100_0000_0000 * raw[2]
        + 0x1_0000_0000 * raw[3] + 0x100_0000 * raw[4] + 0x1_0000 * raw[5] + 0x100 * raw[6] + raw[7]
}

/// Reading back what was written gives the number again.
pub proof fn be64_round_trip(n: u64)
    ensures
        be64_bytes(n).len() == 8,
        be64(be64_bytes(n)) == n,
{
    let a1 = n / 0x100;
    let a2 = n / 0x1_0000;
    let a3 = n / 0x100_0000;
    let a4 = n / 0x1_0000_0000;
    let a5 = n / 0x100_0000_0000;
    let a6 = n / 0x1_0000_0000_0000;
    let a7 = n / 0x100_0000_0000_0000;
    assert(n == 0x100 * a1 + n % 0x100);
    assert(a1 == 0x100 * a2 + a1 % 0x100);
    assert(a2 == 0x100 * a3 + a2 % 0x100);
    assert(a3 == 0x100 * a4 + a3 % 0x100);
    assert(a4 == 0x100 * a5 + a4 % 0x100);
    assert(a5 == 0x100 * a6 + a5 % 0x100);
    assert(a6 == 0x100 * a7 + a6 % 0x100);
    assert(a7 < 0x100);
    let b = be64_bytes(n);
    assert(b[0] == a7 && b[1] == a6 % 0x100 && b[2] == a5 % 0x100 && b[3] == a4 % 0x100);
    assert(b[4] == a3 % 0x100 && b[5] == a2 % 0x100 && b[6] == a1 % 0x100 && b[7] == n % 0x100);
}

/// The eight big-endian bytes of `n`.
pub fn to_be64(n: u64) -> (r: Vec<u8>)
    ensures
        r@ == be64_bytes(n),
{
    let mut r: Vec<u8> = Vec::new();
    r.push((n / 0x100_0000_0000_0000) as u8);
    r.push(((n / 0x1_0000_0000_0000) % 0x100) as u8);
    r.push(((n / 0x100_0000_0000) % 0x100) as u8);
    r.push(((n / 0x1_0000_0000) % 0x100) as u8);
    r.push(((n / 0x100_0000) % 0x100) as u8);
    r.push(((n / 0x1_0000) % 0x100) as u8);
    r.push(((n / 0x100) % 0x100) as u8);
    r.push((n % 0x100) as u8);
    assert(r@ =~= be64_bytes(n));
    r
}

/// The u64 that eight big-endian bytes write.
pub fn from_be64(raw: &[u8]) -> (r: u64)
    requires
        raw@.len() == 8,
    ensures
        r == be64(raw@),
{
    0x100_0000_0000_0000 * (raw[0] as u64) + 0x1_0000_0000_0000 * (raw[1] as u64) + 0x100_0000_0000
        * (raw[2] as u64) + 0x1_0000_0000 * (raw[3] as u64) + 0x100_0000 * (raw[4] as u64)
        + 0x1_0000 * (raw[5] as u64) + 0x100 * (raw[6] as u64) + (raw[7] as u64)
}

} // verus!
