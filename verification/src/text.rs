//! Text helpers: decimal rendering, prefix and substring tests, whitespace splitting, and the
//! Unix path joins the node's file layout is built from.
use vstd::prelude::*;
use vstd::string::StrSliceExecFns;
use vstd::string::StringExecFns;

verus! {

/// `String::push` appends one character to the end of the string.
pub assume_specification[ String::push ](s: &mut String, c: char)
    ensures
        final(s)@ == old(s)@.push(c),
;

// ---------------------------------------------------------------------------------------------
// Characters in and out of strings
// ---------------------------------------------------------------------------------------------
/// The characters of a string, in order.
pub fn chars_of(s: &str) -> (v: Vec<char>)
    ensures
        v@ == s@,
{
    let mut v: Vec<char> = Vec::new();
    for c in it: s.chars()
        invariant
            it.seq() == s@,
            v@ == s@.take(it.index() as int),
    {
        v.push(c);
        assert(s@.take(it.index() as int + 1) =~= s@.take(it.index() as int).push(c));
    }
    assert(s@.take(s@.len() as int) =~= s@);
    v
}

/// The string made of `chars[from..to]`.
pub fn string_of(chars: &Vec<char>, from: usize, to: usize) -> (s: String)
    requires
        from <= to <= chars@.len(),
    ensures
        s@ == chars@.subrange(from as int, to as int),
{
    let mut s = String::new();
    let mut i: usize = from;
    while i < to
        invariant
            from <= i <= to <= chars@.len(),
            s@ == chars@.subrange(from as int, i as int),
        decreases to - i,
    {
        s.push(chars[i]);
        assert(chars@.subrange(from as int, i + 1) =~= chars@.subrange(from as int, i as int).push(
            chars@[i as int],
        ));
        i = i + 1;
    }
    s
}

/// The characters of each string of a list.
pub open spec fn views(v: Seq<String>) -> Seq<Seq<char>> {
    Seq::new(v.len(), |i: int| v[i]@)
}

/// Append a copy of `s` to a list of strings.
pub fn push_str(v: &mut Vec<String>, s: &str)
    ensures
        views(final(v)@) == views(old(v)@).push(s@),
{
    v.push(s.to_owned());
    assert(views(v@) =~= views(old(v)@).push(s@));
}

/// Whether two strings hold the same characters.
pub fn str_eq(a: &str, b: &str) -> (r: bool)
    ensures
        r == (a@ == b@),
{
    a.to_owned() == b.to_owned()
}

/// Whether an optional string is present and equal to `b`.
pub fn opt_str_eq(a: &Option<String>, b: &str) -> (r: bool)
    ensures
        r == (a is Some && a->0@ == b@),
{
    match a {
        Some(s) => str_eq(s.as_str(), b),
        None => false,
    }
}

/// Whether `s` is one of `names`.
pub fn names_contain(names: &Vec<String>, s: &str) -> (r: bool)
    ensures
        r == views(names@).contains(s@),
{
    let mut i: usize = 0;
    while i < names.len()
        invariant
            i <= names@.len(),
            forall|j: int| 0 <= j < i ==> (#[trigger] views(names@)[j]) != s@,
        decreases names@.len() - i,
    {
        if str_eq(names[i].as_str(), s) {
            assert(views(names@)[i as int] == s@);
            return true;
        }
        i = i + 1;
    }
    false
}

/// A text as `Debug` writes it: in quotes, with its special characters escaped.
pub uninterp spec fn debug_text(s: Seq<char>) -> Seq<char>;

/// The `Debug` form of a string, which depends on the string alone.
#[verifier::external_body]
pub(crate) fn debug_string(s: &str) -> (r: String)
    ensures
        r@ == debug_text(s@),
{
    format!("{s:?}")
}

// ---------------------------------------------------------------------------------------------
// Decimal rendering
// ---------------------------------------------------------------------------------------------
/// The decimal digit `d` as a character.
pub open spec fn digit_char(d: nat) -> char {
    if d == 0 {
        '0'
    } else if d == 1 {
        '1'
    } else if d == 2 {
        '2'
    } else if d == 3 {
        '3'
    } else if d == 4 {
        '4'
    } else if d == 5 {
        '5'
    } else if d == 6 {
        '6'
    } else if d == 7 {
        '7'
    } else if d == 8 {
        '8'
    } else {
        '9'
    }
}

/// `n` written in decimal, most significant digit first, without leading zeros.
pub open spec fn decimal(n: nat) -> Seq<char>
    decreases n,
{
    if n < 10 {
        seq![digit_char(n)]
    } else {
        decimal(n / 10).push(digit_char(n % 10))
    }
}

fn digit(d: u64) -> (c: char)
    requires
        d < 10,
    ensures
        c == digit_char(d as nat),
{
    if d == 0 {
        '0'
    } else if d == 1 {
        '1'
    } else if d == 2 {
        '2'
    } else if d == 3 {
        '3'
    } else if d == 4 {
        '4'
    } else if d == 5 {
        '5'
    } else if d == 6 {
        '6'
    } else if d == 7 {
        '7'
    } else if d == 8 {
        '8'
    } else {
        '9'
    }
}

/// Append `n` in decimal.
pub fn append_decimal(s: &mut String, n: u64)
    ensures
        final(s)@ == old(s)@ + decimal(n as nat),
    decreases n,
{
    if n >= 10 {
        append_decimal(s, n / 10);
    }
    s.push(digit(n % 10));
    proof {
        if n >= 10 {
            assert(decimal(n as nat) == decimal(n as nat / 10).push(digit_char(n as nat % 10)));
            assert(s@ =~= old(s)@ + decimal(n as nat));
        } else {
            assert(s@ =~= old(s)@ + decimal(n as nat));
        }
    }
}

/// `n` in decimal.
pub fn decimal_string(n: u64) -> (s: String)
    ensures
        s@ == decimal(n as nat),
{
    let mut s = String::new();
    append_decimal(&mut s, n);
    assert(s@ =~= decimal(n as nat));
    s
}

/// `true` or `false`.
pub open spec fn bool_text(b: bool) -> Seq<char> {
    if b {
        "true"@
    } else {
        "false"@
    }
}

/// Append `true` or `false`.
pub fn append_bool(s: &mut String, b: bool)
    ensures
        final(s)@ == old(s)@ + bool_text(b),
{
    if b {
        s.append("true");
    } else {
        s.append("false");
    }
}

// ---------------------------------------------------------------------------------------------
// Decimal parsing
// ---------------------------------------------------------------------------------------------
/// Whether `c` is an ASCII decimal digit.
pub open spec fn is_digit(c: char) -> bool {
    '0' <= c <= '9'
}

/// The value of a digit string read in decimal.
pub open spec fn digits_value(s: Seq<char>) -> nat
    decreases s.len(),
{
    if s.len() == 0 {
        0
    } else {
        10 * digits_value(s.drop_last()) + (s.last() as int - '0' as int) as nat
    }
}

/// Whether `s` consists of one digit or more.
pub open spec fn is_digits(s: Seq<char>) -> bool {
    s.len() > 0 && forall|k: int| 0 <= k < s.len() ==> is_digit(#[trigger] s[k])
}

/// `s` without one leading `+`, if anything follows it.
pub open spec fn unsigned_body(s: Seq<char>) -> Seq<char> {
    if s.len() > 1 && s[0] == '+' {
        s.skip(1)
    } else {
        s
    }
}

/// The u64 that `s` writes in decimal: digits, with one leading `+` allowed, within range.
pub open spec fn parsed_u64(s: Seq<char>) -> Option<u64> {
    let body = unsigned_body(s);
    if is_digits(body) && digits_value(body) <= u64::MAX {
        Some(digits_value(body) as u64)
    } else {
        None
    }
}

proof fn lemma_digits_value_grows(s: Seq<char>, m: int)
    requires
        0 <= m <= s.len(),
        forall|k: int| 0 <= k < s.len() ==> is_digit(#[trigger] s[k]),
    ensures
        digits_value(s.take(m)) <= digits_value(s),
    decreases s.len(),
{
    if m < s.len() {
        let init = s.drop_last();
        assert forall|k: int| 0 <= k < init.len() implies is_digit(#[trigger] init[k]) by {
            assert(init[k] == s[k]);
        }
        lemma_digits_value_grows(init, m);
        assert(init.take(m) =~= s.take(m));
        assert(is_digit(s[s.len() - 1]));
    } else {
        assert(s.take(m) =~= s);
    }
}

/// The u64 that `s` writes in decimal, if it writes one.
pub fn parse_u64(s: &str) -> (r: Option<u64>)
    ensures
        r == parsed_u64(s@),
{
    let chars = chars_of(s);
    let start: usize = if chars.len() > 1 && chars[0] == '+' {
        1
    } else {
        0
    };
    let ghost body = unsigned_body(s@);
    assert(body =~= chars@.skip(start as int));
    if chars.len() == start {
        return None;
    }
    let mut value: u64 = 0;
    let mut i: usize = start;
    assert(body.take(0) =~= Seq::<char>::empty());
    let mut fits: bool = true;
    while i < chars.len()
        invariant
            chars@ == s@,
            body == chars@.skip(start as int),
            body == unsigned_body(s@),
            start <= i <= chars@.len(),
            forall|k: int| 0 <= k < i - start ==> is_digit(#[trigger] body[k]),
            fits ==> value == digits_value(body.take(i - start)),
            !fits ==> exists|m: int|
                0 <= m <= body.len() && #[trigger] digits_value(body.take(m)) > u64::MAX,
        decreases chars@.len() - i,
    {
        let c: char = chars[i];
        assert(body[i - start] == c);
        if !('0' <= c && c <= '9') {
            assert(!is_digit(body[i - start]));
            return None;
        }
        let d: u64 = (c as u64) - ('0' as u64);
        assert(body.take(i - start + 1).drop_last() =~= body.take(i - start));
        if fits {
            if value > (u64::MAX - d) / 10 {
                fits = false;
                assert(digits_value(body.take(i - start + 1)) > u64::MAX);
            } else {
                value = value * 10 + d;
            }
        }
        i = i + 1;
    }
    assert(body.take(i - start) =~= body);
    if fits {
        Some(value)
    } else {
        proof {
            let m = choose|m: int|
                0 <= m <= body.len() && #[trigger] digits_value(body.take(m)) > u64::MAX;
            lemma_digits_value_grows(body, m);
        }
        None
    }
}

// ---------------------------------------------------------------------------------------------
// ASCII classes
// ---------------------------------------------------------------------------------------------
/// Whether `c` is an ASCII letter or digit.
pub open spec fn is_ascii_alnum(c: char) -> bool {
    let n = c as u32;
    48 <= n <= 57 || 65 <= n <= 90 || 97 <= n <= 122
}

/// Whether `c` is an ASCII letter or digit.
pub fn ascii_alnum(c: char) -> (r: bool)
    ensures
        r == is_ascii_alnum(c),
{
    let n: u32 = c as u32;
    (48 <= n && n <= 57) || (65 <= n && n <= 90) || (97 <= n && n <= 122)
}

// ---------------------------------------------------------------------------------------------
// Prefixes, substrings
// ---------------------------------------------------------------------------------------------
/// Whether `needle` occurs in `hay` at position `at`.
pub open spec fn occurs_at(hay: Seq<char>, needle: Seq<char>, at: int) -> bool {
    &&& 0 <= at
    &&& at + needle.len() <= hay.len()
    &&& hay.subrange(at, at + needle.len()) == needle
}

/// Whether `needle` occurs anywhere in `hay`.
pub open spec fn contains_text(hay: Seq<char>, needle: Seq<char>) -> bool {
    exists|at: int| #[trigger] occurs_at(hay, needle, at)
}

fn occurs(hay: &Vec<char>, needle: &Vec<char>, at: usize) -> (r: bool)
    requires
        at + needle@.len() <= hay@.len(),
    ensures
        r == occurs_at(hay@, needle@, at as int),
{
    let mut i: usize = 0;
    while i < needle.len()
        invariant
            i <= needle@.len(),
            at + needle@.len() <= hay.len(),
            forall|k: int| 0 <= k < i ==> hay@[at + k] == needle@[k],
        decreases needle@.len() - i,
    {
        if hay[at + i] != needle[i] {
            assert(hay@.subrange(at as int, at + needle@.len())[i as int] != needle@[i as int]);
            return false;
        }
        i = i + 1;
    }
    assert(hay@.subrange(at as int, at + needle@.len()) =~= needle@);
    true
}

/// Whether `hay` contains `needle`.
pub fn str_contains(hay: &str, needle: &str) -> (r: bool)
    ensures
        r == contains_text(hay@, needle@),
{
    let h = chars_of(hay);
    let n = chars_of(needle);
    if n.len() > h.len() {
        return false;
    }
    let last: usize = h.len() - n.len();
    let mut at: usize = 0;
    loop
        invariant
            h@ == hay@,
            n@ == needle@,
            n@.len() <= h@.len(),
            last == h@.len() - n@.len(),
            at <= last,
            forall|k: int| 0 <= k < at ==> !#[trigger] occurs_at(hay@, needle@, k),
        decreases last - at,
    {
        if occurs(&h, &n, at) {
            return true;
        }
        if at == last {
            assert forall|k: int| !#[trigger] occurs_at(hay@, needle@, k) by {
                if 0 <= k && k + n@.len() <= h@.len() {
                    assert(k <= at);
                }
            }
            return false;
        }
        at = at + 1;
    }
}

/// Whether `s` starts with `prefix`.
pub fn str_starts_with(s: &str, prefix: &str) -> (r: bool)
    ensures
        r == prefix@.is_prefix_of(s@),
{
    let h = chars_of(s);
    let n = chars_of(prefix);
    if n.len() > h.len() {
        return false;
    }
    occurs(&h, &n, 0)
}

/// The rest of `s` after `prefix`, if `s` starts with it.
pub fn str_strip_prefix(s: &str, prefix: &str) -> (r: Option<String>)
    ensures
        r is Some <==> prefix@.is_prefix_of(s@),
        r matches Some(rest) ==> s@ == prefix@ + rest@,
{
    let h = chars_of(s);
    let n = chars_of(prefix);
    if n.len() > h.len() || !occurs(&h, &n, 0) {
        return None;
    }
    let rest = string_of(&h, n.len(), h.len());
    assert(h@ =~= h@.subrange(0, n@.len() as int) + h@.subrange(n@.len() as int, h@.len() as int));
    Some(rest)
}

// ---------------------------------------------------------------------------------------------
// Whitespace
// ---------------------------------------------------------------------------------------------
/// The characters with Unicode's White_Space property.
pub open spec fn is_white(c: char) -> bool {
    let n = c as u32;
    ||| 9 <= n <= 13
    ||| n == 32
    ||| n == 0x85
    ||| n == 0xA0
    ||| n == 0x1680
    ||| 0x2000 <= n <= 0x200A
    ||| n == 0x2028
    ||| n == 0x2029
    ||| n == 0x202F
    ||| n == 0x205F
    ||| n == 0x3000
}

/// Whether `c` has Unicode's White_Space property.
pub fn white(c: char) -> (r: bool)
    ensures
        r == is_white(c),
{
    let n: u32 = c as u32;
    (9 <= n && n <= 13) || n == 32 || n == 0x85 || n == 0xA0 || n == 0x1680 || (0x2000 <= n && n
        <= 0x200A) || n == 0x2028 || n == 0x2029 || n == 0x202F || n == 0x205F || n == 0x3000
}

/// `s` without the whitespace it starts with.
pub open spec fn trim_start(s: Seq<char>) -> Seq<char>
    decreases s.len(),
{
    if s.len() > 0 && is_white(s[0]) {
        trim_start(s.skip(1))
    } else {
        s
    }
}

/// `s` without the whitespace it ends with.
pub open spec fn trim_end(s: Seq<char>) -> Seq<char>
    decreases s.len(),
{
    if s.len() > 0 && is_white(s.last()) {
        trim_end(s.drop_last())
    } else {
        s
    }
}

/// `s` without the whitespace at either end.
pub open spec fn trim(s: Seq<char>) -> Seq<char> {
    trim_end(trim_start(s))
}

/// `chars[from..to]` without the whitespace at either end.
pub fn trim_range(chars: &Vec<char>, from: usize, to: usize) -> (r: String)
    requires
        from <= to <= chars@.len(),
    ensures
        r@ == trim(chars@.subrange(from as int, to as int)),
{
    let mut a: usize = from;
    let ghost whole = chars@.subrange(from as int, to as int);
    assert(chars@.subrange(a as int, to as int) =~= whole);
    while a < to && white(chars[a])
        invariant
            from <= a <= to <= chars@.len(),
            trim_start(whole) == trim_start(chars@.subrange(a as int, to as int)),
        decreases to - a,
    {
        assert(chars@.subrange(a as int, to as int).skip(1) =~= chars@.subrange(a + 1, to as int));
        a = a + 1;
    }
    let ghost head = chars@.subrange(a as int, to as int);
    assert(trim_start(whole) == head);
    let mut b: usize = to;
    while b > a && white(chars[b - 1])
        invariant
            from <= a <= b <= to <= chars@.len(),
            head == chars@.subrange(a as int, to as int),
            trim_end(head) == trim_end(chars@.subrange(a as int, b as int)),
        decreases b,
    {
        assert(chars@.subrange(a as int, b as int).drop_last() =~= chars@.subrange(
            a as int,
            b - 1,
        ));
        b = b - 1;
    }
    string_of(chars, a, b)
}

/// `s` without the whitespace at either end.
pub fn str_trim(s: &str) -> (r: String)
    ensures
        r@ == trim(s@),
{
    let chars = chars_of(s);
    assert(chars@.subrange(0, chars@.len() as int) =~= s@);
    trim_range(&chars, 0, chars.len())
}

/// The first whitespace-delimited token of `s` (empty if there is none).
pub open spec fn token(s: Seq<char>) -> Seq<char>
    decreases s.len(),
{
    if s.len() == 0 || is_white(s[0]) {
        Seq::empty()
    } else {
        seq![s[0]] + token(s.skip(1))
    }
}

/// The whitespace-delimited tokens of `s`, in order.
pub open spec fn tokens(s: Seq<char>) -> Seq<Seq<char>>
    decreases s.len(),
{
    if s.len() == 0 {
        Seq::empty()
    } else if is_white(s[0]) {
        tokens(s.skip(1))
    } else {
        let t = token(s);
        if 0 < t.len() <= s.len() {
            seq![t] + tokens(s.skip(t.len() as int))
        } else {
            Seq::empty()
        }
    }
}

proof fn lemma_token_len(s: Seq<char>)
    ensures
        token(s).len() <= s.len(),
        s.len() > 0 && !is_white(s[0]) ==> token(s).len() > 0,
        token(s) == s.take(token(s).len() as int),
        token(s).len() < s.len() ==> is_white(s[token(s).len() as int]),
        forall|k: int| 0 <= k < token(s).len() ==> !is_white(#[trigger] s[k]),
    decreases s.len(),
{
    if s.len() == 0 || is_white(s[0]) {
        assert(token(s) =~= s.take(0));
    } else {
        lemma_token_len(s.skip(1));
        assert(token(s) =~= s.take(token(s).len() as int));
        assert forall|k: int| 0 <= k < token(s).len() implies !is_white(#[trigger] s[k]) by {
            if k > 0 {
                assert(s.skip(1)[k - 1] == s[k]);
            }
        }
    }
}

proof fn lemma_token_is(s: Seq<char>, n: int)
    requires
        0 <= n <= s.len(),
        n < s.len() ==> is_white(s[n]),
        forall|k: int| 0 <= k < n ==> !is_white(#[trigger] s[k]),
    ensures
        token(s) == s.take(n),
{
    lemma_token_len(s);
    if token(s).len() < n {
        assert(is_white(s[token(s).len() as int]));
        assert(false);
    }
    if token(s).len() > n {
        assert(!is_white(s[n]));
        assert(false);
    }
}

/// The whitespace-delimited tokens of `s`, in order.
pub fn split_whitespace(s: &str) -> (r: Vec<String>)
    ensures
        r@.len() == tokens(s@).len(),
        forall|i: int| 0 <= i < r@.len() ==> #[trigger] r@[i]@ == tokens(s@)[i],
{
    let chars = chars_of(s);
    let mut out: Vec<String> = Vec::new();
    let mut i: usize = 0;
    let ghost mut done: Seq<Seq<char>> = Seq::empty();
    assert(chars@.skip(0) =~= s@);
    assert(done + tokens(chars@.skip(0)) =~= tokens(s@));
    while i < chars.len()
        invariant
            chars@ == s@,
            i <= chars@.len(),
            done + tokens(chars@.skip(i as int)) == tokens(s@),
            out@.len() == done.len(),
            forall|k: int| 0 <= k < out@.len() ==> #[trigger] out@[k]@ == done[k],
        decreases chars@.len() - i,
    {
        let ghost rest = chars@.skip(i as int);
        if white(chars[i]) {
            assert(rest.skip(1) =~= chars@.skip(i + 1));
            i = i + 1;
        } else {
            let mut j: usize = i + 1;
            while j < chars.len() && !white(chars[j])
                invariant
                    i < j <= chars@.len(),
                    forall|k: int| i <= k < j ==> !is_white(#[trigger] chars@[k]),
                decreases chars@.len() - j,
            {
                j = j + 1;
            }
            let t = string_of(&chars, i, j);
            proof {
                assert forall|k: int| 0 <= k < j - i implies !is_white(#[trigger] rest[k]) by {
                    assert(rest[k] == chars@[i + k]);
                }
                lemma_token_is(rest, (j - i) as int);
                assert(rest.take(j - i) =~= t@);
                assert(rest.skip(j - i) =~= chars@.skip(j as int));
                assert(tokens(rest) == seq![t@] + tokens(chars@.skip(j as int)));
                assert(done + tokens(rest) =~= done.push(t@) + tokens(chars@.skip(j as int)));
                done = done.push(t@);
            }
            out.push(t);
            i = j;
        }
    }
    assert(tokens(chars@.skip(i as int)) =~= Seq::empty());
    assert(done =~= tokens(s@));
    out
}

// ---------------------------------------------------------------------------------------------
// Unix paths
// ---------------------------------------------------------------------------------------------
/// `name` under `dir`: an absolute `name` stands alone, otherwise one separator parts the two.
pub open spec fn joined(dir: Seq<char>, name: Seq<char>) -> Seq<char> {
    if name.len() > 0 && name[0] == '/' {
        name
    } else if dir.len() == 0 || dir.last() == '/' {
        dir + name
    } else {
        dir.push('/') + name
    }
}

/// `name` under `dir`.
pub fn path_join(dir: &str, name: &str) -> (r: String)
    ensures
        r@ == joined(dir@, name@),
{
    let d = chars_of(dir);
    let n = chars_of(name);
    if n.len() > 0 && n[0] == '/' {
        return name.to_owned();
    }
    let mut out = dir.to_owned();
    if d.len() > 0 && d[d.len() - 1] != '/' {
        out.push('/');
    }
    out.append(name);
    out
}

/// The index just past the last `/` in `s`, or 0.
pub open spec fn tail_start(s: Seq<char>) -> nat
    decreases s.len(),
{
    if s.len() == 0 || s.last() == '/' {
        s.len()
    } else {
        tail_start(s.drop_last())
    }
}

/// The final component of a path: the last segment that is neither empty nor `.`, unless it is
/// `..`.
pub open spec fn last_component(s: Seq<char>) -> Option<Seq<char>>
    decreases s.len(),
{
    let start = tail_start(s);
    if start > s.len() {
        None
    } else {
        let seg = s.skip(start as int);
        if seg.len() == 0 || seg == seq!['.'] {
            if start == 0 {
                None
            } else {
                last_component(s.take(start - 1))
            }
        } else if seg == seq!['.', '.'] {
            None
        } else {
            Some(seg)
        }
    }
}

/// The final component of `path`, if it has one.
pub fn file_name(path: &str) -> (r: Option<String>)
    ensures
        r is Some <==> last_component(path@) is Some,
        r matches Some(n) ==> n@ == last_component(path@)->0,
{
    let chars = chars_of(path);
    let mut end: usize = chars.len();
    assert(chars@.take(end as int) =~= path@);
    loop
        invariant
            chars@ == path@,
            end <= chars@.len(),
            last_component(path@) == last_component(chars@.take(end as int)),
        decreases end,
    {
        let ghost cur = chars@.take(end as int);
        let mut start: usize = end;
        while start > 0 && chars[start - 1] != '/'
            invariant
                start <= end <= chars@.len(),
                cur == chars@.take(end as int),
                tail_start(cur) == tail_start(chars@.take(start as int)),
            decreases start,
        {
            assert(chars@.take(start as int).drop_last() =~= chars@.take(start - 1));
            start = start - 1;
        }
        assert(tail_start(cur) == start);
        let ghost seg = cur.skip(start as int);
        assert(seg =~= chars@.subrange(start as int, end as int));
        let len: usize = end - start;
        if len == 0 || (len == 1 && chars[start] == '.') {
            proof {
                if len == 1 {
                    assert(seg =~= seq!['.']);
                }
            }
            if start == 0 {
                return None;
            }
            assert(cur.take(start - 1) =~= chars@.take(start - 1));
            end = start - 1;
        } else if len == 2 && chars[start] == '.' && chars[start + 1] == '.' {
            assert(seg =~= seq!['.', '.']);
            return None;
        } else {
            proof {
                if len == 1 {
                    assert(seg[0] != '.');
                } else if len == 2 {
                    assert(seg[0] == chars@[start as int]);
                    assert(seg[1] == chars@[start + 1]);
                }
            }
            return Some(string_of(&chars, start, end));
        }
    }
}

// ---------------------------------------------------------------------------------------------
// Laws
// ---------------------------------------------------------------------------------------------
/// A number's decimal digits write that number, without a leading zero.
pub proof fn decimal_writes_its_number(n: nat)
    ensures
        is_digits(decimal(n)),
        digits_value(decimal(n)) == n,
        n > 0 ==> decimal(n)[0] != '0',
        n == 0 ==> decimal(n) == seq!['0'],
        decimal(n).len() == 1 <==> n < 10,
    decreases n,
{
    let last = digit_char(n % 10);
    assert(is_digit(last) && last as int - '0' as int == n % 10);
    if n >= 10 {
        let init = decimal(n / 10);
        decimal_writes_its_number(n / 10);
        let s = decimal(n);
        assert(s.drop_last() =~= init);
        assert forall|k: int| 0 <= k < s.len() implies is_digit(#[trigger] s[k]) by {
            if k < init.len() {
                assert(s[k] == init[k]);
            }
        }
    } else {
        let s = decimal(n);
        assert(s.drop_last() =~= Seq::<char>::empty());
        assert(digits_value(s.drop_last()) == 0);
        assert(s.last() == last);
    }
}

/// A number is read back from its decimal digits, and two numbers never share them.
pub proof fn number_is_read_back(n: u64, written: String, s: &str, read: Option<u64>)
    requires
        call_ensures(decimal_string, (n,), written),
        s@ == written@,
        call_ensures(parse_u64, (s,), read),
    ensures
        read == Some(n),
{
    decimal_writes_its_number(n as nat);
    assert(is_digit(decimal(n as nat)[0]));
}

/// Different numbers have different digits.
pub proof fn decimals_differ(m: nat, n: nat)
    requires
        decimal(m) == decimal(n),
    ensures
        m == n,
{
    decimal_writes_its_number(m);
    decimal_writes_its_number(n);
}

/// What parses as a number: digits alone, or behind one `+`, that write a number within range.
pub proof fn only_digits_parse(s: &str, r: Option<u64>, i: int)
    requires
        call_ensures(parse_u64, (s,), r),
        0 <= i < s@.len(),
    ensures
        r is Some ==> ('0' <= s@[i] && s@[i] <= '9') || (i == 0 && s@[0] == '+' && s@.len() > 1),
{
    if r is Some {
        let body = unsigned_body(s@);
        if s@.len() > 1 && s@[0] == '+' {
            if i > 0 {
                assert(body[i - 1] == s@[i]);
            }
        } else {
            assert(body[i] == s@[i]);
        }
    }
}

/// Under one directory, different relative names give different paths.
pub proof fn joined_names_differ(dir: Seq<char>, a: Seq<char>, b: Seq<char>)
    requires
        joined(dir, a) == joined(dir, b),
        a.len() > 0 ==> a[0] != '/',
        b.len() > 0 ==> b[0] != '/',
    ensures
        a == b,
{
    let head = if dir.len() == 0 || dir.last() == '/' {
        dir
    } else {
        dir.push('/')
    };
    assert(a =~= (head + a).skip(head.len() as int));
    assert(b =~= (head + b).skip(head.len() as int));
}

/// A path joins its directory and its name with one separator: a relative name ends the path and the
/// directory starts it; an absolute name is the path.
pub proof fn path_holds_directory_and_name(dir: &str, name: &str, r: String)
    requires
        call_ensures(path_join, (dir, name), r),
    ensures
        name@.len() > 0 && name@[0] == '/' ==> r@ == name@,
        !(name@.len() > 0 && name@[0] == '/') && dir@.len() > 0 && dir@.last() != '/' ==> r@ == dir@
            + seq!['/'] + name@,
        !(name@.len() > 0 && name@[0] == '/') && (dir@.len() == 0 || dir@.last() == '/') ==> r@
            == dir@ + name@,
{
    assert(dir@.push('/') =~= dir@ + seq!['/']);
}

proof fn lemma_tail_of_name(head: Seq<char>, name: Seq<char>)
    requires
        !name.contains('/'),
        head.len() == 0 || head.last() == '/',
    ensures
        tail_start(head + name) == head.len(),
    decreases name.len(),
{
    let s = head + name;
    if name.len() == 0 {
        assert(s =~= head);
    } else {
        let init = name.drop_last();
        assert(name.contains(name.last()));
        assert(s.last() == name.last());
        assert(s.drop_last() =~= head + init);
        if init.contains('/') {
            let i = choose|i: int| 0 <= i < init.len() && init[i] == '/';
            assert(name[i] == '/');
        }
        lemma_tail_of_name(head, init);
    }
}

/// A file's name is read back from its path.
pub proof fn file_name_is_read_back(dir: Seq<char>, name: Seq<char>)
    requires
        name.len() > 0,
        !name.contains('/'),
        name != seq!['.'],
        name != seq!['.', '.'],
    ensures
        last_component(joined(dir, name)) == Some(name),
{
    assert(name.contains(name[0]));
    let head = if dir.len() == 0 || dir.last() == '/' {
        dir
    } else {
        dir.push('/')
    };
    lemma_tail_of_name(head, name);
    assert(joined(dir, name) == head + name);
    assert((head + name).skip(head.len() as int) =~= name);
}

/// Trimming takes off white space alone, at either end alone.
pub proof fn trimming_takes_white_space_off(before: Seq<char>, s: Seq<char>, after: Seq<char>)
    requires
        forall|i: int| 0 <= i < before.len() ==> is_white(#[trigger] before[i]),
        forall|i: int| 0 <= i < after.len() ==> is_white(#[trigger] after[i]),
        s.len() > 0 ==> !is_white(s[0]) && !is_white(s.last()),
    ensures
        s.len() > 0 ==> trim(before + s + after) == s,
        s.len() == 0 ==> trim(before + s + after).len() == 0,
    decreases before.len() + after.len(),
{
    let all = before + s + after;
    if before.len() > 0 {
        let rest = before.skip(1);
        assert forall|i: int| 0 <= i < rest.len() implies is_white(#[trigger] rest[i]) by {
            assert(rest[i] == before[i + 1]);
        }
        assert(is_white(before[0]) && all[0] == before[0]);
        assert(all.skip(1) =~= rest + s + after);
        trimming_takes_white_space_off(rest, s, after);
    } else if s.len() > 0 {
        assert(all[0] == s[0]);
        assert(trim_start(all) == all);
        lemma_trim_end(s, after);
        assert(all =~= s + after);
    } else if after.len() > 0 {
        let rest = after.skip(1);
        assert forall|i: int| 0 <= i < rest.len() implies is_white(#[trigger] rest[i]) by {
            assert(rest[i] == after[i + 1]);
        }
        assert(is_white(after[0]) && all[0] == after[0]);
        assert(all.skip(1) =~= before + s + rest);
        trimming_takes_white_space_off(before, s, rest);
    }
}

proof fn lemma_trim_end(s: Seq<char>, after: Seq<char>)
    requires
        forall|i: int| 0 <= i < after.len() ==> is_white(#[trigger] after[i]),
        s.len() > 0,
        !is_white(s.last()),
    ensures
        trim_end(s + after) == s,
    decreases after.len(),
{
    let all = s + after;
    if after.len() > 0 {
        let rest = after.drop_last();
        assert forall|i: int| 0 <= i < rest.len() implies is_white(#[trigger] rest[i]) by {
            assert(rest[i] == after[i]);
        }
        assert(all.last() == after[after.len() - 1]);
        assert(all.drop_last() =~= s + rest);
        lemma_trim_end(s, rest);
    } else {
        assert(all =~= s);
        assert(all.last() == s.last());
    }
}

/// Words are what stands between white space, in order: a word in front of white space is the first
/// token, and the rest follow.
pub proof fn words_are_split_at_white_space(word: Seq<char>, gap: char, rest: Seq<char>)
    requires
        word.len() > 0,
        forall|i: int| 0 <= i < word.len() ==> !is_white(#[trigger] word[i]),
        is_white(gap),
    ensures
        tokens(word + seq![gap] + rest) == seq![word] + tokens(rest),
        tokens(seq![gap] + rest) == tokens(rest),
        tokens(word) == seq![word],
{
    let s = word + seq![gap] + rest;
    assert forall|k: int| 0 <= k < word.len() implies !is_white(#[trigger] s[k]) by {
        assert(s[k] == word[k]);
    }
    assert(s[word.len() as int] == gap);
    lemma_token_is(s, word.len() as int);
    assert(s.take(word.len() as int) =~= word);
    let tail = seq![gap] + rest;
    assert(s.skip(word.len() as int) =~= tail);
    assert(tail[0] == gap);
    assert(tail.skip(1) =~= rest);
    assert(tokens(tail) == tokens(rest));
    assert(s[0] == word[0]);
    lemma_token_is(word, word.len() as int);
    assert(word.take(word.len() as int) =~= word);
    assert(word.skip(word.len() as int) =~= Seq::<char>::empty());
    assert(tokens(word.skip(word.len() as int)) =~= Seq::<Seq<char>>::empty());
    assert(seq![word] + Seq::<Seq<char>>::empty() =~= seq![word]);
}

/// A text contains what stands in it, and what it contains stands in it somewhere.
pub proof fn contained_text_stands_in_it(
    before: Seq<char>,
    needle: Seq<char>,
    after: Seq<char>,
    hay: &str,
    part: &str,
    r: bool,
)
    requires
        call_ensures(str_contains, (hay, part), r),
    ensures
        hay@ == before + needle + after && part@ == needle ==> r,
        r ==> exists|at: int|
            0 <= at && at + part@.len() <= hay@.len() && #[trigger] hay@.subrange(
                at,
                at + part@.len(),
            ) == part@,
{
    if hay@ == before + needle + after && part@ == needle {
        let at = before.len() as int;
        assert(hay@.subrange(at, at + needle.len()) =~= needle);
        assert(occurs_at(hay@, part@, at));
    }
    if r {
        let at = choose|at: int| #[trigger] occurs_at(hay@, part@, at);
        assert(hay@.subrange(at, at + part@.len()) == part@);
    }
}

/// A truth value is written as `true` or `false`, behind what was written before.
pub proof fn truth_is_written_out(s: &mut String, b: bool, r: ())
    requires
        call_ensures(append_bool, (s, b), r),
    ensures
        b ==> final(s)@ == old(s)@ + seq!['t', 'r', 'u', 'e'],
        !b ==> final(s)@ == old(s)@ + seq!['f', 'a', 'l', 's', 'e'],
{
    reveal_strlit("true");
    reveal_strlit("false");
    assert("true"@ =~= seq!['t', 'r', 'u', 'e']);
    assert("false"@ =~= seq!['f', 'a', 'l', 's', 'e']);
}

} // verus!
