//! Text primitives shared by the configuration and path logic.
use vstd::prelude::*;
use vstd::string::*;

verus! {

/// The decimal digit for `d`, which must be below ten.
pub open spec fn digit_char(d: nat) -> char {
    if d == 0 { '0' }
    else if d == 1 { '1' }
    else if d == 2 { '2' }
    else if d == 3 { '3' }
    else if d == 4 { '4' }
    else if d == 5 { '5' }
    else if d == 6 { '6' }
    else if d == 7 { '7' }
    else if d == 8 { '8' }
    else { '9' }
}

/// The decimal notation of `n`, without leading zeros.
pub open spec fn decimal_spec(n: nat) -> Seq<char>
    decreases n,
{
    if n < 10 {
        seq![digit_char(n)]
    } else {
        decimal_spec(n / 10) + seq![digit_char(n % 10)]
    }
}

fn digit_string(d: u64) -> (r: String)
    requires
        d < 10,
    ensures
        r@ == seq![digit_char(d as nat)],
{
    proof {
        reveal_strlit("0123456789");
    }
    let s = "0123456789".substring_char(d as usize, d as usize + 1);
    String::from_str(s)
}

/// Writes `n` in decimal notation.
pub fn decimal(n: u64) -> (r: String)
    ensures
        r@ == decimal_spec(n as nat),
    decreases n,
{
    if n < 10 {
        digit_string(n)
    } else {
        let head = decimal(n / 10);
        let last = digit_string(n % 10);
        head.concat(last.as_str())
    }
}

} // verus!

verus! {

/// Whether `c` is an ASCII decimal digit.
pub open spec fn is_digit(c: char) -> bool {
    '0' <= c && c <= '9'
}

/// The value of the ASCII digit `c`.
pub open spec fn digit_value(c: char) -> nat {
    (c as u32 - '0' as u32) as nat
}

/// The number that a run of decimal digits denotes.
pub open spec fn digits_value(d: Seq<char>) -> nat
    decreases d.len(),
{
    if d.len() == 0 {
        0
    } else {
        digits_value(d.drop_last()) * 10 + digit_value(d.last())
    }
}

/// Number of characters before the first line feed of `s`, or its length.
pub open spec fn line_len(s: Seq<char>) -> nat
    decreases s.len(),
{
    if s.len() == 0 || s[0] == '\n' {
        0
    } else {
        1 + line_len(s.drop_first())
    }
}

/// Number of leading spaces of `s`.
pub open spec fn lead_spaces(s: Seq<char>) -> nat
    decreases s.len(),
{
    if s.len() > 0 && s[0] == ' ' {
        1 + lead_spaces(s.drop_first())
    } else {
        0
    }
}

/// Whether `t` occurs in `s` at position `at`.
pub open spec fn occurs_at(s: Seq<char>, at: int, t: Seq<char>) -> bool {
    0 <= at && at + t.len() <= s.len() && s.subrange(at, at + t.len()) == t
}

pub proof fn lemma_line_len(s: Seq<char>, k: int)
    requires
        0 <= k <= s.len(),
        forall|i: int| 0 <= i < k ==> s[i] != '\n',
        k == s.len() || s[k] == '\n',
    ensures
        line_len(s) == k,
    decreases k,
{
    if k > 0 {
        lemma_line_len(s.drop_first(), k - 1);
    }
}

pub proof fn lemma_lead_spaces(s: Seq<char>, k: int)
    requires
        0 <= k <= s.len(),
        forall|i: int| 0 <= i < k ==> s[i] == ' ',
        k == s.len() || s[k] != ' ',
    ensures
        lead_spaces(s) == k,
    decreases k,
{
    if k > 0 {
        lemma_lead_spaces(s.drop_first(), k - 1);
    }
}

/// Copies the characters of `s` into a vector.
pub fn chars_of(s: &str) -> (r: Vec<char>)
    ensures
        r@ == s@,
{
    let n = s.unicode_len();
    let mut r: Vec<char> = Vec::new();
    let mut i: usize = 0;
    while i < n
        invariant
            n == s@.len(),
            i <= n,
            r@ == s@.take(i as int),
        decreases n - i,
    {
        let c = s.get_char(i);
        r.push(c);
        i = i + 1;
        assert(r@ =~= s@.take(i as int));
    }
    assert(r@ =~= s@);
    r
}

/// Whether the characters of `t` stand in `v` from position `at` on.
pub fn occurs_in(v: &Vec<char>, at: usize, t: &str) -> (r: bool)
    ensures
        r == occurs_at(v@, at as int, t@),
{
    let n = t.unicode_len();
    if at > v.len() || n > v.len() - at {
        return false;
    }
    let mut i: usize = 0;
    while i < n
        invariant
            n == t@.len(),
            at + n <= v@.len(),
            v@.len() == v.len(),
            i <= n,
            forall|j: int| 0 <= j < i ==> v@[at + j] == t@[j],
        decreases n - i,
    {
        if v[at + i] != t.get_char(i) {
            assert(v@.subrange(at as int, at + n)[i as int] != t@[i as int]);
            return false;
        }
        i = i + 1;
    }
    assert(v@.subrange(at as int, at + n) =~= t@);
    true
}

/// Position of the first line feed in `v` at or after `start`, or the length of `v`.
pub fn line_end(v: &Vec<char>, start: usize) -> (e: usize)
    requires
        start <= v.len(),
    ensures
        start <= e <= v.len(),
        e == start + line_len(v@.skip(start as int)),
{
    let mut e = start;
    while e < v.len() && v[e] != '\n'
        invariant
            start <= e <= v.len(),
            forall|i: int| start <= i < e ==> v@[i] != '\n',
        decreases v.len() - e,
    {
        e = e + 1;
    }
    proof {
        lemma_line_len(v@.skip(start as int), e - start);
    }
    e
}

} // verus!

verus! {

/// Number of leading decimal digits of `s`.
pub open spec fn lead_digits(s: Seq<char>) -> nat
    decreases s.len(),
{
    if s.len() > 0 && is_digit(s[0]) {
        1 + lead_digits(s.drop_first())
    } else {
        0
    }
}

pub proof fn lemma_lead_digits(s: Seq<char>, k: int)
    requires
        0 <= k <= s.len(),
        forall|i: int| 0 <= i < k ==> is_digit(s[i]),
        k == s.len() || !is_digit(s[k]),
    ensures
        lead_digits(s) == k,
    decreases k,
{
    if k > 0 {
        lemma_lead_digits(s.drop_first(), k - 1);
    }
}

/// Copies the characters of `v` from `a` up to `b`.
pub fn copy_range(v: &Vec<char>, a: usize, b: usize) -> (r: Vec<char>)
    requires
        a <= b <= v.len(),
    ensures
        r@ == v@.subrange(a as int, b as int),
{
    let mut r: Vec<char> = Vec::new();
    let mut i = a;
    while i < b
        invariant
            a <= i <= b <= v.len(),
            r@ == v@.subrange(a as int, i as int),
        decreases b - i,
    {
        r.push(v[i]);
        i = i + 1;
        assert(r@ =~= v@.subrange(a as int, i as int));
    }
    r
}

} // verus!

verus! {

pub proof fn lemma_line_len_props(s: Seq<char>)
    ensures
        line_len(s) <= s.len(),
        forall|i: int| 0 <= i < line_len(s) ==> s[i] != '\n',
        line_len(s) < s.len() ==> s[line_len(s) as int] == '\n',
    decreases s.len(),
{
    if s.len() > 0 && s[0] != '\n' {
        lemma_line_len_props(s.drop_first());
        assert forall|i: int| 0 <= i < line_len(s) implies s[i] != '\n' by {
            if i > 0 {
                assert(s[i] == s.drop_first()[i - 1]);
            }
        }
    }
}

pub proof fn lemma_lead_spaces_props(s: Seq<char>)
    ensures
        lead_spaces(s) <= s.len(),
        forall|i: int| 0 <= i < lead_spaces(s) ==> s[i] == ' ',
        lead_spaces(s) < s.len() ==> s[lead_spaces(s) as int] != ' ',
    decreases s.len(),
{
    if s.len() > 0 && s[0] == ' ' {
        lemma_lead_spaces_props(s.drop_first());
        assert forall|i: int| 0 <= i < lead_spaces(s) implies s[i] == ' ' by {
            if i > 0 {
                assert(s[i] == s.drop_first()[i - 1]);
            }
        }
    }
}

pub proof fn lemma_digit_char(m: nat)
    requires
        m < 10,
    ensures
        is_digit(digit_char(m)),
        digit_value(digit_char(m)) == m,
{
    assert('0' as u32 == 48);
    assert('9' as u32 == 57);
    if m == 0 { assert('0' as u32 == 48); }
    else if m == 1 { assert('1' as u32 == 49); }
    else if m == 2 { assert('2' as u32 == 50); }
    else if m == 3 { assert('3' as u32 == 51); }
    else if m == 4 { assert('4' as u32 == 52); }
    else if m == 5 { assert('5' as u32 == 53); }
    else if m == 6 { assert('6' as u32 == 54); }
    else if m == 7 { assert('7' as u32 == 55); }
    else if m == 8 { assert('8' as u32 == 56); }
    else { assert('9' as u32 == 57); }
}

/// A decimal notation is a non-empty run of digits, which denotes its number
/// and, below 100000, holds at most five digits.
pub proof fn lemma_decimal(n: nat)
    ensures
        decimal_spec(n).len() >= 1,
        forall|i: int| 0 <= i < decimal_spec(n).len() ==> is_digit(#[trigger] decimal_spec(n)[i]),
        digits_value(decimal_spec(n)) == n,
        n < 100000 ==> decimal_spec(n).len() <= 5,
        n < 10000 ==> decimal_spec(n).len() <= 4,
        n < 1000 ==> decimal_spec(n).len() <= 3,
        n < 100 ==> decimal_spec(n).len() <= 2,
    decreases n,
{
    let d = decimal_spec(n);
    lemma_digit_char(n % 10);
    if n < 10 {
        assert(d.drop_last() =~= Seq::<char>::empty());
        assert(n % 10 == n);
        assert(d.last() == digit_char(n));
        assert(digits_value(d.drop_last()) == 0);
        assert(digits_value(d) == digits_value(d.drop_last()) * 10 + digit_value(d.last()));
    } else {
        lemma_decimal(n / 10);
        let h = decimal_spec(n / 10);
        assert(d.drop_last() =~= h);
        assert(n == (n / 10) * 10 + n % 10) by (nonlinear_arith);
        assert(d.last() == digit_char(n % 10));
        assert(digits_value(d) == digits_value(d.drop_last()) * 10 + digit_value(d.last()));
        assert forall|i: int| 0 <= i < d.len() implies is_digit(#[trigger] d[i]) by {
            if i < h.len() {
                assert(d[i] == h[i]);
            }
        }
    }
}

pub proof fn lemma_line_len_of_line(a: Seq<char>, b: Seq<char>)
    requires
        forall|i: int| 0 <= i < a.len() ==> a[i] != '\n',
    ensures
        line_len(a) == a.len(),
        line_len(a + seq!['\n'] + b) == a.len(),
        (a + seq!['\n'] + b).take(a.len() as int) == a,
        (a + seq!['\n'] + b).skip(a.len() + 1 as int) == b,
{
    lemma_line_len(a, a.len() as int);
    let t = a + seq!['\n'] + b;
    lemma_line_len(t, a.len() as int);
    assert(t.take(a.len() as int) =~= a);
    assert(t.skip(a.len() + 1 as int) =~= b);
}

} // verus!

verus! {

/// `s` with each occurrence of `pat`, taken from left to right without
/// overlap, replaced by `with`.
#[verifier::opaque]
pub open spec fn replace_spec(s: Seq<char>, pat: Seq<char>, with: Seq<char>) -> Seq<char>
    decreases s.len(),
{
    if pat.len() == 0 || s.len() < pat.len() {
        s
    } else if s.take(pat.len() as int) == pat {
        with + replace_spec(s.skip(pat.len() as int), pat, with)
    } else {
        seq![s[0]] + replace_spec(s.skip(1), pat, with)
    }
}

proof fn lemma_replace_step(s: Seq<char>, pat: Seq<char>, with: Seq<char>, i: int)
    requires
        pat.len() > 0,
        0 <= i <= s.len(),
    ensures
        i + pat.len() > s.len() ==> replace_spec(s.skip(i), pat, with) == s.skip(i),
        i + pat.len() <= s.len() && occurs_at(s, i, pat) ==> replace_spec(s.skip(i), pat, with)
            == with + replace_spec(s.skip(i + pat.len()), pat, with),
        i + pat.len() <= s.len() && !occurs_at(s, i, pat) ==> replace_spec(s.skip(i), pat, with)
            == seq![s[i]] + replace_spec(s.skip(i + 1), pat, with),
{
    reveal(replace_spec);
    let t = s.skip(i);
    if i + pat.len() <= s.len() {
        assert(t.take(pat.len() as int) =~= s.subrange(i, i + pat.len()));
        assert(t.skip(pat.len() as int) =~= s.skip(i + pat.len()));
        assert(t.skip(1) =~= s.skip(i + 1));
    }
}

/// Replaces every occurrence of `pat` in `s` by `with`.
pub fn replace_all(s: &str, pat: &str, with: &str) -> (r: String)
    requires
        pat@.len() > 0,
    ensures
        r@ == replace_spec(s@, pat@, with@),
{
    let v = chars_of(s);
    let n = v.len();
    let m = pat.unicode_len();
    let mut out = String::new();
    let mut start: usize = 0;
    let mut i: usize = 0;
    assert(s@.skip(0) =~= s@);
    while i < n
        invariant
            v@ == s@,
            n == s@.len(),
            m == pat@.len(),
            m > 0,
            start <= i <= n,
            out@ + s@.subrange(start as int, i as int) + replace_spec(s@.skip(i as int), pat@, with@)
                == replace_spec(s@, pat@, with@),
        decreases n - i,
    {
        proof {
            lemma_replace_step(s@, pat@, with@, i as int);
        }
        let ghost out0 = out@;
        let ghost start0 = start as int;
        let ghost i0 = i as int;
        if m <= n - i && occurs_in(&v, i, pat) {
            out.append(s.substring_char(start, i));
            out.append(with);
            i = i + m;
            start = i;
            assert(out@ == out0 + s@.subrange(start0, i0) + with@);
            assert(s@.subrange(start as int, i as int) =~= Seq::<char>::empty());
            assert(out@ + s@.subrange(start as int, i as int) + replace_spec(s@.skip(i as int), pat@, with@)
                =~= out0 + s@.subrange(start0, i0) + (with@ + replace_spec(s@.skip(i as int), pat@, with@)));
        } else if m > n - i {
            proof {
                lemma_replace_step(s@, pat@, with@, n as int);
                reveal(replace_spec);
            }
            i = n;
            assert(s@.skip(n as int) =~= Seq::<char>::empty());
            assert(s@.subrange(start0, i0) + s@.skip(i0) =~= s@.subrange(start as int, n as int));
            assert(out@ + s@.subrange(start as int, i as int) + replace_spec(s@.skip(i as int), pat@, with@)
                =~= out0 + s@.subrange(start0, i0) + s@.skip(i0));
        } else {
            assert(s@.subrange(start as int, i as int) + seq![s@[i as int]] =~= s@.subrange(start as int, i + 1));
            i = i + 1;
            assert(out@ + s@.subrange(start as int, i as int) + replace_spec(s@.skip(i as int), pat@, with@)
                =~= out0 + s@.subrange(start0, i0) + (seq![s@[i0]] + replace_spec(s@.skip(i as int), pat@, with@)));
        }
    }
    out.append(s.substring_char(start, n));
    assert(s@.skip(n as int) =~= Seq::<char>::empty());
    proof {
        reveal(replace_spec);
    }
    out
}

} // verus!

verus! {

/// The character sequences of a list of strings.
pub open spec fn views(v: Seq<String>) -> Seq<Seq<char>> {
    v.map_values(|s: String| s@)
}

/// Appends `s` to the list `v`.
pub fn push_str(v: &mut Vec<String>, s: &str)
    ensures
        views(final(v)@) == views(old(v)@).push(s@),
{
    v.push(String::from_str(s));
    assert(views(final(v)@) =~= views(old(v)@).push(s@));
}

} // verus!

verus! {

/// Number of leading characters of `s` that differ from `c`.
pub open spec fn span_until(s: Seq<char>, c: char) -> nat
    decreases s.len(),
{
    if s.len() == 0 || s[0] == c {
        0
    } else {
        1 + span_until(s.drop_first(), c)
    }
}

pub proof fn lemma_span_until(s: Seq<char>, c: char, k: int)
    requires
        0 <= k <= s.len(),
        forall|i: int| 0 <= i < k ==> s[i] != c,
        k == s.len() || s[k] == c,
    ensures
        span_until(s, c) == k,
    decreases k,
{
    if k > 0 {
        lemma_span_until(s.drop_first(), c, k - 1);
    }
}

/// The position of the first `c` in `v` at or after `from`, or the length of `v`.
pub fn find_char(v: &Vec<char>, from: usize, c: char) -> (e: usize)
    requires
        from <= v.len(),
    ensures
        from <= e <= v.len(),
        e == from + span_until(v@.skip(from as int), c),
{
    let mut e = from;
    while e < v.len() && v[e] != c
        invariant
            from <= e <= v.len(),
            forall|i: int| from <= i < e ==> v@[i] != c,
        decreases v.len() - e,
    {
        e = e + 1;
    }
    proof {
        lemma_span_until(v@.skip(from as int), c, e - from);
    }
    e
}

/// The end of the run of digits of `v` that starts at `from`.
pub fn digits_end(v: &Vec<char>, from: usize) -> (e: usize)
    requires
        from <= v.len(),
    ensures
        from <= e <= v.len(),
        e == from + lead_digits(v@.skip(from as int)),
{
    let mut e = from;
    while e < v.len() && '0' <= v[e] && v[e] <= '9'
        invariant
            from <= e <= v.len(),
            forall|i: int| from <= i < e ==> is_digit(v@[i]),
        decreases v.len() - e,
    {
        e = e + 1;
    }
    proof {
        lemma_lead_digits(v@.skip(from as int), e - from);
    }
    e
}

} // verus!
