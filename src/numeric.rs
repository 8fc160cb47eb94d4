//! Numeric comparison of decimal digit strings of any length.
use vstd::prelude::*;
use crate::text::{digit_value, digits_value, is_digit};

verus! {

/// Ten to the power `n`.
pub open spec fn pow10(n: nat) -> nat
    decreases n,
{
    if n == 0 {
        1
    } else {
        10 * pow10((n - 1) as nat)
    }
}

/// Whether `s` consists of digits only (possibly none).
pub open spec fn digits_only(s: Seq<char>) -> bool {
    forall|i: int| 0 <= i < s.len() ==> is_digit(s[i])
}

proof fn lemma_pow10_pos(n: nat)
    ensures
        pow10(n) >= 1,
    decreases n,
{
    if n > 0 {
        lemma_pow10_pos((n - 1) as nat);
    }
}

proof fn lemma_pow10_mono(a: nat, b: nat)
    requires
        a <= b,
    ensures
        pow10(a) <= pow10(b),
    decreases b,
{
    if a < b {
        lemma_pow10_mono(a, (b - 1) as nat);
        lemma_pow10_pos((b - 1) as nat);
    }
}

proof fn lemma_value_bound(a: Seq<char>)
    requires
        digits_only(a),
    ensures
        digits_value(a) < pow10(a.len()),
    decreases a.len(),
{
    if a.len() > 0 {
        let p = a.drop_last();
        lemma_value_bound(p);
        let x = digits_value(p);
        let d = digit_value(a.last());
        assert(is_digit(a[a.len() - 1]));
        assert(d <= 9);
        let q = pow10(p.len());
        assert(pow10(a.len()) == 10 * q);
        assert(x * 10 + d < 10 * q) by (nonlinear_arith)
            requires
                x < q,
                d <= 9,
        ;
    }
}

proof fn lemma_value_concat(a: Seq<char>, b: Seq<char>)
    ensures
        digits_value(a + b) == digits_value(a) * pow10(b.len()) + digits_value(b),
    decreases b.len(),
{
    if b.len() == 0 {
        assert(a + b =~= a);
        assert(pow10(0) == 1);
        assert(digits_value(b) == 0);
        assert(digits_value(a) * 1 == digits_value(a));
    } else {
        let b1 = b.drop_last();
        lemma_value_concat(a, b1);
        assert((a + b).drop_last() =~= a + b1);
        assert((a + b).last() == b.last());
        assert(digits_value(a + b) == digits_value((a + b).drop_last()) * 10 + digit_value((a + b).last()));
        assert(digits_value(b) == digits_value(b.drop_last()) * 10 + digit_value(b.last()));
        let va = digits_value(a);
        let vb1 = digits_value(b1);
        let p = pow10(b1.len());
        let d = digit_value(b.last());
        assert(pow10(b.len()) == 10 * p);
        assert((va * p + vb1) * 10 + d == va * (10 * p) + (vb1 * 10 + d)) by (nonlinear_arith);
    }
}

proof fn lemma_leading_zero(a: Seq<char>)
    ensures
        digits_value(seq!['0'] + a) == digits_value(a),
{
    lemma_value_concat(seq!['0'], a);
    let z = seq!['0'];
    assert(z.drop_last() =~= Seq::<char>::empty());
    assert(digits_value(z.drop_last()) == 0);
    assert(digit_value(z.last()) == 0);
    assert(digits_value(z) == digits_value(z.drop_last()) * 10 + digit_value(z.last()));
    assert(digits_value(z) == 0);
    let q = pow10(a.len());
    assert(digits_value(z) * q == 0) by (nonlinear_arith)
        requires
            digits_value(z) == 0,
    ;
}

proof fn lemma_leading_nonzero(a: Seq<char>)
    requires
        a.len() > 0,
        digits_only(a),
        a[0] != '0',
    ensures
        digits_value(a) >= pow10((a.len() - 1) as nat),
{
    let h = seq![a[0]];
    let t = a.skip(1);
    assert(h + t =~= a);
    lemma_value_concat(h, t);
    assert(h.drop_last() =~= Seq::<char>::empty());
    assert(digits_value(h.drop_last()) == 0);
    assert(digits_value(h) == digits_value(h.drop_last()) * 10 + digit_value(h.last()));
    assert(is_digit(a[0]));
    assert(digits_value(h) >= 1);
    let p = pow10(t.len());
    assert(digits_value(h) * p >= p) by (nonlinear_arith)
        requires
            digits_value(h) >= 1,
    ;
}

proof fn lemma_lex_less(a: Seq<char>, b: Seq<char>, k: int)
    requires
        a.len() == b.len(),
        digits_only(a),
        digits_only(b),
        0 <= k < a.len(),
        a.take(k) == b.take(k),
        digit_value(a[k]) < digit_value(b[k]),
    ensures
        digits_value(a) < digits_value(b),
{
    let pa = a.take(k + 1);
    let pb = b.take(k + 1);
    let sa = a.skip(k + 1);
    let sb = b.skip(k + 1);
    assert(pa + sa =~= a);
    assert(pb + sb =~= b);
    lemma_value_concat(pa, sa);
    lemma_value_concat(pb, sb);
    assert(pa.drop_last() =~= a.take(k));
    assert(pb.drop_last() =~= b.take(k));
    let pre = digits_value(a.take(k));
    assert(digits_value(pa) == pre * 10 + digit_value(a[k]));
    assert(digits_value(pb) == pre * 10 + digit_value(b[k]));
    assert(digits_only(sa));
    lemma_value_bound(sa);
    let p = pow10(sa.len());
    assert(sb.len() == sa.len());
    let x = digits_value(pa);
    let y = digits_value(pb);
    let vs = digits_value(sa);
    let ws = digits_value(sb);
    assert(x * p + vs < y * p + ws) by (nonlinear_arith)
        requires
            x + 1 <= y,
            vs < p,
            ws >= 0,
    ;
}

/// Position of the first non-zero digit of `v`, or its length.
fn skip_zeros(v: &Vec<char>) -> (z: usize)
    requires
        digits_only(v@),
    ensures
        z <= v.len(),
        digits_value(v@.skip(z as int)) == digits_value(v@),
        z < v.len() ==> v@[z as int] != '0',
{
    let mut z: usize = 0;
    assert(v@.skip(0) =~= v@);
    while z < v.len() && v[z] == '0'
        invariant
            z <= v.len(),
            digits_value(v@.skip(z as int)) == digits_value(v@),
        decreases v.len() - z,
    {
        proof {
            assert(seq!['0'] + v@.skip(z + 1) =~= v@.skip(z as int));
            lemma_leading_zero(v@.skip(z + 1));
        }
        z = z + 1;
    }
    z
}

/// Compares the numbers that two digit strings denote: negative, zero or
/// positive as `a` is below, equal to or above `b`.
pub fn compare_digits(a: &Vec<char>, b: &Vec<char>) -> (r: i8)
    requires
        digits_only(a@),
        digits_only(b@),
    ensures
        r < 0 <==> digits_value(a@) < digits_value(b@),
        r == 0 <==> digits_value(a@) == digits_value(b@),
{
    let za = skip_zeros(a);
    let zb = skip_zeros(b);
    let ghost sa = a@.skip(za as int);
    let ghost sb = b@.skip(zb as int);
    assert(digits_only(sa));
    assert(digits_only(sb));
    let la = a.len() - za;
    let lb = b.len() - zb;
    proof {
        lemma_value_bound(sa);
        lemma_value_bound(sb);
        if la > 0 {
            lemma_leading_nonzero(sa);
        }
        if lb > 0 {
            lemma_leading_nonzero(sb);
        }
    }
    if la < lb {
        proof {
            lemma_pow10_mono(la as nat, (lb - 1) as nat);
        }
        return -1;
    }
    if la > lb {
        proof {
            lemma_pow10_mono(lb as nat, (la - 1) as nat);
        }
        return 1;
    }
    let mut k: usize = 0;
    while k < la
        invariant
            la == lb,
            la == a.len() - za,
            lb == b.len() - zb,
            za <= a.len(),
            zb <= b.len(),
            sa == a@.skip(za as int),
            sb == b@.skip(zb as int),
            digits_only(sa),
            digits_only(sb),
            digits_value(sa) == digits_value(a@),
            digits_value(sb) == digits_value(b@),
            k <= la,
            sa.take(k as int) == sb.take(k as int),
        decreases la - k,
    {
        let x = a[za + k];
        let y = b[zb + k];
        assert(x == sa[k as int]);
        assert(y == sb[k as int]);
        if x != y {
            if x < y {
                proof {
                    lemma_lex_less(sa, sb, k as int);
                }
                return -1;
            } else {
                proof {
                    lemma_lex_less(sb, sa, k as int);
                }
                return 1;
            }
        }
        assert(sa.take(k + 1) =~= sa.take(k as int).push(x));
        assert(sb.take(k + 1) =~= sb.take(k as int).push(y));
        k = k + 1;
    }
    assert(sa =~= sa.take(la as int));
    assert(sb =~= sb.take(lb as int));
    0
}

} // verus!
