//! Rounding an exact decimal magnitude to a whole number, halves away from
//! zero, as `f64::round` does for the values the venues send.

use vstd::prelude::*;
use crate::decimal::{
    decimal_wf, digits_wf, lemma_pow10_add, lemma_pow10_mono, lemma_pow10_pos, lemma_val_bound,
    lemma_val_first, pow10, val, Decimal, DecimalView,
};

verus! {

/// The magnitude of `d` rounded to the nearest whole number, halves up.
pub open spec fn rounded_magnitude(d: DecimalView) -> nat {
    if d.scale >= 0 {
        val(d.digits) * pow10(d.scale as nat)
    } else {
        (val(d.digits) + 5 * pow10((-d.scale - 1) as nat)) / pow10((-d.scale) as nat)
    }
}

/// Splitting digits: the value of the first `m` digits, shifted, plus the
/// value of the rest.
pub proof fn lemma_val_split(d: Seq<u8>, m: int)
    requires
        0 <= m <= d.len(),
    ensures
        val(d) == val(d.subrange(0, m)) * pow10((d.len() - m) as nat) + val(
            d.subrange(m, d.len() as int),
        ),
    decreases d.len(),
{
    if m == d.len() {
        assert(d.subrange(0, m) =~= d);
        assert(d.subrange(m, d.len() as int) =~= Seq::<u8>::empty());
        assert(pow10(0) == 1);
        let v = val(d);
        assert(v == v * pow10(0) + 0) by (nonlinear_arith)
            requires
                pow10(0) == 1,
        ;
    } else {
        let dl = d.drop_last();
        lemma_val_split(dl, m);
        assert(dl.subrange(0, m) =~= d.subrange(0, m));
        let suf = d.subrange(m, d.len() as int);
        assert(suf.drop_last() =~= dl.subrange(m, dl.len() as int));
        assert(suf.last() == d.last());
        let p = val(d.subrange(0, m));
        let k = (dl.len() - m) as nat;
        let q = pow10(k);
        let r = val(dl.subrange(m, dl.len() as int));
        let l = d.last() as nat;
        assert(val(d) == val(dl) * 10 + l);
        assert(val(suf) == r * 10 + l);
        assert(pow10(k + 1) == 10 * q);
        assert((d.len() - m) as nat == k + 1);
        assert((p * q + r) * 10 + l == p * (10 * q) + (r * 10 + l)) by (nonlinear_arith);
        assert(val(d) == p * pow10((d.len() - m) as nat) + val(suf));
    }
}

proof fn lemma_digits_wf_subrange(d: Seq<u8>, a: int, b: int)
    requires
        digits_wf(d),
        0 <= a <= b <= d.len(),
    ensures
        digits_wf(d.subrange(a, b)),
{
    assert forall|i: int| 0 <= i < d.subrange(a, b).len() implies #[trigger] d.subrange(a, b)[i]
        < 10 by {
        assert(d.subrange(a, b)[i] == d[a + i]);
    }
}

/// With `k` digits after the point, the whole part is the leading digits and
/// the first dropped digit decides the rounding.
proof fn lemma_round_split(d: Seq<u8>, k: nat)
    requires
        digits_wf(d),
        1 <= k <= d.len(),
    ensures
        (val(d) + 5 * pow10((k - 1) as nat)) / pow10(k) == val(d.subrange(0, d.len() - k)) + (
        if d[d.len() - k] >= 5 {
            1int
        } else {
            0int
        }),
{
    let m = d.len() - k;
    lemma_val_split(d, m);
    let pre = val(d.subrange(0, m));
    let suf = d.subrange(m, d.len() as int);
    lemma_digits_wf_subrange(d, m, d.len() as int);
    lemma_val_first(suf);
    lemma_digits_wf_subrange(suf, 1, suf.len() as int);
    assert(suf.drop_first() =~= suf.subrange(1, suf.len() as int));
    lemma_val_bound(suf.drop_first());
    let p1 = pow10((k - 1) as nat);
    let p = pow10(k);
    assert(p == 10 * p1) by {
        assert(k == (k - 1) as nat + 1);
    }
    lemma_pow10_pos((k - 1) as nat);
    let first = suf[0] as nat;
    assert(first == d[m]);
    assert(first < 10);
    let rest = val(suf.drop_first());
    assert(rest < p1);
    assert(val(suf) == first * p1 + rest);
    let total = val(d) + 5 * p1;
    assert(val(d) == pre * p + val(suf));
    let bump: int = if first >= 5 {
        1
    } else {
        0
    };
    assert(total == pre * p + (first * p1 + rest + 5 * p1));
    assert(0 <= first * p1 + rest + 5 * p1 - bump * p < p) by (nonlinear_arith)
        requires
            first < 10,
            rest < p1,
            p == 10 * p1,
            p1 >= 1,
            bump == (if first >= 5 {
                1int
            } else {
                0int
            }),
    ;
    assert(total == (pre + bump) * p + (first * p1 + rest + 5 * p1 - bump * p)) by (nonlinear_arith)
        requires
            total == pre * p + (first * p1 + rest + 5 * p1),
    ;
    vstd::arithmetic::div_mod::lemma_fundamental_div_mod_converse(
        total as int,
        p as int,
        (pre + bump) as int,
        (first * p1 + rest + 5 * p1 - bump * p) as int,
    );
}

/// A magnitude below a tenth of `10^k` rounds to zero with `k` digits after
/// the point.
proof fn lemma_round_small(d: Seq<u8>, k: nat)
    requires
        digits_wf(d),
        d.len() < k,
    ensures
        (val(d) + 5 * pow10((k - 1) as nat)) / pow10(k) == 0,
{
    lemma_val_bound(d);
    lemma_pow10_mono(d.len(), (k - 1) as nat);
    let p1 = pow10((k - 1) as nat);
    let p = pow10(k);
    assert(p == 10 * p1) by {
        assert(k == (k - 1) as nat + 1);
    }
    assert(val(d) + 5 * p1 < p);
    vstd::arithmetic::div_mod::lemma_basic_div((val(d) + 5 * p1) as int, p as int);
}

/// The leading digits weigh no more than all of them.
proof fn lemma_prefix_le(d: Seq<u8>, i: int, m: int)
    requires
        0 <= i <= m <= d.len(),
    ensures
        val(d.subrange(0, i)) <= val(d.subrange(0, m)),
{
    let e = d.subrange(0, m);
    lemma_val_split(e, i);
    assert(e.subrange(0, i) =~= d.subrange(0, i));
    lemma_pow10_pos((e.len() - i) as nat);
    let a = val(d.subrange(0, i));
    let q = pow10((e.len() - i) as nat);
    assert(a <= a * q) by (nonlinear_arith)
        requires
            q >= 1,
    ;
}

/// The value of the first `m` digits, or `None` once it exceeds `cap`.
fn prefix_value(digits: &Vec<u8>, m: usize, cap: u64) -> (r: Option<u64>)
    requires
        digits_wf(digits@),
        m <= digits@.len(),
    ensures
        match r {
            Some(n) => n == val(digits@.subrange(0, m as int)) && n <= cap,
            None => val(digits@.subrange(0, m as int)) > cap,
        },
{
    let mut acc: u64 = 0;
    let mut i: usize = 0;
    assert(digits@.subrange(0, 0) =~= Seq::<u8>::empty());
    while i < m
        invariant
            digits_wf(digits@),
            m <= digits@.len(),
                i <= m,
            acc == val(digits@.subrange(0, i as int)),
            acc <= cap,
        decreases m - i,
    {
        let ghost next = digits@.subrange(0, i + 1);
        assert(next.drop_last() =~= digits@.subrange(0, i as int));
        assert(next.last() == digits@[i as int]);
        assert(digits@[i as int] < 10);
        let value: u128 = acc as u128 * 10 + digits[i] as u128;
        assert(value == val(next));
        if value > cap as u128 {
            proof {
                lemma_prefix_le(digits@, i + 1, m as int);
            }
            return None;
        }
        acc = value as u64;
        i = i + 1;
    }
    Some(acc)
}

/// The magnitude of `d` rounded to a whole number, or `None` when that
/// exceeds `cap`.
pub fn rounded_magnitude_capped(d: &Decimal, cap: u64) -> (r: Option<u64>)
    requires
        decimal_wf(d@),
    ensures
        match r {
            Some(n) => n == rounded_magnitude(d@) && n <= cap,
            None => rounded_magnitude(d@) > cap,
        },
{
    let len = d.digits.len();
    if d.scale >= 0 {
        let whole = prefix_value(&d.digits, len, cap);
        assert(d.digits@.subrange(0, len as int) =~= d.digits@);
        let mut acc = match whole {
            Some(n) => n,
            None => {
                proof {
                    lemma_pow10_pos(d.scale as nat);
                    let v = val(d.digits@);
                    let q = pow10(d.scale as nat);
                    assert(v <= v * q) by (nonlinear_arith)
                        requires
                            q >= 1,
                    ;
                }
                return None;
            },
        };
        assert(acc == val(d.digits@));
        if acc == 0 {
            proof {
                let q = pow10(d.scale as nat);
                assert(0 * q == 0) by (nonlinear_arith);
            }
            return Some(0);
        }
        let mut s: i128 = 0;
        assert(pow10(0) == 1);
        assert(acc as int == val(d.digits@) * pow10(0)) by (nonlinear_arith)
            requires
                pow10(0) == 1,
                acc as int == val(d.digits@),
        ;
        while s < d.scale
            invariant
                0 <= s <= d.scale,
                d.scale < 0x1_0000_0000_0000_0000_0000,
                acc as int == val(d.digits@) * pow10(s as nat),
                1 <= acc <= cap,
                    decreases d.scale - s,
        {
            if acc > cap / 10 {
                proof {
                    let rest = (d.scale - s) as nat;
                    lemma_pow10_add(s as nat, rest);
                    assert(d.scale as nat == s as nat + rest);
                    lemma_pow10_pos((rest - 1) as nat);
                    assert(pow10(rest) == 10 * pow10((rest - 1) as nat));
                    let v = val(d.digits@);
                    let a = acc as int;
                    let q = pow10(rest);
                    assert(rounded_magnitude(d@) == a * q) by (nonlinear_arith)
                        requires
                            a == v * pow10(s as nat),
                            rounded_magnitude(d@) == v * pow10(d.scale as nat),
                            pow10(d.scale as nat) == pow10(s as nat) * q,
                    ;
                    assert(a * q >= a * 10) by (nonlinear_arith)
                        requires
                            q >= 10,
                            a >= 0,
                    ;
                }
                return None;
            }
            proof {
                lemma_pow10_add(s as nat, 1);
                reveal_with_fuel(pow10, 2);
                assert(pow10(1) == 10);
                let v = val(d.digits@);
                assert(v * pow10((s + 1) as nat) == (v * pow10(s as nat)) * 10) by (nonlinear_arith)
                    requires
                        pow10((s + 1) as nat) == pow10(s as nat) * 10,
                ;
            }
            acc = acc * 10;
            s = s + 1;
        }
        Some(acc)
    } else {
        let k: i128 = -d.scale;
        if (len as i128) < k {
            proof {
                lemma_round_small(d.digits@, k as nat);
            }
            return Some(0);
        }
        let m: usize = (len as i128 - k) as usize;
        proof {
            lemma_round_split(d.digits@, k as nat);
        }
        let whole = match prefix_value(&d.digits, m, cap) {
            Some(n) => n,
            None => return None,
        };
        let up = d.digits[m] >= 5;
        if up {
            if whole == cap {
                return None;
            }
            Some(whole + 1)
        } else {
            Some(whole)
        }
    }
}

} // verus!
