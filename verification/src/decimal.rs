//! Numeric text as the venues send it.
//!
//! The venues send prices, sizes and balances as decimal text. This module
//! reads such text by the syntax that the standard library's float parser
//! accepts (an optional sign, then `inf`, `infinity` or `nan` in any case, or
//! digits with an optional point and an optional exponent whose magnitude is
//! read up to 65536), and keeps the exact decimal value it denotes.
//!
//! Decisions that the adapters take on such values (finite or not, positive,
//! which of two is larger) are taken here on the exact value. A binary64
//! double overflows to infinity exactly when the magnitude reaches
//! `2^1024 - 2^970`, and rounds to zero exactly when the magnitude is at most
//! `2^-1075`; both bounds are held as exact decimals below.

use vstd::prelude::*;
use crate::text::{all_digits, digit_of, digit_value, eq_ignore_ascii_case, is_ascii_digit, lower};

verus! {

/// A decimal value `(-1)^neg * digits * 10^scale`, where `digits` are the
/// base-ten digits of an integer, most significant first.
#[derive(Debug)]
pub struct Decimal {
    pub neg: bool,
    pub digits: Vec<u8>,
    pub scale: i128,
}

/// What a numeric text denotes.
#[derive(Debug)]
pub enum NumberText {
    NotANumber,
    Infinite { neg: bool },
    Finite(Decimal),
}

pub ghost struct DecimalView {
    pub neg: bool,
    pub digits: Seq<u8>,
    pub scale: int,
}

pub ghost enum NumberKind {
    NotANumber,
    Infinite { neg: bool },
    Finite(DecimalView),
}

impl View for Decimal {
    type V = DecimalView;

    open spec fn view(&self) -> DecimalView {
        DecimalView { neg: self.neg, digits: self.digits@, scale: self.scale as int }
    }
}

impl View for NumberText {
    type V = NumberKind;

    open spec fn view(&self) -> NumberKind {
        match self {
            NumberText::NotANumber => NumberKind::NotANumber,
            NumberText::Infinite { neg } => NumberKind::Infinite { neg: *neg },
            NumberText::Finite(d) => NumberKind::Finite(d@),
        }
    }
}

pub open spec fn pow10(k: nat) -> nat
    decreases k,
{
    if k == 0 {
        1
    } else {
        10 * pow10((k - 1) as nat)
    }
}

pub open spec fn digits_wf(d: Seq<u8>) -> bool {
    forall|i: int| 0 <= i < d.len() ==> #[trigger] d[i] < 10
}

/// The integer whose decimal digits are `d`.
pub open spec fn val(d: Seq<u8>) -> nat
    decreases d.len(),
{
    if d.len() == 0 {
        0
    } else {
        val(d.drop_last()) * 10 + d.last() as nat
    }
}

pub open spec fn min_int(a: int, b: int) -> int {
    if a <= b {
        a
    } else {
        b
    }
}

/// Compares `|a|` with `|b|`: -1, 0 or 1. Both magnitudes are brought to the
/// smaller of the two scales, where they are integers.
pub open spec fn mag_order(a: DecimalView, b: DecimalView) -> int {
    let m = min_int(a.scale, b.scale);
    let x = val(a.digits) * pow10((a.scale - m) as nat);
    let y = val(b.digits) * pow10((b.scale - m) as nat);
    if x < y {
        -1
    } else if x == y {
        0
    } else {
        1
    }
}

pub open spec fn is_zero(a: DecimalView) -> bool {
    val(a.digits) == 0
}

/// Compares the signed values `a` and `b`: -1, 0 or 1.
pub open spec fn value_order(a: DecimalView, b: DecimalView) -> int {
    let pa = !a.neg || is_zero(a);
    let pb = !b.neg || is_zero(b);
    if is_zero(a) && is_zero(b) {
        0
    } else if pa && !pb {
        1
    } else if !pa && pb {
        -1
    } else if pa {
        mag_order(a, b)
    } else {
        -mag_order(a, b)
    }
}

/// Comparing two values one way gives the opposite of comparing them the
/// other way, and every value compares equal to itself.
pub proof fn value_order_is_antisymmetric(a: DecimalView, b: DecimalView)
    ensures
        value_order(a, b) == -value_order(b, a),
        value_order(a, a) == 0,
{
}

pub open spec fn is_e(c: char) -> bool {
    c == 'e' || c == 'E'
}

pub open spec fn is_dot(c: char) -> bool {
    c == '.'
}

/// Index of the first `e`/`E` in `b`, or its length.
pub open spec fn exp_index(b: Seq<char>) -> nat
    decreases b.len(),
{
    if b.len() == 0 {
        0
    } else if is_e(b[0]) {
        0
    } else {
        1 + exp_index(b.drop_first())
    }
}

/// Index of the first `.` in `b`, or its length.
pub open spec fn dot_index(b: Seq<char>) -> nat
    decreases b.len(),
{
    if b.len() == 0 {
        0
    } else if is_dot(b[0]) {
        0
    } else {
        1 + dot_index(b.drop_first())
    }
}

/// The exponent digits folded the way the float parser folds them: digits
/// stop counting once the magnitude reaches 65536.
pub open spec fn capped_exp(d: Seq<char>) -> int
    decreases d.len(),
{
    if d.len() == 0 {
        0
    } else {
        let e = capped_exp(d.drop_last());
        if e < 0x10000 {
            10 * e + digit_of(d.last()) as int
        } else {
            e
        }
    }
}

/// The exponent part after `e`: an optional sign and at least one digit.
pub open spec fn exp_value(x: Seq<char>) -> Option<int> {
    let neg = x.len() > 0 && x[0] == '-';
    let sl: int = if x.len() > 0 && (x[0] == '-' || x[0] == '+') {
        1
    } else {
        0
    };
    let d = x.subrange(sl, x.len() as int);
    if d.len() > 0 && all_digits(d) {
        Some(
            if neg {
                -capped_exp(d)
            } else {
                capped_exp(d)
            },
        )
    } else {
        None
    }
}

pub open spec fn digits_of_chars(c: Seq<char>) -> Seq<u8> {
    c.map_values(|ch: char| digit_of(ch) as u8)
}

/// A finite number: digits with at most one point, at least one digit, and an
/// optional exponent.
pub open spec fn finite_value(b: Seq<char>, neg: bool) -> Option<DecimalView> {
    let ie = exp_index(b) as int;
    let mant = b.subrange(0, ie);
    let id = dot_index(mant) as int;
    let ip = mant.subrange(0, id);
    let fp = if id < mant.len() {
        mant.subrange(id + 1, mant.len() as int)
    } else {
        Seq::<char>::empty()
    };
    let e: Option<int> = if ie < b.len() {
        exp_value(b.subrange(ie + 1, b.len() as int))
    } else {
        Some(0)
    };
    if all_digits(ip) && all_digits(fp) && ip.len() + fp.len() > 0 && e.is_some() {
        Some(DecimalView { neg, digits: digits_of_chars(ip + fp), scale: e.unwrap() - fp.len() })
    } else {
        None
    }
}

pub open spec fn nan_word() -> Seq<char> {
    seq!['n', 'a', 'n']
}

pub open spec fn inf_word() -> Seq<char> {
    seq!['i', 'n', 'f']
}

pub open spec fn infinity_word() -> Seq<char> {
    seq!['i', 'n', 'f', 'i', 'n', 'i', 't', 'y']
}

/// What the standard float parser accepts of `s`, kept exactly.
pub open spec fn number_kind(s: Seq<char>) -> Option<NumberKind> {
    let signed = s.len() > 0 && (s[0] == '-' || s[0] == '+');
    let neg = s.len() > 0 && s[0] == '-';
    let b = if signed {
        s.drop_first()
    } else {
        s
    };
    if b.len() == 0 {
        None
    } else if lower(b) == nan_word() {
        Some(NumberKind::NotANumber)
    } else if lower(b) == inf_word() || lower(b) == infinity_word() {
        Some(NumberKind::Infinite { neg })
    } else {
        match finite_value(b, neg) {
            Some(d) => Some(NumberKind::Finite(d)),
            None => None,
        }
    }
}

/// The smallest magnitude that rounds to infinity: `2^1024 - 2^970`.
pub open spec fn overflow_bound() -> DecimalView {
    DecimalView { neg: false, digits: overflow_digits(), scale: 0 }
}

/// The largest magnitude that rounds to zero: `2^-1075`.
pub open spec fn underflow_bound() -> DecimalView {
    DecimalView { neg: false, digits: underflow_digits(), scale: -1075 }
}

/// The gap between 1.0 and the next double: `2^-52`.
pub open spec fn epsilon_bound() -> DecimalView {
    DecimalView { neg: false, digits: epsilon_digits(), scale: -52 }
}

/// The text reads as a finite double.
pub open spec fn reads_finite(k: NumberKind) -> bool {
    match k {
        NumberKind::Finite(d) => mag_order(d, overflow_bound()) < 0,
        _ => false,
    }
}

/// A finite value that reads as a double of zero (it rounds to zero).
pub open spec fn reads_zero(d: DecimalView) -> bool {
    mag_order(d, underflow_bound()) <= 0
}

/// A finite value that reads as a double above zero.
pub open spec fn reads_positive(d: DecimalView) -> bool {
    !d.neg && !reads_zero(d)
}

/// Its magnitude exceeds `f64::EPSILON`.
pub open spec fn exceeds_epsilon(d: DecimalView) -> bool {
    mag_order(d, epsilon_bound()) > 0
}

/// The digits of `2^1024 - 2^970`.
pub open spec fn overflow_digits() -> Seq<u8> {
    seq![1u8, 7, 9, 7, 6, 9, 3, 1, 3, 4, 8, 6, 2, 3, 1, 5, 8, 0, 7, 9, 3, 7, 2, 8, 9, 7, 1, 4, 0, 5, 3, 0, 3, 4, 1, 5, 0, 7, 9, 9, 3, 4, 1, 3, 2, 7, 1, 0, 0, 3, 7, 8, 2, 6, 9, 3, 6, 1, 7, 3, 7, 7, 8, 9, 8, 0, 4, 4, 4, 9, 6, 8, 2, 9, 2, 7, 6, 4, 7, 5, 0, 9, 4, 6, 6, 4, 9, 0, 1, 7, 9, 7, 7, 5, 8, 7, 2, 0, 7, 0, 9, 6, 3, 3, 0, 2, 8, 6, 4, 1, 6, 6, 9, 2, 8, 8, 7, 9, 1, 0, 9, 4, 6, 5, 5, 5, 5, 4, 7, 8, 5, 1, 9, 4, 0, 4, 0, 2, 6, 3, 0, 6, 5, 7, 4, 8, 8, 6, 7, 1, 5, 0, 5, 8, 2, 0, 6, 8, 1, 9, 0, 8, 9, 0, 2, 0, 0, 0, 7, 0, 8, 3, 8, 3, 6, 7, 6, 2, 7, 3, 8, 5, 4, 8, 4, 5, 8, 1, 7, 7, 1, 1, 5, 3, 1, 7, 6, 4, 4, 7, 5, 7, 3, 0, 2, 7, 0, 0, 6, 9, 8, 5, 5, 5, 7, 1, 3, 6, 6, 9, 5, 9, 6, 2, 2, 8, 4, 2, 9, 1, 4, 8, 1, 9, 8, 6, 0, 8, 3, 4, 9, 3, 6, 4, 7, 5, 2, 9, 2, 7, 1, 9, 0, 7, 4, 1, 6, 8, 4, 4, 4, 3, 6, 5, 5, 1, 0, 7, 0, 4, 3, 4, 2, 7, 1, 1, 5, 5, 9, 6, 9, 9, 5, 0, 8, 0, 9, 3, 0, 4, 2, 8, 8, 0, 1, 7, 7, 9, 0, 4, 1, 7, 4, 4, 9, 7, 7, 9, 2]
}

/// The digits of `5^1075`, so that `2^-1075` is these digits times `10^-1075`.
pub open spec fn underflow_digits() -> Seq<u8> {
    seq![2u8, 4, 7, 0, 3, 2, 8, 2, 2, 9, 2, 0, 6, 2, 3, 2, 7, 2, 0, 8, 8, 2, 8, 4, 3, 9, 6, 4, 3, 4, 1, 1, 0, 6, 8, 6, 1, 8, 2, 5, 2, 9, 9, 0, 1, 3, 0, 7, 1, 6, 2, 3, 8, 2, 2, 1, 2, 7, 9, 2, 8, 4, 1, 2, 5, 0, 3, 3, 7, 7, 5, 3, 6, 3, 5, 1, 0, 4, 3, 7, 5, 9, 3, 2, 6, 4, 9, 9, 1, 8, 1, 8, 0, 8, 1, 7, 9, 9, 6, 1, 8, 9, 8, 9, 8, 2, 8, 2, 3, 4, 7, 7, 2, 2, 8, 5, 8, 8, 6, 5, 4, 6, 3, 3, 2, 8, 3, 5, 5, 1, 7, 7, 9, 6, 9, 8, 9, 8, 1, 9, 9, 3, 8, 7, 3, 9, 8, 0, 0, 5, 3, 9, 0, 9, 3, 9, 0, 6, 3, 1, 5, 0, 3, 5, 6, 5, 9, 5, 1, 5, 5, 7, 0, 2, 2, 6, 3, 9, 2, 2, 9, 0, 8, 5, 8, 3, 9, 2, 4, 4, 9, 1, 0, 5, 1, 8, 4, 4, 3, 5, 9, 3, 1, 8, 0, 2, 8, 4, 9, 9, 3, 6, 5, 3, 6, 1, 5, 2, 5, 0, 0, 3, 1, 9, 3, 7, 0, 4, 5, 7, 6, 7, 8, 2, 4, 9, 2, 1, 9, 3, 6, 5, 6, 2, 3, 6, 6, 9, 8, 6, 3, 6, 5, 8, 4, 8, 0, 7, 5, 7, 0, 0, 1, 5, 8, 5, 7, 6, 9, 2, 6, 9, 9, 0, 3, 7, 0, 6, 3, 1, 1, 9, 2, 8, 2, 7, 9, 5, 5, 8, 5, 5, 1, 3, 3, 2, 9, 2, 7, 8, 3, 4, 3, 3, 8, 4, 0, 9, 3, 5, 1, 9, 7, 8, 0, 1, 5, 5, 3, 1, 2, 4, 6, 5, 9, 7, 2, 6, 3, 5, 7, 9, 5, 7, 4, 6, 2, 2, 7, 6, 6, 4, 6, 5, 2, 7, 2, 8, 2, 7, 2, 2, 0, 0, 5, 6, 3, 7, 4, 0, 0, 6, 4, 8, 5, 4, 9, 9, 9, 7, 7, 0, 9, 6, 5, 9, 9, 4, 7, 0, 4, 5, 4, 0, 2, 0, 8, 2, 8, 1, 6, 6, 2, 2, 6, 2, 3, 7, 8, 5, 7, 3, 9, 3, 4, 5, 0, 7, 3, 6, 3, 3, 9, 0, 0, 7, 9, 6, 7, 7, 6, 1, 9, 3, 0, 5, 7, 7, 5, 0, 6, 7, 4, 0, 1, 7, 6, 3, 2, 4, 6, 7, 3, 6, 0, 0, 9, 6, 8, 9, 5, 1, 3, 4, 0, 5, 3, 5, 5, 3, 7, 4, 5, 8, 5, 1, 6, 6, 6, 1, 1, 3, 4, 2, 2, 3, 7, 6, 6, 6, 7, 8, 6, 0, 4, 1, 6, 2, 1, 5, 9, 6, 8, 0, 4, 6, 1, 9, 1, 4, 4, 6, 7, 2, 9, 1, 8, 4, 0, 3, 0, 0, 5, 3, 0, 0, 5, 7, 5, 3, 0, 8, 4, 9, 0, 4, 8, 7, 6, 5, 3, 9, 1, 7, 1, 1, 3, 8, 6, 5, 9, 1, 6, 4, 6, 2, 3, 9, 5, 2, 4, 9, 1, 2, 6, 2, 3, 6, 5, 3, 8, 8, 1, 8, 7, 9, 6, 3, 6, 2, 3, 9, 3, 7, 3, 2, 8, 0, 4, 2, 3, 8, 9, 1, 0, 1, 8, 6, 7, 2, 3, 4, 8, 4, 9, 7, 6, 6, 8, 2, 3, 5, 0, 8, 9, 8, 6, 3, 3, 8, 8, 5, 8, 7, 9, 2, 5, 6, 2, 8, 3, 0, 2, 7, 5, 5, 9, 9, 5, 6, 5, 7, 5, 2, 4, 4, 5, 5, 5, 0, 7, 2, 5, 5, 1, 8, 9, 3, 1, 3, 6, 9, 0, 8, 3, 6, 2, 5, 4, 7, 7, 9, 1, 8, 6, 9, 4, 8, 6, 6, 7, 9, 9, 4, 9, 6, 8, 3, 2, 4, 0, 4, 9, 7, 0, 5, 8, 2, 1, 0, 2, 8, 5, 1, 3, 1, 8, 5, 4, 5, 1, 3, 9, 6, 2, 1, 3, 8, 3, 7, 7, 2, 2, 8, 2, 6, 1, 4, 5, 4, 3, 7, 6, 9, 3, 4, 1, 2, 5, 3, 2, 0, 9, 8, 5, 9, 1, 3, 2, 7, 6, 6, 7, 2, 3, 6, 3, 2, 8, 1, 2, 5]
}

/// The digits of `5^52`, so that `2^-52` is these digits times `10^-52`.
pub open spec fn epsilon_digits() -> Seq<u8> {
    seq![2u8, 2, 2, 0, 4, 4, 6, 0, 4, 9, 2, 5, 0, 3, 1, 3, 0, 8, 0, 8, 4, 7, 2, 6, 3, 3, 3, 6, 1, 8, 1, 6, 4, 0, 6, 2, 5]
}


pub proof fn lemma_pow10_pos(k: nat)
    ensures
        pow10(k) >= 1,
    decreases k,
{
    if k > 0 {
        lemma_pow10_pos((k - 1) as nat);
    }
}

pub proof fn lemma_pow10_add(a: nat, b: nat)
    ensures
        pow10(a + b) == pow10(a) * pow10(b),
    decreases b,
{
    if b > 0 {
        let c = (b - 1) as nat;
        lemma_pow10_add(a, c);
        let p = pow10(a);
        let q = pow10(c);
        assert(pow10(a + c) == p * q);
        assert(pow10(a + c + 1) == 10 * pow10(a + c));
        assert(pow10(c + 1) == 10 * q);
        assert(a + b == a + c + 1);
        assert(pow10(a + b) == 10 * (p * q));
        assert(pow10(b) == 10 * q);
        assert(10 * (p * q) == p * (10 * q)) by (nonlinear_arith);
        assert(pow10(a + b) == p * pow10(b));
    } else {
        assert(pow10(0) == 1);
        assert(a + b == a);
    }
}

pub proof fn lemma_pow10_mono(a: nat, b: nat)
    requires
        a <= b,
    ensures
        pow10(a) <= pow10(b),
    decreases b,
{
    if a < b {
        lemma_pow10_mono(a, (b - 1) as nat);
        lemma_pow10_pos((b - 1) as nat);
    }
}

pub proof fn lemma_val_bound(d: Seq<u8>)
    requires
        digits_wf(d),
    ensures
        val(d) < pow10(d.len()),
    decreases d.len(),
{
    if d.len() > 0 {
        let dl = d.drop_last();
        assert(digits_wf(dl)) by {
            assert forall|i: int| 0 <= i < dl.len() implies #[trigger] dl[i] < 10 by {
                assert(dl[i] == d[i]);
            }
        }
        lemma_val_bound(dl);
        assert(d.last() < 10) by {
            assert(d[d.len() - 1] < 10);
        }
        assert(pow10(d.len()) == 10 * pow10(dl.len()));
        let v = val(dl);
        let p = pow10(dl.len());
        let l = d.last() as nat;
        assert(v < p && l < 10 ==> v * 10 + l < 10 * p) by (nonlinear_arith);
    }
}

pub proof fn lemma_val_first(d: Seq<u8>)
    requires
        d.len() > 0,
    ensures
        val(d) == d[0] as nat * pow10((d.len() - 1) as nat) + val(d.drop_first()),
    decreases d.len(),
{
    if d.len() == 1 {
        assert(d.drop_last().len() == 0);
        assert(d.drop_first().len() == 0);
        assert(d.last() == d[0]);
        assert(val(d.drop_first()) == 0);
        assert(val(d.drop_last()) == 0);
        assert(val(d) == val(d.drop_last()) * 10 + d.last() as nat);
        assert(pow10(0) == 1);
        assert(d[0] as nat * pow10(0) == d[0] as nat);
    } else {
        let dl = d.drop_last();
        let df = d.drop_first();
        lemma_val_first(dl);
        assert(dl.drop_first() =~= df.drop_last());
        assert(df.last() == d.last());
        assert(dl[0] == d[0]);
        let a = d[0] as nat;
        let k = (dl.len() - 1) as nat;
        let p = pow10(k);
        let r = val(dl.drop_first());
        let l = d.last() as nat;
        assert(val(dl) == a * p + r);
        assert(val(d) == val(dl) * 10 + l);
        assert(val(df) == val(df.drop_last()) * 10 + df.last() as nat);
        assert(val(df) == r * 10 + l);
        assert((d.len() - 1) as nat == k + 1);
        assert(pow10(k + 1) == 10 * p);
        assert((a * p + r) * 10 + l == a * (10 * p) + (r * 10 + l)) by (nonlinear_arith);
        assert(val(d) == a * pow10((d.len() - 1) as nat) + val(df));
    }
}

proof fn lemma_val_leading(d: Seq<u8>)
    requires
        d.len() > 0,
        d[0] >= 1,
    ensures
        val(d) >= pow10((d.len() - 1) as nat),
{
    lemma_val_first(d);
    let p = pow10((d.len() - 1) as nat);
    let a = d[0] as nat;
    assert(a >= 1 ==> a * p >= p) by (nonlinear_arith);
}

/// Leading zero digits do not change the value.
proof fn lemma_val_skip_zeros(d: Seq<u8>, k: int)
    requires
        0 <= k <= d.len(),
        forall|i: int| 0 <= i < k ==> #[trigger] d[i] == 0,
    ensures
        val(d) == val(d.subrange(k, d.len() as int)),
    decreases k,
{
    if k > 0 {
        lemma_val_first(d);
        let t = d.drop_first();
        assert(forall|i: int| 0 <= i < k - 1 ==> #[trigger] t[i] == d[i + 1]);
        lemma_val_skip_zeros(t, k - 1);
        assert(t.subrange(k - 1, t.len() as int) =~= d.subrange(k, d.len() as int));
        assert(d[0] as nat * pow10((d.len() - 1) as nat) == 0);
    } else {
        assert(d.subrange(0, d.len() as int) =~= d);
    }
}

pub open spec fn zeros(k: nat) -> Seq<u8> {
    Seq::new(k, |i: int| 0u8)
}

proof fn lemma_val_pad(d: Seq<u8>, k: nat)
    ensures
        val(d + zeros(k)) == val(d) * pow10(k),
    decreases k,
{
    if k == 0 {
        assert(d + zeros(0) =~= d);
        assert(pow10(0) == 1);
    } else {
        let c = (k - 1) as nat;
        lemma_val_pad(d, c);
        let e = d + zeros(k);
        assert(e.drop_last() =~= d + zeros(c));
        assert(e.last() == 0);
        let v = val(d);
        let p = pow10(c);
        assert(val(e) == val(e.drop_last()) * 10 + e.last() as nat);
        assert(val(e) == (v * p) * 10);
        assert(pow10(k) == 10 * p);
        assert((v * p) * 10 == v * (10 * p)) by (nonlinear_arith);
    }
}

/// Equal-length digit strings are ordered as their first difference.
proof fn lemma_val_lex(a: Seq<u8>, b: Seq<u8>, i: int)
    requires
        a.len() == b.len(),
        digits_wf(a),
        digits_wf(b),
        0 <= i < a.len(),
        forall|j: int| 0 <= j < i ==> #[trigger] a[j] == b[j],
        a[i] < b[i],
    ensures
        val(a) < val(b),
    decreases i,
{
    lemma_val_first(a);
    lemma_val_first(b);
    let ta = a.drop_first();
    let tb = b.drop_first();
    assert(digits_wf(ta)) by {
        assert forall|j: int| 0 <= j < ta.len() implies #[trigger] ta[j] < 10 by {
            assert(ta[j] == a[j + 1]);
        }
    }
    assert(digits_wf(tb)) by {
        assert forall|j: int| 0 <= j < tb.len() implies #[trigger] tb[j] < 10 by {
            assert(tb[j] == b[j + 1]);
        }
    }
    let p = pow10((a.len() - 1) as nat);
    if i == 0 {
        lemma_val_bound(ta);
        let x = a[0] as nat;
        let y = b[0] as nat;
        let ra = val(ta);
        let rb = val(tb);
        assert(x < y && ra < p ==> x * p + ra < y * p + rb) by (nonlinear_arith);
    } else {
        assert(a[0] == b[0]);
        assert forall|j: int| 0 <= j < i - 1 implies #[trigger] ta[j] == tb[j] by {
            assert(ta[j] == a[j + 1]);
            assert(tb[j] == b[j + 1]);
        }
        lemma_val_lex(ta, tb, i - 1);
    }
}

pub open spec fn first_nonzero(d: Seq<u8>, k: int) -> bool {
    &&& 0 <= k <= d.len()
    &&& forall|i: int| 0 <= i < k ==> #[trigger] d[i] == 0
    &&& k < d.len() ==> d[k] != 0
}

fn leading_zeros(d: &Vec<u8>) -> (k: usize)
    ensures
        first_nonzero(d@, k as int),
{
    let mut k: usize = 0;
    while k < d.len() && d[k] == 0
        invariant
            k <= d.len(),
            forall|i: int| 0 <= i < k ==> #[trigger] d@[i] == 0,
        decreases d.len() - k,
    {
        k = k + 1;
    }
    k
}

proof fn lemma_zero_iff(d: Seq<u8>, k: int)
    requires
        first_nonzero(d, k),
        digits_wf(d),
    ensures
        (val(d) == 0) == (k == d.len()),
{
    lemma_val_skip_zeros(d, k);
    let t = d.subrange(k, d.len() as int);
    if k < d.len() {
        assert(t[0] == d[k]);
        lemma_val_leading(t);
        lemma_pow10_pos((t.len() - 1) as nat);
    } else {
        assert(t.len() == 0);
    }
}

/// The digit at position `k` of `d[f..]` followed by zeros.
fn padded_digit(d: &Vec<u8>, f: usize, k: usize) -> (r: u8)
    requires
        f <= d.len(),
    ensures
        (f + k < d.len()) ==> r == d@[f + k],
        (f + k >= d.len()) ==> r == 0,
{
    if k < d.len() - f {
        d[f + k]
    } else {
        0
    }
}

/// Compares `|a|` with `|b|`.
pub fn compare_magnitude(a: &Decimal, b: &Decimal) -> (r: i8)
    requires
        digits_wf(a.digits@),
        digits_wf(b.digits@),
        a.digits@.len() < 0x1_0000_0000_0000_0000,
        b.digits@.len() < 0x1_0000_0000_0000_0000,
        -0x1_0000_0000_0000_0000_0000 < a.scale < 0x1_0000_0000_0000_0000_0000,
        -0x1_0000_0000_0000_0000_0000 < b.scale < 0x1_0000_0000_0000_0000_0000,
    ensures
        r as int == mag_order(a@, b@),
{
    let fa = leading_zeros(&a.digits);
    let fb = leading_zeros(&b.digits);
    let la = a.digits.len();
    let lb = b.digits.len();
    let ghost da = a.digits@;
    let ghost db = b.digits@;
    let ghost m = min_int(a.scale as int, b.scale as int);
    let ghost pa = (a.scale - m) as nat;
    let ghost pb = (b.scale - m) as nat;
    let ghost ta = da.subrange(fa as int, la as int);
    let ghost tb = db.subrange(fb as int, lb as int);
    proof {
        lemma_zero_iff(da, fa as int);
        lemma_zero_iff(db, fb as int);
        lemma_val_skip_zeros(da, fa as int);
        lemma_val_skip_zeros(db, fb as int);
        lemma_pow10_pos(pa);
        lemma_pow10_pos(pb);
    }
    if fa == la {
        if fb == lb {
            assert(val(da) * pow10(pa) == 0 && val(db) * pow10(pb) == 0) by (nonlinear_arith)
                requires
                    val(da) == 0,
                    val(db) == 0,
            ;
            return 0;
        } else {
            assert(val(db) * pow10(pb) > 0 && val(da) * pow10(pa) == 0) by (nonlinear_arith)
                requires
                    val(db) > 0,
                    val(da) == 0,
                    pow10(pb) >= 1,
            ;
            return -1;
        }
    }
    if fb == lb {
        assert(val(da) * pow10(pa) > 0 && val(db) * pow10(pb) == 0) by (nonlinear_arith)
            requires
                val(da) > 0,
                val(db) == 0,
                pow10(pa) >= 1,
        ;
        return 1;
    }
    let na: i128 = (la - fa) as i128;
    let nb: i128 = (lb - fb) as i128;
    let ea: i128 = na + a.scale;
    let eb: i128 = nb + b.scale;
    let ghost wa = ta + zeros(pa);
    let ghost wb = tb + zeros(pb);
    proof {
        lemma_val_pad(ta, pa);
        lemma_val_pad(tb, pb);
        assert(wa.len() == ea - m);
        assert(wb.len() == eb - m);
        assert(wa[0] == ta[0] && ta[0] == da[fa as int]);
        assert(wb[0] == tb[0] && tb[0] == db[fb as int]);
        assert(digits_wf(wa)) by {
            assert forall|i: int| 0 <= i < wa.len() implies #[trigger] wa[i] < 10 by {
                if i < ta.len() {
                    assert(wa[i] == da[fa + i]);
                }
            }
        }
        assert(digits_wf(wb)) by {
            assert forall|i: int| 0 <= i < wb.len() implies #[trigger] wb[i] < 10 by {
                if i < tb.len() {
                    assert(wb[i] == db[fb + i]);
                }
            }
        }
        lemma_val_bound(wa);
        lemma_val_bound(wb);
        lemma_val_leading(wa);
        lemma_val_leading(wb);
    }
    if ea < eb {
        proof {
            lemma_pow10_mono(wa.len(), (wb.len() - 1) as nat);
        }
        return -1;
    }
    if ea > eb {
        proof {
            lemma_pow10_mono(wb.len(), (wa.len() - 1) as nat);
        }
        return 1;
    }
    let span: usize = if la - fa >= lb - fb {
        la - fa
    } else {
        lb - fb
    };
    let mut k: usize = 0;
    while k < span
        invariant
            fa < la == a.digits@.len(),
            fb < lb == b.digits@.len(),
            da == a.digits@,
            db == b.digits@,
            span == if la - fa >= lb - fb {
                la - fa
            } else {
                lb - fb
            },
            k <= span,
            wa.len() == wb.len(),
            ta == da.subrange(fa as int, la as int),
            tb == db.subrange(fb as int, lb as int),
            wa == ta + zeros(pa),
            wb == tb + zeros(pb),
            forall|j: int| 0 <= j < k ==> #[trigger] wa[j] == wb[j],
            span <= wa.len(),
            digits_wf(wa),
            digits_wf(wb),
            val(wa) == val(da) * pow10(pa),
            val(wb) == val(db) * pow10(pb),
            m == min_int(a.scale as int, b.scale as int),
            pa == (a.scale - m) as nat,
            pb == (b.scale - m) as nat,
        decreases span - k,
    {
        let x = padded_digit(&a.digits, fa, k);
        let y = padded_digit(&b.digits, fb, k);
        proof {
            if fa + k < la {
                assert(wa[k as int] == x);
            } else {
                assert(wa[k as int] == 0);
            }
            if fb + k < lb {
                assert(wb[k as int] == y);
            } else {
                assert(wb[k as int] == 0);
            }
        }
        if x < y {
            proof {
                lemma_val_lex(wa, wb, k as int);
            }
            return -1;
        }
        if x > y {
            proof {
                lemma_val_lex(wb, wa, k as int);
            }
            return 1;
        }
        k = k + 1;
    }
    proof {
        assert forall|j: int| 0 <= j < wa.len() implies wa[j] == wb[j] by {
            if j >= span {
                assert(wa[j] == 0);
                assert(wb[j] == 0);
            }
        }
        assert(wa =~= wb);
    }
    0
}

proof fn lemma_exp_index(b: Seq<char>, k: int)
    requires
        0 <= k <= b.len(),
        forall|j: int| 0 <= j < k ==> !is_e(#[trigger] b[j]),
        k < b.len() ==> is_e(b[k]),
    ensures
        exp_index(b) == k,
    decreases k,
{
    if k > 0 {
        let t = b.drop_first();
        assert(!is_e(b[0]));
        assert forall|j: int| 0 <= j < k - 1 implies !is_e(#[trigger] t[j]) by {
            assert(t[j] == b[j + 1]);
        }
        lemma_exp_index(t, k - 1);
    }
}

proof fn lemma_dot_index(b: Seq<char>, k: int)
    requires
        0 <= k <= b.len(),
        forall|j: int| 0 <= j < k ==> !is_dot(#[trigger] b[j]),
        k < b.len() ==> is_dot(b[k]),
    ensures
        dot_index(b) == k,
    decreases k,
{
    if k > 0 {
        let t = b.drop_first();
        assert(!is_dot(b[0]));
        assert forall|j: int| 0 <= j < k - 1 implies !is_dot(#[trigger] t[j]) by {
            assert(t[j] == b[j + 1]);
        }
        lemma_dot_index(t, k - 1);
    }
}

/// First position in `s[from..to]` holding `e`/`E` (or `.` when `dot`), or `to`.
fn find_marker(s: &str, from: usize, to: usize, dot: bool) -> (k: usize)
    requires
        from <= to <= s@.len(),
    ensures
        from <= k <= to,
        forall|j: int| from <= j < k ==> !(if dot {
            is_dot(#[trigger] s@[j])
        } else {
            is_e(s@[j])
        }),
        k < to ==> (if dot {
            is_dot(s@[k as int])
        } else {
            is_e(s@[k as int])
        }),
{
    let mut k = from;
    while k < to
        invariant
            from <= k <= to,
            to <= s@.len(),
            forall|j: int| from <= j < k ==> !(if dot {
                is_dot(#[trigger] s@[j])
            } else {
                is_e(s@[j])
            }),
        decreases to - k,
    {
        let c = s.get_char(k);
        if (dot && c == '.') || (!dot && (c == 'e' || c == 'E')) {
            return k;
        }
        k = k + 1;
    }
    k
}

/// Appends the digits of `s[from..to]`; false when some char is not a digit.
fn collect_digits(s: &str, from: usize, to: usize, out: &mut Vec<u8>) -> (ok: bool)
    requires
        from <= to <= s@.len(),
    ensures
        ok == all_digits(s@.subrange(from as int, to as int)),
        ok ==> final(out)@ == old(out)@ + digits_of_chars(s@.subrange(from as int, to as int)),
{
    let mut k = from;
    while k < to
        invariant
            from <= k <= to,
            to <= s@.len(),
            all_digits(s@.subrange(from as int, k as int)),
            out@ == old(out)@ + digits_of_chars(s@.subrange(from as int, k as int)),
        decreases to - k,
    {
        let c = s.get_char(k);
        match digit_value(c) {
            None => {
                assert(s@.subrange(from as int, to as int)[k - from] == c);
                return false;
            },
            Some(d) => {
                out.push(d);
                proof {
                    let prev = s@.subrange(from as int, k as int);
                    let next = s@.subrange(from as int, k + 1);
                    assert(next =~= prev.push(c));
                    assert(digits_of_chars(next) =~= digits_of_chars(prev).push(d));
                    assert(all_digits(next)) by {
                        assert forall|j: int| 0 <= j < next.len() implies is_ascii_digit(
                            #[trigger] next[j],
                        ) by {
                            if j < prev.len() {
                                assert(next[j] == prev[j]);
                            }
                        }
                    }
                }
                k = k + 1;
            },
        }
    }
    true
}

/// The exponent text `s[from..to]` read as the float parser reads it.
fn read_exponent(s: &str, from: usize, to: usize) -> (r: Option<i64>)
    requires
        from <= to <= s@.len(),
    ensures
        r.is_some() == exp_value(s@.subrange(from as int, to as int)).is_some(),
        r matches Some(v) ==> v as int == exp_value(s@.subrange(from as int, to as int)).unwrap(),
{
    let ghost x = s@.subrange(from as int, to as int);
    let mut neg = false;
    let mut k = from;
    if from < to {
        let c = s.get_char(from);
        assert(x[0] == c);
        if c == '-' || c == '+' {
            neg = c == '-';
            k = from + 1;
        }
    }
    let ghost sl: int = if x.len() > 0 && (x[0] == '-' || x[0] == '+') {
        1
    } else {
        0
    };
    assert(sl == k - from);
    assert(neg == (x.len() > 0 && x[0] == '-'));
    assert(x.subrange(sl, x.len() as int) =~= s@.subrange(k as int, to as int));
    if k >= to {
        assert(x.subrange(sl, x.len() as int).len() == 0);
        return None;
    }
    let start = k;
    let mut e: i64 = 0;
    while k < to
        invariant
            start <= k <= to,
            to <= s@.len(),
            0 <= e <= 0x10000 * 10 + 9,
            x == s@.subrange(from as int, to as int),
            x.subrange(sl, x.len() as int) == s@.subrange(start as int, to as int),
            neg == (x.len() > 0 && x[0] == '-'),
            sl == (if x.len() > 0 && (x[0] == '-' || x[0] == '+') {
                1int
            } else {
                0int
            }),
            all_digits(s@.subrange(start as int, k as int)),
            e as int == capped_exp(s@.subrange(start as int, k as int)),
        decreases to - k,
    {
        let c = s.get_char(k);
        match digit_value(c) {
            None => {
                assert(s@.subrange(start as int, to as int)[k - start] == c);
                return None;
            },
            Some(d) => {
                proof {
                    let prev = s@.subrange(start as int, k as int);
                    let next = s@.subrange(start as int, k + 1);
                    assert(next.drop_last() =~= prev);
                    assert(next.last() == c);
                    assert(all_digits(next)) by {
                        assert forall|j: int| 0 <= j < next.len() implies is_ascii_digit(
                            #[trigger] next[j],
                        ) by {
                            if j < prev.len() {
                                assert(next[j] == prev[j]);
                            }
                        }
                    }
                }
                if e < 0x10000 {
                    e = 10 * e + (d as i64);
                }
                k = k + 1;
            },
        }
    }
    if neg {
        Some(-e)
    } else {
        Some(e)
    }
}

/// Reads numeric text the way `str::parse` for doubles does, keeping the
/// exact decimal it denotes.
#[verifier::rlimit(60)]
pub fn parse_number_text(s: &str) -> (r: Option<NumberText>)
    ensures
        match r {
            Some(n) => number_kind(s@) == Some(n@),
            None => number_kind(s@).is_none(),
        },
        r matches Some(NumberText::Finite(d)) ==> {
            &&& digits_wf(d.digits@)
            &&& d.digits@.len() < 0x1_0000_0000_0000_0000
            &&& -0x1_0000_0000_0000_0000_0000 < d.scale < 0x1_0000_0000_0000_0000_0000
        },
{
    let n = s.unicode_len();
    let ghost sv = s@;
    if n == 0 {
        return None;
    }
    let c0 = s.get_char(0);
    let signed = c0 == '-' || c0 == '+';
    let neg = c0 == '-';
    let from: usize = if signed {
        1
    } else {
        0
    };
    let ghost b = if signed {
        sv.drop_first()
    } else {
        sv
    };
    assert(b =~= sv.subrange(from as int, n as int));
    if from == n {
        return None;
    }
    let body = s.substring_char(from, n);
    assert(body@ == b);
    proof {
        reveal_strlit("nan");
        reveal_strlit("inf");
        reveal_strlit("infinity");
        assert("nan"@ =~= nan_word());
        assert("inf"@ =~= inf_word());
        assert("infinity"@ =~= infinity_word());
        assert(lower(nan_word()) =~= nan_word());
        assert(lower(inf_word()) =~= inf_word());
        assert(lower(infinity_word()) =~= infinity_word());
    }
    if eq_ignore_ascii_case(body, "nan") {
        return Some(NumberText::NotANumber);
    }
    if eq_ignore_ascii_case(body, "inf") || eq_ignore_ascii_case(body, "infinity") {
        return Some(NumberText::Infinite { neg });
    }
    let ie = find_marker(s, from, n, false);
    proof {
        assert forall|j: int| 0 <= j < ie - from implies !is_e(#[trigger] b[j]) by {
            assert(b[j] == sv[from + j]);
        }
        if ie < n {
            assert(b[ie - from] == sv[ie as int]);
        }
        lemma_exp_index(b, ie - from);
    }
    let id = find_marker(s, from, ie, true);
    let ghost mant = b.subrange(0, ie - from);
    proof {
        assert forall|j: int| 0 <= j < id - from implies !is_dot(#[trigger] mant[j]) by {
            assert(mant[j] == sv[from + j]);
        }
        if id < ie {
            assert(mant[id - from] == sv[id as int]);
        }
        lemma_dot_index(mant, id - from);
    }
    let ghost ip = mant.subrange(0, id - from);
    let ghost fp = if id < ie {
        mant.subrange(id - from + 1, mant.len() as int)
    } else {
        Seq::<char>::empty()
    };
    assert(ip =~= sv.subrange(from as int, id as int));
    let mut digits: Vec<u8> = Vec::new();
    if !collect_digits(s, from, id, &mut digits) {
        return None;
    }
    let frac_start: usize = if id < ie {
        id + 1
    } else {
        ie
    };
    assert(fp =~= sv.subrange(frac_start as int, ie as int));
    if !collect_digits(s, frac_start, ie, &mut digits) {
        return None;
    }
    assert(digits@ =~= digits_of_chars(ip + fp));
    let frac_len = ie - frac_start;
    if id - from + frac_len == 0 {
        return None;
    }
    let e: i64 = if ie < n {
        assert(b.subrange(ie - from + 1, b.len() as int) =~= sv.subrange(ie + 1, n as int));
        match read_exponent(s, ie + 1, n) {
            None => {
                return None;
            },
            Some(v) => v,
        }
    } else {
        0
    };
    let scale: i128 = (e as i128) - (frac_len as i128);
    proof {
        assert(digits_wf(digits@)) by {
            assert forall|i: int| 0 <= i < digits@.len() implies #[trigger] digits@[i] < 10 by {
                let c = (ip + fp)[i];
                assert(is_ascii_digit(c)) by {
                    if i < ip.len() {
                        assert(c == ip[i]);
                    } else {
                        assert(c == fp[i - ip.len()]);
                    }
                }
            }
        }
    }
    Some(NumberText::Finite(Decimal { neg, digits, scale }))
}

fn overflow_decimal() -> (r: Decimal)
    ensures
        r@ == overflow_bound(),
        digits_wf(r.digits@),
        r.digits@.len() < 1000,
{
    let digits = overflow_vec();
    Decimal { neg: false, digits, scale: 0 }
}

#[verifier::rlimit(60)]
fn underflow_decimal() -> (r: Decimal)
    ensures
        r@ == underflow_bound(),
        digits_wf(r.digits@),
        r.digits@.len() < 1000,
{
    let digits = underflow_vec();
    Decimal { neg: false, digits, scale: -1075 }
}

fn epsilon_decimal() -> (r: Decimal)
    ensures
        r@ == epsilon_bound(),
        digits_wf(r.digits@),
        r.digits@.len() < 1000,
{
    let digits = epsilon_vec();
    Decimal { neg: false, digits, scale: -52 }
}

pub open spec fn decimal_wf(d: DecimalView) -> bool {
    &&& digits_wf(d.digits)
    &&& d.digits.len() < 0x1_0000_0000_0000_0000
    &&& -0x1_0000_0000_0000_0000_0000 < d.scale < 0x1_0000_0000_0000_0000_0000
}

/// The text names a finite double: not NaN, not infinite, not overflowing.
pub fn is_finite_number(n: &NumberText) -> (r: bool)
    requires
        n matches NumberText::Finite(d) ==> decimal_wf(d@),
    ensures
        r == reads_finite(n@),
{
    match n {
        NumberText::Finite(d) => {
            let t = overflow_decimal();
            compare_magnitude(d, &t) < 0
        },
        _ => false,
    }
}

/// The value reads as a double of zero.
pub fn is_zero_reading(d: &Decimal) -> (r: bool)
    requires
        decimal_wf(d@),
    ensures
        r == reads_zero(d@),
{
    let t = underflow_decimal();
    compare_magnitude(d, &t) <= 0
}

/// The value reads as a double above zero.
pub fn is_positive_reading(d: &Decimal) -> (r: bool)
    requires
        decimal_wf(d@),
    ensures
        r == reads_positive(d@),
{
    !d.neg && !is_zero_reading(d)
}

/// Its magnitude is above `f64::EPSILON`.
pub fn is_above_epsilon(d: &Decimal) -> (r: bool)
    requires
        decimal_wf(d@),
    ensures
        r == exceeds_epsilon(d@),
{
    let t = epsilon_decimal();
    compare_magnitude(d, &t) > 0
}

/// Compares two signed values.
pub fn compare_values(a: &Decimal, b: &Decimal) -> (r: i8)
    requires
        decimal_wf(a@),
        decimal_wf(b@),
    ensures
        r as int == value_order(a@, b@),
{
    let fa = leading_zeros(&a.digits);
    let fb = leading_zeros(&b.digits);
    proof {
        lemma_zero_iff(a.digits@, fa as int);
        lemma_zero_iff(b.digits@, fb as int);
    }
    let za = fa == a.digits.len();
    let zb = fb == b.digits.len();
    let pa = !a.neg || za;
    let pb = !b.neg || zb;
    if za && zb {
        0
    } else if pa && !pb {
        1
    } else if !pa && pb {
        -1
    } else if pa {
        compare_magnitude(a, b)
    } else {
        let c = compare_magnitude(a, b);
        -c
    }
}

fn overflow_vec() -> (r: Vec<u8>)
    ensures
        r@ == overflow_digits(),
{
    let r: Vec<u8> = vec![1u8, 7, 9, 7, 6, 9, 3, 1, 3, 4, 8, 6, 2, 3, 1, 5, 8, 0, 7, 9, 3, 7, 2, 8, 9, 7, 1, 4, 0, 5, 3, 0, 3, 4, 1, 5, 0, 7, 9, 9, 3, 4, 1, 3, 2, 7, 1, 0, 0, 3, 7, 8, 2, 6, 9, 3, 6, 1, 7, 3, 7, 7, 8, 9, 8, 0, 4, 4, 4, 9, 6, 8, 2, 9, 2, 7, 6, 4, 7, 5, 0, 9, 4, 6, 6, 4, 9, 0, 1, 7, 9, 7, 7, 5, 8, 7, 2, 0, 7, 0, 9, 6, 3, 3, 0, 2, 8, 6, 4, 1, 6, 6, 9, 2, 8, 8, 7, 9, 1, 0, 9, 4, 6, 5, 5, 5, 5, 4, 7, 8, 5, 1, 9, 4, 0, 4, 0, 2, 6, 3, 0, 6, 5, 7, 4, 8, 8, 6, 7, 1, 5, 0, 5, 8, 2, 0, 6, 8, 1, 9, 0, 8, 9, 0, 2, 0, 0, 0, 7, 0, 8, 3, 8, 3, 6, 7, 6, 2, 7, 3, 8, 5, 4, 8, 4, 5, 8, 1, 7, 7, 1, 1, 5, 3, 1, 7, 6, 4, 4, 7, 5, 7, 3, 0, 2, 7, 0, 0, 6, 9, 8, 5, 5, 5, 7, 1, 3, 6, 6, 9, 5, 9, 6, 2, 2, 8, 4, 2, 9, 1, 4, 8, 1, 9, 8, 6, 0, 8, 3, 4, 9, 3, 6, 4, 7, 5, 2, 9, 2, 7, 1, 9, 0, 7, 4, 1, 6, 8, 4, 4, 4, 3, 6, 5, 5, 1, 0, 7, 0, 4, 3, 4, 2, 7, 1, 1, 5, 5, 9, 6, 9, 9, 5, 0, 8, 0, 9, 3, 0, 4, 2, 8, 8, 0, 1, 7, 7, 9, 0, 4, 1, 7, 4, 4, 9, 7, 7, 9, 2];
    assert(r@ =~= overflow_digits());
    r
}

fn underflow_vec() -> (r: Vec<u8>)
    ensures
        r@ == underflow_digits(),
{
    let r: Vec<u8> = vec![2u8, 4, 7, 0, 3, 2, 8, 2, 2, 9, 2, 0, 6, 2, 3, 2, 7, 2, 0, 8, 8, 2, 8, 4, 3, 9, 6, 4, 3, 4, 1, 1, 0, 6, 8, 6, 1, 8, 2, 5, 2, 9, 9, 0, 1, 3, 0, 7, 1, 6, 2, 3, 8, 2, 2, 1, 2, 7, 9, 2, 8, 4, 1, 2, 5, 0, 3, 3, 7, 7, 5, 3, 6, 3, 5, 1, 0, 4, 3, 7, 5, 9, 3, 2, 6, 4, 9, 9, 1, 8, 1, 8, 0, 8, 1, 7, 9, 9, 6, 1, 8, 9, 8, 9, 8, 2, 8, 2, 3, 4, 7, 7, 2, 2, 8, 5, 8, 8, 6, 5, 4, 6, 3, 3, 2, 8, 3, 5, 5, 1, 7, 7, 9, 6, 9, 8, 9, 8, 1, 9, 9, 3, 8, 7, 3, 9, 8, 0, 0, 5, 3, 9, 0, 9, 3, 9, 0, 6, 3, 1, 5, 0, 3, 5, 6, 5, 9, 5, 1, 5, 5, 7, 0, 2, 2, 6, 3, 9, 2, 2, 9, 0, 8, 5, 8, 3, 9, 2, 4, 4, 9, 1, 0, 5, 1, 8, 4, 4, 3, 5, 9, 3, 1, 8, 0, 2, 8, 4, 9, 9, 3, 6, 5, 3, 6, 1, 5, 2, 5, 0, 0, 3, 1, 9, 3, 7, 0, 4, 5, 7, 6, 7, 8, 2, 4, 9, 2, 1, 9, 3, 6, 5, 6, 2, 3, 6, 6, 9, 8, 6, 3, 6, 5, 8, 4, 8, 0, 7, 5, 7, 0, 0, 1, 5, 8, 5, 7, 6, 9, 2, 6, 9, 9, 0, 3, 7, 0, 6, 3, 1, 1, 9, 2, 8, 2, 7, 9, 5, 5, 8, 5, 5, 1, 3, 3, 2, 9, 2, 7, 8, 3, 4, 3, 3, 8, 4, 0, 9, 3, 5, 1, 9, 7, 8, 0, 1, 5, 5, 3, 1, 2, 4, 6, 5, 9, 7, 2, 6, 3, 5, 7, 9, 5, 7, 4, 6, 2, 2, 7, 6, 6, 4, 6, 5, 2, 7, 2, 8, 2, 7, 2, 2, 0, 0, 5, 6, 3, 7, 4, 0, 0, 6, 4, 8, 5, 4, 9, 9, 9, 7, 7, 0, 9, 6, 5, 9, 9, 4, 7, 0, 4, 5, 4, 0, 2, 0, 8, 2, 8, 1, 6, 6, 2, 2, 6, 2, 3, 7, 8, 5, 7, 3, 9, 3, 4, 5, 0, 7, 3, 6, 3, 3, 9, 0, 0, 7, 9, 6, 7, 7, 6, 1, 9, 3, 0, 5, 7, 7, 5, 0, 6, 7, 4, 0, 1, 7, 6, 3, 2, 4, 6, 7, 3, 6, 0, 0, 9, 6, 8, 9, 5, 1, 3, 4, 0, 5, 3, 5, 5, 3, 7, 4, 5, 8, 5, 1, 6, 6, 6, 1, 1, 3, 4, 2, 2, 3, 7, 6, 6, 6, 7, 8, 6, 0, 4, 1, 6, 2, 1, 5, 9, 6, 8, 0, 4, 6, 1, 9, 1, 4, 4, 6, 7, 2, 9, 1, 8, 4, 0, 3, 0, 0, 5, 3, 0, 0, 5, 7, 5, 3, 0, 8, 4, 9, 0, 4, 8, 7, 6, 5, 3, 9, 1, 7, 1, 1, 3, 8, 6, 5, 9, 1, 6, 4, 6, 2, 3, 9, 5, 2, 4, 9, 1, 2, 6, 2, 3, 6, 5, 3, 8, 8, 1, 8, 7, 9, 6, 3, 6, 2, 3, 9, 3, 7, 3, 2, 8, 0, 4, 2, 3, 8, 9, 1, 0, 1, 8, 6, 7, 2, 3, 4, 8, 4, 9, 7, 6, 6, 8, 2, 3, 5, 0, 8, 9, 8, 6, 3, 3, 8, 8, 5, 8, 7, 9, 2, 5, 6, 2, 8, 3, 0, 2, 7, 5, 5, 9, 9, 5, 6, 5, 7, 5, 2, 4, 4, 5, 5, 5, 0, 7, 2, 5, 5, 1, 8, 9, 3, 1, 3, 6, 9, 0, 8, 3, 6, 2, 5, 4, 7, 7, 9, 1, 8, 6, 9, 4, 8, 6, 6, 7, 9, 9, 4, 9, 6, 8, 3, 2, 4, 0, 4, 9, 7, 0, 5, 8, 2, 1, 0, 2, 8, 5, 1, 3, 1, 8, 5, 4, 5, 1, 3, 9, 6, 2, 1, 3, 8, 3, 7, 7, 2, 2, 8, 2, 6, 1, 4, 5, 4, 3, 7, 6, 9, 3, 4, 1, 2, 5, 3, 2, 0, 9, 8, 5, 9, 1, 3, 2, 7, 6, 6, 7, 2, 3, 6, 3, 2, 8, 1, 2, 5];
    assert(r@ =~= underflow_digits());
    r
}

fn epsilon_vec() -> (r: Vec<u8>)
    ensures
        r@ == epsilon_digits(),
{
    let r: Vec<u8> = vec![2u8, 2, 2, 0, 4, 4, 6, 0, 4, 9, 2, 5, 0, 3, 1, 3, 0, 8, 0, 8, 4, 7, 2, 6, 3, 3, 3, 6, 1, 8, 1, 6, 4, 0, 6, 2, 5];
    assert(r@ =~= epsilon_digits());
    r
}

} // verus!
