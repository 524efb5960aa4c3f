//! Character and string helpers shared by the venue parsers.
//!
//! Strings are reasoned about through their `Seq<char>` view. Every helper
//! states its result over that view, so the parsers above can phrase their
//! contracts in terms of trimming, case folding and decimal rendering.

use vstd::prelude::*;

verus! {

/// The Unicode `White_Space` property, which `char::is_whitespace` tests and
/// `str::trim` strips.
pub open spec fn is_white_space(c: char) -> bool {
    let u = c as u32;
    ||| u == 0x20
    ||| (0x09 <= u && u <= 0x0d)
    ||| u == 0x85
    ||| u == 0xa0
    ||| u == 0x1680
    ||| (0x2000 <= u && u <= 0x200a)
    ||| u == 0x2028
    ||| u == 0x2029
    ||| u == 0x202f
    ||| u == 0x205f
    ||| u == 0x3000
}

/// `s` with its leading white space removed.
pub open spec fn trim_start(s: Seq<char>) -> Seq<char>
    decreases s.len(),
{
    if s.len() > 0 && is_white_space(s[0]) {
        trim_start(s.drop_first())
    } else {
        s
    }
}

/// `s` with its trailing white space removed.
pub open spec fn trim_end(s: Seq<char>) -> Seq<char>
    decreases s.len(),
{
    if s.len() > 0 && is_white_space(s.last()) {
        trim_end(s.drop_last())
    } else {
        s
    }
}

/// What `str::trim` returns: both ends stripped of white space.
pub open spec fn trim(s: Seq<char>) -> Seq<char> {
    trim_end(trim_start(s))
}

/// A text holds nothing but white space (`s.trim().is_empty()`).
pub open spec fn is_blank(s: Seq<char>) -> bool {
    forall|i: int| 0 <= i < s.len() ==> is_white_space(#[trigger] s[i])
}

pub open spec fn upper_char(c: char) -> char {
    if 'a' <= c && c <= 'z' {
        ((c as u32) - 32) as char
    } else {
        c
    }
}

pub open spec fn lower_char(c: char) -> char {
    if 'A' <= c && c <= 'Z' {
        ((c as u32) + 32) as char
    } else {
        c
    }
}

/// `str::to_ascii_uppercase`.
pub open spec fn upper(s: Seq<char>) -> Seq<char> {
    s.map_values(|c: char| upper_char(c))
}

/// `str::to_ascii_lowercase`.
pub open spec fn lower(s: Seq<char>) -> Seq<char> {
    s.map_values(|c: char| lower_char(c))
}

/// Upper-casing twice is upper-casing once, and it neither adds nor removes
/// white space.
pub proof fn lemma_upper_idempotent(s: Seq<char>)
    ensures
        upper(upper(s)) == upper(s),
        is_blank(upper(s)) == is_blank(s),
{
    assert forall|i: int| 0 <= i < s.len() implies #[trigger] upper_char(upper_char(s[i]))
        == upper_char(s[i]) && (is_white_space(upper_char(s[i])) == is_white_space(s[i])) by {
        let c = s[i];
        if 'a' <= c && c <= 'z' {
            assert(upper_char(c) == ((c as u32) - 32) as char);
        }
    }
    assert(upper(upper(s)) =~= upper(s));
    if is_blank(s) {
        assert forall|i: int| 0 <= i < upper(s).len() implies is_white_space(
            #[trigger] upper(s)[i],
        ) by {
            assert(upper(s)[i] == upper_char(s[i]));
        }
    }
    if is_blank(upper(s)) {
        assert forall|i: int| 0 <= i < s.len() implies is_white_space(#[trigger] s[i]) by {
            assert(upper(s)[i] == upper_char(s[i]));
        }
    }
}

/// `str::eq_ignore_ascii_case`.
pub open spec fn eq_ignore_case(a: Seq<char>, b: Seq<char>) -> bool {
    lower(a) == lower(b)
}

pub open spec fn digit_char(d: nat) -> char
    recommends
        d < 10,
{
    ((d + 48) as u8) as char
}

/// The decimal digits of `n`, most significant first, without leading zeros.
pub open spec fn nat_text(n: nat) -> Seq<char>
    decreases n,
{
    if n < 10 {
        seq![digit_char(n)]
    } else {
        nat_text(n / 10).push(digit_char(n % 10))
    }
}

/// How `i64::to_string` renders a value.
pub open spec fn int_text(v: int) -> Seq<char> {
    if v < 0 {
        seq!['-'] + nat_text((-v) as nat)
    } else {
        nat_text(v as nat)
    }
}

pub open spec fn is_ascii_digit(c: char) -> bool {
    '0' <= c && c <= '9'
}

pub open spec fn digit_of(c: char) -> nat {
    ((c as u32) - 48) as nat
}

pub open spec fn all_digits(s: Seq<char>) -> bool {
    forall|i: int| 0 <= i < s.len() ==> is_ascii_digit(#[trigger] s[i])
}

/// The value of a run of decimal digits, leading zeros allowed.
pub open spec fn digits_value(s: Seq<char>) -> nat
    decreases s.len(),
{
    if s.len() == 0 {
        0
    } else {
        digits_value(s.drop_last()) * 10 + digit_of(s.last())
    }
}

/// The integer that `i64::from_str` / `u64::from_str` reads from `s` before
/// its range check: an optional sign and at least one ASCII digit, nothing
/// else. `signed` says whether a leading `-` is allowed.
pub open spec fn parse_int_text(s: Seq<char>, signed: bool) -> Option<int> {
    if s.len() > 0 && s[0] == '-' && signed {
        let rest = s.drop_first();
        if rest.len() > 0 && all_digits(rest) {
            Some(-(digits_value(rest) as int))
        } else {
            None
        }
    } else if s.len() > 0 && s[0] == '+' {
        let rest = s.drop_first();
        if rest.len() > 0 && all_digits(rest) {
            Some(digits_value(rest) as int)
        } else {
            None
        }
    } else if s.len() > 0 && all_digits(s) {
        Some(digits_value(s) as int)
    } else {
        None
    }
}

/// What `s.parse::<i64>()` gives.
pub open spec fn parse_i64_text(s: Seq<char>) -> Option<i64> {
    match parse_int_text(s, true) {
        Some(v) => if i64::MIN <= v && v <= i64::MAX {
            Some(v as i64)
        } else {
            None
        },
        None => None,
    }
}

/// What `s.parse::<u64>()` gives.
pub open spec fn parse_u64_text(s: Seq<char>) -> Option<u64> {
    match parse_int_text(s, false) {
        Some(v) => if 0 <= v && v <= u64::MAX {
            Some(v as u64)
        } else {
            None
        },
        None => None,
    }
}

/// What `s.parse::<u128>()` gives.
pub open spec fn parse_u128_text(s: Seq<char>) -> Option<u128> {
    match parse_int_text(s, false) {
        Some(v) => if 0 <= v && v <= u128::MAX {
            Some(v as u128)
        } else {
            None
        },
        None => None,
    }
}

/// `String::push`.
#[verifier::external_body]
pub fn push_char(s: &mut String, c: char)
    ensures
        final(s)@ == old(s)@.push(c),
{
    s.push(c);
}

/// `String::push_str`.
#[verifier::external_body]
pub fn push_str(s: &mut String, t: &str)
    ensures
        final(s)@ == old(s)@ + t@,
{
    s.push_str(t);
}

pub fn is_white_space_char(c: char) -> (r: bool)
    ensures
        r == is_white_space(c),
{
    let u = c as u32;
    u == 0x20 || (0x09 <= u && u <= 0x0d) || u == 0x85 || u == 0xa0 || u == 0x1680 || (0x2000
        <= u && u <= 0x200a) || u == 0x2028 || u == 0x2029 || u == 0x202f || u == 0x205f || u
        == 0x3000
}

proof fn lemma_trim_start_skip(s: Seq<char>, i: int)
    requires
        0 <= i < s.len(),
        is_white_space(s[i]),
    ensures
        trim_start(s.subrange(i, s.len() as int)) == trim_start(s.subrange(i + 1, s.len() as int)),
{
    let t = s.subrange(i, s.len() as int);
    assert(t.drop_first() =~= s.subrange(i + 1, s.len() as int));
}

proof fn lemma_trim_end_skip(s: Seq<char>, j: int)
    requires
        0 < j <= s.len(),
        is_white_space(s[j - 1]),
    ensures
        trim_end(s.subrange(0, j)) == trim_end(s.subrange(0, j - 1)),
{
    let t = s.subrange(0, j);
    assert(t.drop_last() =~= s.subrange(0, j - 1));
}

proof fn lemma_trim_end_of_blank(s: Seq<char>)
    requires
        is_blank(s),
    ensures
        trim_end(s).len() == 0,
    decreases s.len(),
{
    if s.len() > 0 {
        assert(is_white_space(s[s.len() - 1]));
        assert(is_blank(s.drop_last()));
        lemma_trim_end_of_blank(s.drop_last());
    }
}

proof fn lemma_trim_end_prefix(x: Seq<char>)
    ensures
        trim_end(x).len() <= x.len(),
        trim_end(x) == x.subrange(0, trim_end(x).len() as int),
        trim_end(x).len() == 0 || !is_white_space(trim_end(x).last()),
    decreases x.len(),
{
    if x.len() > 0 && is_white_space(x.last()) {
        lemma_trim_end_prefix(x.drop_last());
        let k = trim_end(x.drop_last()).len() as int;
        assert(x.drop_last().subrange(0, k) =~= x.subrange(0, k));
    } else {
        assert(x.subrange(0, x.len() as int) =~= x);
    }
}

proof fn lemma_trim_start_head(x: Seq<char>)
    ensures
        trim_start(x).len() == 0 || !is_white_space(trim_start(x)[0]),
    decreases x.len(),
{
    if x.len() > 0 && is_white_space(x[0]) {
        lemma_trim_start_head(x.drop_first());
    }
}

/// Trimming a trimmed text changes nothing.
pub proof fn lemma_trim_idempotent(s: Seq<char>)
    ensures
        trim(trim(s)) == trim(s),
{
    let y = trim_start(s);
    lemma_trim_start_head(s);
    lemma_trim_end_prefix(y);
    let t = trim_end(y);
    if t.len() > 0 {
        assert(t[0] == y[0]);
    }
    assert(trim_start(t) == t);
    assert(trim_end(t) == t);
}

/// The char bounds of the trimmed part of `s`: `trim(s) == s[start..end]`.
pub fn trim_bounds(s: &str) -> (r: (usize, usize))
    ensures
        r.0 <= r.1 <= s@.len(),
        trim(s@) == s@.subrange(r.0 as int, r.1 as int),
        (r.0 == r.1) == is_blank(s@),
{
    let n = s.unicode_len();
    let mut i: usize = 0;
    assert(s@.subrange(0, n as int) =~= s@);
    while i < n && is_white_space_char(s.get_char(i))
        invariant
            n == s@.len(),
            i <= n,
            trim_start(s@) == trim_start(s@.subrange(i as int, n as int)),
            forall|k: int| 0 <= k < i ==> is_white_space(#[trigger] s@[k]),
        decreases n - i,
    {
        proof {
            lemma_trim_start_skip(s@, i as int);
        }
        i = i + 1;
    }
    let ghost front = s@.subrange(i as int, n as int);
    if i == n {
        assert(front.len() == 0);
        assert(trim_start(s@).len() == 0);
        assert(is_blank(s@));
        return (i, i);
    }
    assert(trim_start(front) == front);
    let mut j: usize = n;
    while j > i && is_white_space_char(s.get_char(j - 1))
        invariant
            n == s@.len(),
            i < n,
            i < j <= n,
            !is_white_space(s@[i as int]),
            front == s@.subrange(i as int, n as int),
            trim_end(front) == trim_end(s@.subrange(i as int, j as int)),
        decreases j - i,
    {
        proof {
            let t = s@.subrange(i as int, j as int);
            assert(t[t.len() - 1] == s@[j - 1]);
            lemma_trim_end_skip(t, t.len() as int);
            assert(t.subrange(0, t.len() - 1) =~= s@.subrange(i as int, j - 1));
            assert(t.subrange(0, t.len() as int) =~= t);
        }
        j = j - 1;
    }
    proof {
        let t = s@.subrange(i as int, j as int);
        assert(t.len() > 0);
        assert(!is_white_space(t.last()));
        assert(trim_end(t) == t);
        assert(!is_white_space(s@[i as int]));
        assert(!is_blank(s@));
    }
    (i, j)
}

/// `s.trim().to_owned()`.
pub fn trimmed(s: &str) -> (r: String)
    ensures
        r@ == trim(s@),
{
    let (a, b) = trim_bounds(s);
    s.substring_char(a, b).to_owned()
}

/// `s.trim().is_empty()`.
pub fn blank(s: &str) -> (r: bool)
    ensures
        r == is_blank(s@),
{
    let (a, b) = trim_bounds(s);
    a == b
}

pub fn upper_of(c: char) -> (r: char)
    ensures
        r == upper_char(c),
{
    if 'a' <= c && c <= 'z' {
        let v: u32 = (c as u32) - 32;
        let b: u8 = v as u8;
        b as char
    } else {
        c
    }
}

pub fn lower_of(c: char) -> (r: char)
    ensures
        r == lower_char(c),
{
    if 'A' <= c && c <= 'Z' {
        let v: u32 = (c as u32) + 32;
        let b: u8 = v as u8;
        b as char
    } else {
        c
    }
}

/// `s.to_ascii_uppercase()`.
pub fn to_upper(s: &str) -> (r: String)
    ensures
        r@ == upper(s@),
{
    let n = s.unicode_len();
    let mut out = String::new();
    let mut i: usize = 0;
    while i < n
        invariant
            n == s@.len(),
            i <= n,
            out@ == upper(s@.subrange(0, i as int)),
        decreases n - i,
    {
        let c = s.get_char(i);
        push_char(&mut out, upper_of(c));
        proof {
            assert(s@.subrange(0, i + 1) =~= s@.subrange(0, i as int).push(c));
            assert(out@ =~= upper(s@.subrange(0, i + 1)));
        }
        i = i + 1;
    }
    assert(s@.subrange(0, n as int) =~= s@);
    out
}

/// `s.to_ascii_lowercase()`.
pub fn to_lower(s: &str) -> (r: String)
    ensures
        r@ == lower(s@),
{
    let n = s.unicode_len();
    let mut out = String::new();
    let mut i: usize = 0;
    while i < n
        invariant
            n == s@.len(),
            i <= n,
            out@ == lower(s@.subrange(0, i as int)),
        decreases n - i,
    {
        let c = s.get_char(i);
        push_char(&mut out, lower_of(c));
        proof {
            assert(s@.subrange(0, i + 1) =~= s@.subrange(0, i as int).push(c));
            assert(out@ =~= lower(s@.subrange(0, i + 1)));
        }
        i = i + 1;
    }
    assert(s@.subrange(0, n as int) =~= s@);
    out
}

/// `a == b` on string slices.
pub fn str_eq(a: &str, b: &str) -> (r: bool)
    ensures
        r == (a@ == b@),
{
    let n = a.unicode_len();
    if n != b.unicode_len() {
        return false;
    }
    let mut i: usize = 0;
    while i < n
        invariant
            n == a@.len(),
            n == b@.len(),
            i <= n,
            forall|k: int| 0 <= k < i ==> a@[k] == b@[k],
        decreases n - i,
    {
        if a.get_char(i) != b.get_char(i) {
            return false;
        }
        i = i + 1;
    }
    assert(a@ =~= b@);
    true
}

/// `a.eq_ignore_ascii_case(b)`.
pub fn eq_ignore_ascii_case(a: &str, b: &str) -> (r: bool)
    ensures
        r == eq_ignore_case(a@, b@),
{
    let n = a.unicode_len();
    if n != b.unicode_len() {
        assert(lower(a@).len() != lower(b@).len());
        return false;
    }
    let mut i: usize = 0;
    while i < n
        invariant
            n == a@.len(),
            n == b@.len(),
            i <= n,
            forall|k: int| 0 <= k < i ==> lower_char(a@[k]) == lower_char(b@[k]),
        decreases n - i,
    {
        if lower_of(a.get_char(i)) != lower_of(b.get_char(i)) {
            assert(lower(a@)[i as int] != lower(b@)[i as int]);
            return false;
        }
        i = i + 1;
    }
    assert(lower(a@) =~= lower(b@));
    true
}

/// `a.starts_with(b)`.
pub fn starts_with(a: &str, b: &str) -> (r: bool)
    ensures
        r == (b@.len() <= a@.len() && a@.subrange(0, b@.len() as int) == b@),
{
    let n = a.unicode_len();
    let m = b.unicode_len();
    if m > n {
        return false;
    }
    let mut i: usize = 0;
    while i < m
        invariant
            n == a@.len(),
            m == b@.len(),
            m <= n,
            i <= m,
            forall|k: int| 0 <= k < i ==> a@[k] == b@[k],
        decreases m - i,
    {
        if a.get_char(i) != b.get_char(i) {
            assert(a@.subrange(0, m as int)[i as int] != b@[i as int]);
            return false;
        }
        i = i + 1;
    }
    assert(a@.subrange(0, m as int) =~= b@);
    true
}

/// `a.ends_with(b)`.
pub fn ends_with(a: &str, b: &str) -> (r: bool)
    ensures
        r == (b@.len() <= a@.len() && a@.subrange(a@.len() - b@.len(), a@.len() as int) == b@),
{
    let n = a.unicode_len();
    let m = b.unicode_len();
    if m > n {
        return false;
    }
    let off = n - m;
    let mut i: usize = 0;
    while i < m
        invariant
            n == a@.len(),
            m == b@.len(),
            off == n - m,
            i <= m,
            forall|k: int| 0 <= k < i ==> a@[off + k] == b@[k],
        decreases m - i,
    {
        if a.get_char(off + i) != b.get_char(i) {
            assert(a@.subrange(off as int, n as int)[i as int] != b@[i as int]);
            return false;
        }
        i = i + 1;
    }
    assert(a@.subrange(off as int, n as int) =~= b@);
    true
}

/// Appends the decimal digits of `n`.
pub fn push_nat(out: &mut String, n: u64)
    ensures
        final(out)@ == old(out)@ + nat_text(n as nat),
    decreases n,
{
    if n >= 10 {
        push_nat(out, n / 10);
    }
    let d: u8 = (n % 10) as u8;
    push_char(out, ((d + 48) as u8) as char);
    proof {
        if n >= 10 {
            assert(nat_text(n as nat) == nat_text((n / 10) as nat).push(digit_char((n % 10) as nat)));
        } else {
            assert(nat_text(n as nat) == seq![digit_char(n as nat)]);
        }
    }
    assert(final(out)@ =~= old(out)@ + nat_text(n as nat));
}

/// Appends `v.to_string()`.
pub fn push_int(out: &mut String, v: i64)
    ensures
        final(out)@ == old(out)@ + int_text(v as int),
{
    if v < 0 {
        push_char(out, '-');
        let mag: u64 = (0i128 - (v as i128)) as u64;
        push_nat(out, mag);
        assert(final(out)@ =~= old(out)@ + int_text(v as int));
    } else {
        push_nat(out, v as u64);
    }
}

/// `v.to_string()`.
pub fn int_to_string(v: i64) -> (r: String)
    ensures
        r@ == int_text(v as int),
{
    let mut out = String::new();
    push_int(&mut out, v);
    assert(out@ =~= int_text(v as int));
    out
}

/// `v.to_string()` for an unsigned value.
pub fn nat_to_string(v: u64) -> (r: String)
    ensures
        r@ == nat_text(v as nat),
{
    let mut out = String::new();
    push_nat(&mut out, v);
    assert(out@ =~= nat_text(v as nat));
    out
}

pub fn digit_value(c: char) -> (r: Option<u8>)
    ensures
        r.is_some() == is_ascii_digit(c),
        r matches Some(d) ==> d as nat == digit_of(c) && d < 10,
{
    if '0' <= c && c <= '9' {
        let v: u32 = (c as u32) - 48;
        Some(v as u8)
    } else {
        None
    }
}

/// The value of `s[from..]` when it is a nonempty run of digits, capped at
/// `2^64` (any value at or above the cap is out of range for the callers).
fn digits_run(s: &str, from: usize) -> (r: Option<u128>)
    requires
        from <= s@.len(),
    ensures
        r.is_some() == (from < s@.len() && all_digits(s@.subrange(from as int, s@.len() as int))),
        r matches Some(v) ==> {
            let d = digits_value(s@.subrange(from as int, s@.len() as int));
            &&& (d < 0x1_0000_0000_0000_0000 ==> v == d)
            &&& (d >= 0x1_0000_0000_0000_0000 ==> v == 0x1_0000_0000_0000_0000)
        },
{
    let n = s.unicode_len();
    if from >= n {
        return None;
    }
    let cap: u128 = 0x1_0000_0000_0000_0000;
    let mut acc: u128 = 0;
    let mut i: usize = from;
    while i < n
        invariant
            n == s@.len(),
            from <= i <= n,
            cap == 0x1_0000_0000_0000_0000,
            all_digits(s@.subrange(from as int, i as int)),
            digits_value(s@.subrange(from as int, i as int)) < cap ==> acc == digits_value(
                s@.subrange(from as int, i as int),
            ),
            digits_value(s@.subrange(from as int, i as int)) >= cap ==> acc == cap,
        decreases n - i,
    {
        let c = s.get_char(i);
        match digit_value(c) {
            None => {
                assert(!all_digits(s@.subrange(from as int, n as int))) by {
                    assert(s@.subrange(from as int, n as int)[i - from] == c);
                }
                return None;
            },
            Some(d) => {
                let ghost prev = s@.subrange(from as int, i as int);
                let ghost next = s@.subrange(from as int, i + 1);
                assert(next.drop_last() =~= prev);
                assert(next.last() == c);
                assert(digits_value(next) == digits_value(prev) * 10 + d);
                if acc >= cap {
                    acc = cap;
                } else {
                    let t: u128 = acc * 10 + (d as u128);
                    acc = if t >= cap {
                        cap
                    } else {
                        t
                    };
                }
                assert(all_digits(next)) by {
                    assert forall|k: int| 0 <= k < next.len() implies is_ascii_digit(
                        #[trigger] next[k],
                    ) by {
                        if k < prev.len() {
                            assert(next[k] == prev[k]);
                        }
                    }
                }
                i = i + 1;
            },
        }
    }
    Some(acc)
}

/// `s.parse::<i64>().ok()`.
pub fn parse_i64(s: &str) -> (r: Option<i64>)
    ensures
        r == parse_i64_text(s@),
{
    let n = s.unicode_len();
    if n == 0 {
        return None;
    }
    let c0 = s.get_char(0);
    let neg = c0 == '-';
    let start: usize = if c0 == '-' || c0 == '+' {
        1
    } else {
        0
    };
    proof {
        if start == 1 {
            assert(s@.subrange(1, n as int) =~= s@.drop_first());
        } else {
            assert(s@.subrange(0, n as int) =~= s@);
        }
    }
    match digits_run(s, start) {
        None => None,
        Some(v) => {
            if neg {
                if v <= 0x8000_0000_0000_0000 {
                    let m: i128 = 0i128 - (v as i128);
                    Some(m as i64)
                } else {
                    None
                }
            } else {
                if v <= 0x7fff_ffff_ffff_ffff {
                    Some(v as i64)
                } else {
                    None
                }
            }
        },
    }
}

/// `s.parse::<u64>().ok()`.
/// `s.parse::<u128>()`.
pub fn parse_u128(s: &str) -> (r: Option<u128>)
    ensures
        r == parse_u128_text(s@),
{
    let n = s.unicode_len();
    if n == 0 {
        return None;
    }
    let c0 = s.get_char(0);
    if c0 == '-' {
        assert(!is_ascii_digit(s@[0]));
        return None;
    }
    let start: usize = if c0 == '+' {
        1
    } else {
        0
    };
    proof {
        if start == 1 {
            assert(s@.subrange(1, n as int) =~= s@.drop_first());
        } else {
            assert(s@.subrange(0, n as int) =~= s@);
        }
    }
    if start >= n {
        return None;
    }
    let mut acc: u128 = 0;
    let mut fits = true;
    let mut i: usize = start;
    assert(s@.subrange(start as int, start as int).len() == 0);
    while i < n
        invariant
            n == s@.len(),
            start <= i <= n,
            start <= 1,
            start == 1 ==> s@.subrange(1, n as int) == s@.drop_first() && s@[0] == '+',
            start == 0 ==> s@.subrange(0, n as int) == s@ && s@[0] != '+' && s@[0] != '-',
            all_digits(s@.subrange(start as int, i as int)),
            fits ==> acc == digits_value(s@.subrange(start as int, i as int)),
            !fits ==> digits_value(s@.subrange(start as int, i as int)) > u128::MAX,
        decreases n - i,
    {
        let c = s.get_char(i);
        match digit_value(c) {
            None => {
                assert(!all_digits(s@.subrange(start as int, n as int))) by {
                    assert(s@.subrange(start as int, n as int)[i - start] == c);
                }
                if start == 1 {
                    assert(!all_digits(s@.drop_first()));
                } else {
                    assert(!all_digits(s@));
                }
                assert(parse_int_text(s@, false).is_none());
                return None;
            },
            Some(d) => {
                let ghost prev = s@.subrange(start as int, i as int);
                let ghost next = s@.subrange(start as int, i + 1);
                assert(next.drop_last() =~= prev);
                assert(next.last() == c);
                assert(digits_value(next) == digits_value(prev) * 10 + d);
                if fits {
                    match acc.checked_mul(10) {
                        Some(t) => match t.checked_add(d as u128) {
                            Some(u) => {
                                acc = u;
                            },
                            None => {
                                fits = false;
                            },
                        },
                        None => {
                            fits = false;
                        },
                    }
                }
                assert(all_digits(next)) by {
                    assert forall|k: int| 0 <= k < next.len() implies is_ascii_digit(
                        #[trigger] next[k],
                    ) by {
                        if k < prev.len() {
                            assert(next[k] == prev[k]);
                        }
                    }
                }
                i = i + 1;
            },
        }
    }
    if fits {
        Some(acc)
    } else {
        None
    }
}

/// Appends the decimal digits of `n`.
pub fn push_nat128(out: &mut String, n: u128)
    ensures
        final(out)@ == old(out)@ + nat_text(n as nat),
    decreases n,
{
    if n >= 10 {
        push_nat128(out, n / 10);
    }
    let d: u8 = (n % 10) as u8;
    push_char(out, ((d + 48) as u8) as char);
    proof {
        if n >= 10 {
            assert(nat_text(n as nat) == nat_text((n / 10) as nat).push(digit_char((n % 10) as nat)));
        } else {
            assert(nat_text(n as nat) == seq![digit_char(n as nat)]);
        }
    }
    assert(final(out)@ =~= old(out)@ + nat_text(n as nat));
}

pub fn parse_u64(s: &str) -> (r: Option<u64>)
    ensures
        r == parse_u64_text(s@),
{
    let n = s.unicode_len();
    if n == 0 {
        return None;
    }
    let c0 = s.get_char(0);
    if c0 == '-' {
        return None;
    }
    let start: usize = if c0 == '+' {
        1
    } else {
        0
    };
    proof {
        if start == 1 {
            assert(s@.subrange(1, n as int) =~= s@.drop_first());
        } else {
            assert(s@.subrange(0, n as int) =~= s@);
        }
    }
    match digits_run(s, start) {
        None => None,
        Some(v) => {
            if v <= 0xffff_ffff_ffff_ffff {
                Some(v as u64)
            } else {
                None
            }
        },
    }
}

/// How `i64::from_str` reports the first problem it meets while reading
/// digits left to right from `i`, with `acc` read so far: a character that is
/// no digit, or a value beyond the range of `i64`.
pub open spec fn i64_scan_error(d: Seq<char>, i: int, acc: int, neg: bool) -> Option<Seq<char>>
    decreases d.len() - i,
{
    if i < 0 || i >= d.len() {
        None
    } else if !is_ascii_digit(d[i]) {
        Some("invalid digit found in string"@)
    } else {
        let next = if neg {
            acc * 10 - digit_of(d[i])
        } else {
            acc * 10 + digit_of(d[i])
        };
        if next > i64::MAX {
            Some("number too large to fit in target type"@)
        } else if next < i64::MIN {
            Some("number too small to fit in target type"@)
        } else {
            i64_scan_error(d, i + 1, next, neg)
        }
    }
}

/// The text of the error `s.parse::<i64>()` gives (empty when it reads).
pub open spec fn i64_error_text(s: Seq<char>) -> Seq<char> {
    let e = if s.len() == 0 {
        Some("cannot parse integer from empty string"@)
    } else if (s[0] == '+' || s[0] == '-') && s.len() == 1 {
        Some("invalid digit found in string"@)
    } else if s[0] == '-' {
        i64_scan_error(s, 1, 0, true)
    } else if s[0] == '+' {
        i64_scan_error(s, 1, 0, false)
    } else {
        i64_scan_error(s, 0, 0, false)
    };
    match e {
        Some(m) => m,
        None => Seq::empty(),
    }
}

/// The text of the error `s.parse::<i64>()` gives (empty when it reads).
pub fn i64_error_message(s: &str) -> (r: String)
    ensures
        r@ == i64_error_text(s@),
{
    let n = s.unicode_len();
    if n == 0 {
        return "cannot parse integer from empty string".to_owned();
    }
    let c0 = s.get_char(0);
    if (c0 == '+' || c0 == '-') && n == 1 {
        return "invalid digit found in string".to_owned();
    }
    let neg = c0 == '-';
    let mut i: usize = if c0 == '+' || c0 == '-' {
        1
    } else {
        0
    };
    let ghost start = i as int;
    let mut acc: i128 = 0;
    proof {
        if c0 == '-' {
            assert(neg);
        }
    }
    while i < n
        invariant
            n == s@.len(),
            start <= i <= n,
            start == 0 || start == 1,
            i64::MIN <= acc <= i64::MAX,
            i64_error_text(s@) == (match i64_scan_error(s@, i as int, acc as int, neg) {
                Some(m) => m,
                None => Seq::<char>::empty(),
            }),
        decreases n - i,
    {
        let c = s.get_char(i);
        if !('0' <= c && c <= '9') {
            return "invalid digit found in string".to_owned();
        }
        let d: i128 = (c as u32 - 48) as i128;
        let next: i128 = if neg {
            acc * 10 - d
        } else {
            acc * 10 + d
        };
        if next > 9223372036854775807 {
            return "number too large to fit in target type".to_owned();
        }
        if next < -9223372036854775808 {
            return "number too small to fit in target type".to_owned();
        }
        acc = next;
        i = i + 1;
    }
    String::new()
}

/// What `format!("{:?}", s)` writes for a text `s`: the text in double
/// quotes, with quotes, backslashes and unprintable characters escaped.
pub uninterp spec fn debug_quoted(s: Seq<char>) -> Seq<char>;

/// Calls `format!("{:?}", s)`, std's `Debug` rendering of a `str`. The
/// contract claims only that the rendering is a function of the text.
#[verifier::external_body]
pub(crate) fn debug_quote(s: &str) -> (r: String)
    ensures
        r@ == debug_quoted(s@),
{
    format!("{:?}", s)
}

} // verus!
