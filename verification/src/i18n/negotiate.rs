//! `Accept-Language` negotiation (RFC 9110 scoring).
//!
//! Each served language takes the quality of the longest range that names
//! it explicitly (the highest quality among the longest ones); a language
//! no range names takes the wildcard's quality; quality 0 excludes. The
//! highest score wins; on equal quality an explicit name beats a wildcard
//! match, and on a full tie the default locale wins. When every language is
//! excluded there is no result, and the caller falls back to the default.
//!
//! Qualities are decimal numbers read exactly, kept as multiples of 10^-18
//! (`Q_ONE` stands for 1).
use vstd::prelude::*;
use vstd::string::*;
use crate::i18n::loader::{default_locale, parse_locale, parsed_locale, supported, supported_locales};
use crate::i18n::locale_tag::{LocaleTag, LocaleTagView};
use crate::text::{
    chars_of, lemma_split_len, split, split_chars, starts_with, starts_with_exec, str_eq, string_of,
    trim, trim_chars,
};

verus! {

/// Quality 1 in units of 10^-18.
pub const Q_ONE: u64 = 1_000_000_000_000_000_000;

/// `10^n`.
pub open spec fn pow10(n: nat) -> nat
    decreases n,
{
    if n == 0 {
        1
    } else {
        10 * pow10((n - 1) as nat)
    }
}

/// A decimal digit.
pub open spec fn is_digit(c: char) -> bool {
    '0' <= c && c <= '9'
}

/// Every character is a decimal digit.
pub open spec fn all_digits(s: Seq<char>) -> bool {
    forall|i: int| 0 <= i < s.len() ==> is_digit(#[trigger] s[i])
}

/// Every character is `0`.
pub open spec fn all_zero(s: Seq<char>) -> bool {
    forall|i: int| 0 <= i < s.len() ==> #[trigger] s[i] == '0'
}

/// The value of the digit at `k`, or 0 past the end.
pub open spec fn digit_at(s: Seq<char>, k: int) -> nat {
    if 0 <= k < s.len() {
        ((s[k] as int) - 48) as nat
    } else {
        0
    }
}

/// The first `n` fraction digits of `s` (zero-padded) as an integer.
pub open spec fn frac_prefix(s: Seq<char>, n: nat) -> nat
    decreases n,
{
    if n == 0 {
        0
    } else {
        frac_prefix(s, (n - 1) as nat) * 10 + digit_at(s, n - 1)
    }
}

/// A fraction's value in units of 10^-18 (digits beyond the 18th dropped).
pub open spec fn frac_units(s: Seq<char>) -> nat {
    frac_prefix(s, 18)
}

/// The digits of an integer part equal 1 (leading zeros allowed).
pub open spec fn is_one(s: Seq<char>) -> bool {
    s.len() > 0 && s.last() == '1' && all_zero(s.drop_last())
}

/// A sign character, if present, and what follows it.
pub open spec fn unsigned(s: Seq<char>) -> (bool, Seq<char>) {
    if s.len() > 0 && s[0] == '+' {
        (false, s.drop_first())
    } else if s.len() > 0 && s[0] == '-' {
        (true, s.drop_first())
    } else {
        (false, s)
    }
}

/// The value of a string of decimal digits.
pub open spec fn digits_num(s: Seq<char>) -> nat
    decreases s.len(),
{
    if s.len() == 0 {
        0
    } else {
        digits_num(s.drop_last()) * 10 + digit_at(s, s.len() - 1)
    }
}

/// The index of the first `e` or `E` in `s`, or its length when there is none.
pub open spec fn first_e(s: Seq<char>) -> nat
    decreases s.len(),
{
    if s.len() == 0 {
        0
    } else if s[0] == 'e' || s[0] == 'E' {
        0
    } else {
        1 + first_e(s.drop_first())
    }
}

/// An exponent: an optional sign and at least one digit, as its value.
pub open spec fn exp_value(t: Seq<char>) -> Option<int> {
    let (neg, digits) = unsigned(t);
    if digits.len() > 0 && all_digits(digits) {
        Some(if neg { -(digits_num(digits) as int) } else { digits_num(digits) as int })
    } else {
        None
    }
}

/// `n` zero digits.
pub open spec fn zeros(n: nat) -> Seq<char> {
    Seq::new(n, |i: int| '0')
}

/// The integer-part digits of the number whose digits are `d` with the
/// decimal point before index `p` (zeros appended when `p` lies past `d`).
pub open spec fn int_digits(d: Seq<char>, p: int) -> Seq<char> {
    if p <= 0 {
        Seq::<char>::empty()
    } else if p <= d.len() {
        d.subrange(0, p)
    } else {
        d + zeros((p - d.len()) as nat)
    }
}

/// The fraction digits of the number whose digits are `d` with the decimal
/// point before index `p` (zeros prepended when `p` lies before `d`).
pub open spec fn frac_digits(d: Seq<char>, p: int) -> Seq<char> {
    if p <= 0 {
        zeros((-p) as nat) + d
    } else if p <= d.len() {
        d.skip(p)
    } else {
        Seq::<char>::empty()
    }
}

/// The quality of the number with digits `d`, point before `p`, negative
/// when `neg`: in units of 10^-18 when it lies in [0, 1] (digits past the
/// 18th dropped, and a positive value below one unit counted as one unit so
/// that it stays above zero); nothing when it lies outside.
pub open spec fn q_value(neg: bool, d: Seq<char>, p: int) -> Option<u64> {
    let ip = int_digits(d, p);
    let fp = frac_digits(d, p);
    if all_zero(ip) {
        if neg && !all_zero(fp) {
            None
        } else if frac_units(fp) == 0 && !all_zero(fp) {
            Some(1u64)
        } else {
            Some(frac_units(fp) as u64)
        }
    } else if is_one(ip) && all_zero(fp) && !neg {
        Some(Q_ONE)
    } else {
        None
    }
}

/// A quality value read as `f64` parsing reads a number: an optional sign,
/// digits with an optional point (at least one digit), and an optional
/// exponent (`e` or `E`, an optional sign, digits). It counts when its value
/// lies in [0, 1], in units of 10^-18 (see `q_value`). Anything else
/// (including `inf` and `NaN`, which are never in [0, 1]) is no quality.
pub open spec fn q_parse(s: Seq<char>) -> Option<u64> {
    let (neg, body) = unsigned(s);
    let k = first_e(body);
    let mant = body.subrange(0, k as int);
    let ex: Option<int> = if k < body.len() {
        exp_value(body.subrange(k + 1int, body.len() as int))
    } else {
        Some(0int)
    };
    let (ip, fp) = crate::i18n::loader::split_once_or_all(mant, '.');
    if !all_digits(ip) || !all_digits(fp) || (ip.len() == 0 && fp.len() == 0) || ex is None {
        None
    } else {
        q_value(neg, ip + fp, ip.len() + ex->0)
    }
}

proof fn lemma_frac_prefix_bound(s: Seq<char>, n: nat)
    requires
        all_digits(s),
    ensures
        frac_prefix(s, n) < pow10(n),
    decreases n,
{
    if n > 0 {
        lemma_frac_prefix_bound(s, (n - 1) as nat);
        let p = frac_prefix(s, (n - 1) as nat);
        let d = digit_at(s, n - 1);
        assert(d <= 9);
        assert(p * 10 + d < pow10(n)) by (nonlinear_arith)
            requires
                p < pow10((n - 1) as nat),
                d <= 9,
                pow10(n) == 10 * pow10((n - 1) as nat),
        ;
    }
}

proof fn lemma_pow10_18()
    ensures
        pow10(18) == 1_000_000_000_000_000_000,
{
    reveal_with_fuel(pow10, 19);
}

/// The digits of `s` all `0`.
fn all_zero_exec(s: &[char]) -> (r: bool)
    ensures
        r == all_zero(s@),
{
    let mut i: usize = 0;
    while i < s.len()
        invariant
            i <= s@.len(),
            forall|k: int| 0 <= k < i ==> s@[k] == '0',
        decreases s.len() - i,
    {
        if s[i] != '0' {
            return false;
        }
        i += 1;
    }
    true
}

/// Every character of `s` a digit.
fn all_digits_exec(s: &[char]) -> (r: bool)
    ensures
        r == all_digits(s@),
{
    let mut i: usize = 0;
    while i < s.len()
        invariant
            i <= s@.len(),
            forall|k: int| 0 <= k < i ==> is_digit(#[trigger] s@[k]),
        decreases s.len() - i,
    {
        if !(s[i] >= '0' && s[i] <= '9') {
            return false;
        }
        i += 1;
    }
    true
}

/// The characters of `s` from `a` up to `b`.
fn slice_chars(s: &[char], a: usize, b: usize) -> (r: Vec<char>)
    requires
        a <= b <= s@.len(),
    ensures
        r@ == s@.subrange(a as int, b as int),
{
    let mut r: Vec<char> = Vec::new();
    let mut k: usize = a;
    while k < b
        invariant
            a <= k <= b <= s@.len(),
            r@ == s@.subrange(a as int, k as int),
        decreases b - k,
    {
        r.push(s[k]);
        k += 1;
        assert(r@ =~= s@.subrange(a as int, k as int));
    }
    r
}

/// The sign of a numeral, if any, and what follows it (see `unsigned`).
fn strip_sign(s: &[char]) -> (r: (bool, Vec<char>))
    ensures
        (r.0, r.1@) == unsigned(s@),
{
    if s.len() > 0 && (s[0] == '+' || s[0] == '-') {
        let b = slice_chars(s, 1, s.len());
        assert(b@ =~= s@.drop_first());
        (s[0] == '-', b)
    } else {
        let b = slice_chars(s, 0, s.len());
        assert(b@ =~= s@);
        (false, b)
    }
}

/// Where the first `e` or `E` stands, and that none comes before it.
proof fn lemma_first_e(s: Seq<char>)
    ensures
        first_e(s) <= s.len(),
        first_e(s) < s.len() ==> (s[first_e(s) as int] == 'e' || s[first_e(s) as int] == 'E'),
        forall|j: int| 0 <= j < first_e(s) ==> s[j] != 'e' && s[j] != 'E',
    decreases s.len(),
{
    if s.len() > 0 && !(s[0] == 'e' || s[0] == 'E') {
        lemma_first_e(s.drop_first());
        assert forall|j: int| 0 <= j < first_e(s) implies s[j] != 'e' && s[j] != 'E' by {
            if j > 0 {
                assert(s[j] == s.drop_first()[j - 1]);
            }
        }
    }
}

/// The index of the first `e` or `E` (see `first_e`).
fn first_e_exec(s: &[char]) -> (r: usize)
    ensures
        r == first_e(s@),
{
    let mut i: usize = 0;
    assert(s@.skip(0) =~= s@);
    while i < s.len() && s[i] != 'e' && s[i] != 'E'
        invariant
            i <= s@.len(),
            first_e(s@) == i + first_e(s@.skip(i as int)),
        decreases s.len() - i,
    {
        assert(s@.skip(i as int).drop_first() =~= s@.skip(i + 1));
        assert(s@.skip(i as int)[0] == s@[i as int]);
        i += 1;
    }
    if i < s.len() {
        assert(s@.skip(i as int)[0] == s@[i as int]);
    }
    i
}

/// The largest exponent magnitude read exactly; larger ones only matter as
/// "very large" (2^70).
pub const EXP_CAP: u128 = 1_180_591_620_717_411_303_424;

/// An exponent's sign and magnitude, the magnitude held at `EXP_CAP`.
fn exp_parse(t: &[char]) -> (r: Option<(bool, u128)>)
    ensures
        match exp_value(t@) {
            None => r is None,
            Some(e) => r matches Some((neg, v)) && v <= EXP_CAP
                && (v < EXP_CAP ==> e == (if neg { -(v as int) } else { v as int }))
                && (v == EXP_CAP ==> (if neg { e <= -(EXP_CAP as int) } else { e >= EXP_CAP as int })),
        },
{
    let (neg, digits) = strip_sign(t);
    if digits.len() == 0 || !all_digits_exec(&digits) {
        return None;
    }
    let mut v: u128 = 0;
    let mut k: usize = 0;
    assert(digits@.subrange(0, 0) =~= Seq::<char>::empty());
    while k < digits.len()
        invariant
            k <= digits@.len(),
            all_digits(digits@),
            v <= EXP_CAP,
            v < EXP_CAP ==> v == digits_num(digits@.subrange(0, k as int)),
            v == EXP_CAP ==> digits_num(digits@.subrange(0, k as int)) >= EXP_CAP,
        decreases digits.len() - k,
    {
        let ghost pre = digits@.subrange(0, k as int);
        let ghost nxt = digits@.subrange(0, k + 1);
        assert(nxt.drop_last() =~= pre);
        assert(digit_at(nxt, k as int) == digit_at(digits@, k as int));
        assert(is_digit(digits@[k as int]));
        let d: u128 = ((digits[k] as u32) - 48) as u128;
        assert(d == digit_at(digits@, k as int));
        assert(digits_num(nxt) == digits_num(pre) * 10 + d);
        if v < EXP_CAP {
            if v > EXP_CAP / 10 {
                assert(digits_num(pre) * 10 + d >= EXP_CAP) by (nonlinear_arith)
                    requires
                        digits_num(pre) == v,
                        v > EXP_CAP / 10,
                        d >= 0,
                ;
                v = EXP_CAP;
            } else {
                let w = v * 10 + d;
                v = if w >= EXP_CAP { EXP_CAP } else { w };
            }
        } else {
            assert(digits_num(pre) * 10 + d >= EXP_CAP) by (nonlinear_arith)
                requires
                    digits_num(pre) >= EXP_CAP,
                    d >= 0,
            ;
        }
        k += 1;
    }
    assert(digits@.subrange(0, digits@.len() as int) =~= digits@);
    Some((neg, v))
}

/// The point position `p` held within `[-18, len + 1]`, where every
/// position beyond gives the same quality.
pub open spec fn clamp_point(p: int, len: int) -> int {
    if p < -18 {
        -18
    } else if p > len + 1 {
        len + 1
    } else {
        p
    }
}

/// Leading zero digits add nothing to a fraction's first `n` digits.
proof fn lemma_frac_prefix_zeros(s: Seq<char>, n: nat)
    requires
        n <= s.len(),
        forall|i: int| 0 <= i < n ==> s[i] == '0',
    ensures
        frac_prefix(s, n) == 0,
    decreases n,
{
    if n > 0 {
        lemma_frac_prefix_zeros(s, (n - 1) as nat);
        assert(s[n - 1] == '0');
    }
}

/// Moving the point further than `[-18, len + 1]` changes no quality.
proof fn lemma_q_value_clamp(neg: bool, d: Seq<char>, p: int)
    ensures
        q_value(neg, d, p) == q_value(neg, d, clamp_point(p, d.len() as int)),
{
    let c = clamp_point(p, d.len() as int);
    if p > d.len() + 1 {
        let a = int_digits(d, p);
        let b = int_digits(d, c);
        assert(all_zero(a) == all_zero(d)) by {
            if all_zero(d) {
                assert forall|i: int| 0 <= i < a.len() implies a[i] == '0' by {
                    if i < d.len() {
                        assert(a[i] == d[i]);
                    }
                }
            }
            if all_zero(a) {
                assert forall|i: int| 0 <= i < d.len() implies d[i] == '0' by {
                    assert(a[i] == d[i]);
                }
            }
        }
        assert(all_zero(b) == all_zero(d)) by {
            if all_zero(d) {
                assert forall|i: int| 0 <= i < b.len() implies b[i] == '0' by {
                    if i < d.len() {
                        assert(b[i] == d[i]);
                    }
                }
            }
            if all_zero(b) {
                assert forall|i: int| 0 <= i < d.len() implies d[i] == '0' by {
                    assert(b[i] == d[i]);
                }
            }
        }
        assert(!is_one(a) && !is_one(b)) by {
            assert(a.last() == '0');
            assert(b.last() == '0');
        }
        assert(frac_digits(d, p) =~= frac_digits(d, c));
    } else if p < -18 {
        let f = frac_digits(d, p);
        let g = frac_digits(d, c);
        assert(int_digits(d, p) =~= int_digits(d, c));
        assert(all_zero(f) == all_zero(d)) by {
            if all_zero(d) {
                assert forall|i: int| 0 <= i < f.len() implies f[i] == '0' by {
                    if i >= -p {
                        assert(f[i] == d[i + p]);
                    }
                }
            }
            if all_zero(f) {
                assert forall|i: int| 0 <= i < d.len() implies d[i] == '0' by {
                    assert(f[i - p] == d[i]);
                }
            }
        }
        assert(all_zero(g) == all_zero(d)) by {
            if all_zero(d) {
                assert forall|i: int| 0 <= i < g.len() implies g[i] == '0' by {
                    if i >= 18 {
                        assert(g[i] == d[i - 18]);
                    }
                }
            }
            if all_zero(g) {
                assert forall|i: int| 0 <= i < d.len() implies d[i] == '0' by {
                    assert(g[i + 18] == d[i]);
                }
            }
        }
        lemma_frac_prefix_zeros(f, 18);
        lemma_frac_prefix_zeros(g, 18);
    }
}

/// Digits stay digits after the point is moved.
proof fn lemma_frac_digits_digits(d: Seq<char>, p: int)
    requires
        all_digits(d),
    ensures
        all_digits(frac_digits(d, p)),
{
    let f = frac_digits(d, p);
    assert forall|i: int| 0 <= i < f.len() implies is_digit(#[trigger] f[i]) by {
        if p <= 0 {
            if i >= -p {
                assert(f[i] == d[i + p]);
            }
        } else if p <= d.len() {
            assert(f[i] == d[i + p]);
        }
    }
}

/// The quality of the number with digits `d`, point before `pc`, negative
/// when `neg` (see `q_value`), for a point within `[-18, len + 1]`.
fn q_of_point(neg: bool, d: &Vec<char>, pc: i128) -> (r: Option<u64>)
    requires
        all_digits(d@),
        -18 <= pc <= d@.len() + 1,
    ensures
        r == q_value(neg, d@, pc as int),
{
    let len = d.len();
    proof {
        lemma_frac_digits_digits(d@, pc as int);
    }
    let int2: Vec<char> = if pc <= 0 {
        Vec::new()
    } else if pc <= len as i128 {
        slice_chars(&d, 0, pc as usize)
    } else {
        let mut v = slice_chars(&d, 0, len);
        v.push('0');
        v
    };
    let frac2: Vec<char> = if pc <= 0 {
        let mut v: Vec<char> = Vec::new();
        let mut z: i128 = 0;
        while z < -pc
            invariant
                -18 <= pc <= 0,
                0 <= z <= -pc,
                v@ == zeros(z as nat),
            decreases -pc - z,
        {
            v.push('0');
            z += 1;
            assert(v@ =~= zeros(z as nat));
        }
        let mut q: usize = 0;
        while q < len
            invariant
                q <= len == d@.len(),
                v@ == zeros((-pc) as nat) + d@.subrange(0, q as int),
            decreases len - q,
        {
            v.push(d[q]);
            q += 1;
            assert(v@ =~= zeros((-pc) as nat) + d@.subrange(0, q as int));
        }
        assert(d@.subrange(0, len as int) =~= d@);
        v
    } else if pc <= len as i128 {
        let v = slice_chars(&d, pc as usize, len);
        assert(v@ =~= d@.skip(pc as int));
        v
    } else {
        Vec::new()
    };
    assert(int2@ =~= int_digits(d@, pc as int));
    assert(frac2@ =~= frac_digits(d@, pc as int));
    let int_zero = all_zero_exec(&int2);
    let frac_zero = all_zero_exec(&frac2);
    if int_zero {
        if neg && !frac_zero {
            return None;
        }
        let mut acc: u64 = 0;
        let mut k2: usize = 0;
        proof {
            lemma_pow10_18();
        }
        while k2 < 18
            invariant
                all_digits(frac2@),
                k2 <= 18,
                acc == frac_prefix(frac2@, k2 as nat),
                pow10(18) == 1_000_000_000_000_000_000,
            decreases 18 - k2,
        {
            proof {
                lemma_frac_prefix_bound(frac2@, (k2 + 1) as nat);
                lemma_pow10_monotone((k2 + 1) as nat, 18);
            }
            let dg: u64 = if k2 < frac2.len() {
                ((frac2[k2] as u32) - 48) as u64
            } else {
                0
            };
            assert(dg == digit_at(frac2@, k2 as int));
            acc = acc * 10 + dg;
            k2 += 1;
        }
        if acc == 0 && !frac_zero {
            return Some(1);
        }
        return Some(acc);
    }
    let n = int2.len();
    if int2[n - 1] == '1' {
        let head = slice_chars(&int2, 0, n - 1);
        assert(head@ =~= int2@.drop_last());
        if all_zero_exec(&head) && frac_zero && !neg {
            return Some(Q_ONE);
        }
    }
    None
}

/// A quality value read from its text (see `q_parse`).
pub fn parse_q(s: &[char]) -> (r: Option<u64>)
    ensures
        r == q_parse(s@),
{
    let (neg, body) = strip_sign(s);
    let k = first_e_exec(&body);
    proof {
        lemma_first_e(body@);
    }
    let mant = slice_chars(&body, 0, k);
    let ex: (bool, u128) = if k < body.len() {
        let t = slice_chars(&body, k + 1, body.len());
        match exp_parse(&t) {
            Some(x) => x,
            None => return None,
        }
    } else {
        (false, 0)
    };
    let ghost e_true: int = if k < body@.len() {
        exp_value(body@.subrange(k + 1, body@.len() as int))->0
    } else {
        0
    };
    let (ip, fp) = crate::i18n::loader::split_once_or_all_exec(&mant, '.');
    if !all_digits_exec(&ip) || !all_digits_exec(&fp) || (ip.len() == 0 && fp.len() == 0) {
        return None;
    }
    let mut d: Vec<char> = slice_chars(&ip, 0, ip.len());
    let mut j: usize = 0;
    assert(d@ =~= ip@ + fp@.subrange(0, 0));
    while j < fp.len()
        invariant
            j <= fp@.len(),
            d@ == ip@ + fp@.subrange(0, j as int),
        decreases fp.len() - j,
    {
        d.push(fp[j]);
        j += 1;
        assert(d@ =~= ip@ + fp@.subrange(0, j as int));
    }
    assert(fp@.subrange(0, fp@.len() as int) =~= fp@);
    assert(all_digits(d@)) by {
        assert forall|i: int| 0 <= i < d@.len() implies is_digit(#[trigger] d@[i]) by {
            if i < ip@.len() {
                assert(d@[i] == ip@[i]);
            } else {
                assert(d@[i] == fp@[i - ip@.len()]);
            }
        }
    }
    let len = d.len();
    let e: i128 = if ex.0 { -(ex.1 as i128) } else { ex.1 as i128 };
    let p: i128 = ip.len() as i128 + e;
    let pc: i128 = if p < -18 {
        -18
    } else if p > len as i128 + 1 {
        len as i128 + 1
    } else {
        p
    };
    proof {
        let pt = ip@.len() + e_true;
        assert(clamp_point(pt, len as int) == pc);
        lemma_q_value_clamp(neg, d@, pt);
    }
    q_of_point(neg, &d, pc)
}

proof fn lemma_pow10_monotone(a: nat, b: nat)
    requires
        a <= b,
    ensures
        pow10(a) <= pow10(b),
    decreases b,
{
    if a < b {
        lemma_pow10_monotone(a, (b - 1) as nat);
    }
}

/// A parsed range: its language tag (`None` for the wildcard `*`) and quality.
pub type Range = (Option<LocaleTagView>, u64);

/// The quality that the parameters after a range give it: 1 unless a `q=`
/// parameter says otherwise (the last one counts); no quality at all when a
/// `q=` value is not a valid quality.
pub open spec fn params_q(params: Seq<Seq<char>>) -> Option<u64>
    decreases params.len(),
{
    if params.len() == 0 {
        Some(Q_ONE)
    } else {
        match params_q(params.drop_last()) {
            None => None,
            Some(q) => {
                let p = trim(params.last());
                if starts_with(p, seq!['q', '=']) {
                    q_parse(trim(p.skip(2)))
                } else {
                    Some(q)
                }
            },
        }
    }
}

/// One comma-separated element of the header as a range: its first `;`
/// piece trimmed is the range (`*` or a language tag), the other pieces are
/// parameters. Empty ranges, invalid qualities and unparsable tags give nothing.
pub open spec fn range_entry(part: Seq<char>) -> Option<Range> {
    let pieces = split(part, ';');
    let range = trim(pieces[0]);
    if range.len() == 0 {
        None
    } else {
        match params_q(pieces.drop_first()) {
            None => None,
            Some(q) => if range == seq!['*'] {
                Some((None, q))
            } else {
                match parsed_locale(range) {
                    Some(tag) => Some((Some(tag), q)),
                    None => None,
                }
            },
        }
    }
}

/// The ranges of a header's comma-separated elements, in order.
pub open spec fn ranges_of(parts: Seq<Seq<char>>) -> Seq<Range>
    decreases parts.len(),
{
    if parts.len() == 0 {
        Seq::<Range>::empty()
    } else {
        let before = ranges_of(parts.drop_last());
        match range_entry(parts.last()) {
            Some(e) => before.push(e),
            None => before,
        }
    }
}

/// The highest wildcard quality, if there is a wildcard.
pub open spec fn wildcard_q(r: Seq<Range>) -> Option<u64>
    decreases r.len(),
{
    if r.len() == 0 {
        None
    } else {
        let before = wildcard_q(r.drop_last());
        match r.last().0 {
            None => match before {
                None => Some(r.last().1),
                Some(b) => Some(if r.last().1 > b {
                    r.last().1
                } else {
                    b
                }),
            },
            Some(_) => before,
        }
    }
}

/// How specific an explicit range is: 1, plus 1 for a script, plus 1 for a region.
pub open spec fn specificity(tag: LocaleTagView) -> nat {
    1 + (if tag.has_script {
        1nat
    } else {
        0nat
    }) + (if tag.has_region {
        1nat
    } else {
        0nat
    })
}

/// The range names `lang` explicitly.
pub open spec fn names(e: Range, lang: Seq<char>) -> bool {
    e.0 matches Some(tag) && tag.language == lang
}

/// The greatest specificity among the ranges naming `lang` (0 when none does).
pub open spec fn longest(r: Seq<Range>, lang: Seq<char>) -> nat
    decreases r.len(),
{
    if r.len() == 0 {
        0
    } else {
        let before = longest(r.drop_last(), lang);
        if names(r.last(), lang) && specificity(r.last().0->0) > before {
            specificity(r.last().0->0)
        } else {
            before
        }
    }
}

/// The highest quality among ranges naming `lang` with specificity `len` (0 if none).
pub open spec fn explicit_q(r: Seq<Range>, lang: Seq<char>, len: nat) -> u64
    decreases r.len(),
{
    if r.len() == 0 {
        0
    } else {
        let before = explicit_q(r.drop_last(), lang, len);
        if names(r.last(), lang) && specificity(r.last().0->0) == len && r.last().1 > before {
            r.last().1
        } else {
            before
        }
    }
}

/// A language's score: its quality and whether a range names it explicitly.
pub open spec fn score(r: Seq<Range>, lang: Seq<char>) -> (u64, bool) {
    let l = longest(r, lang);
    if l == 0 {
        match wildcard_q(r) {
            Some(q) => (q, false),
            None => (0, false),
        }
    } else {
        (explicit_q(r, lang, l), true)
    }
}

/// `(q, hit)` beats the current best: a higher score, or on a full tie the
/// default locale over any other.
pub open spec fn beats(best: Option<(Seq<char>, u64, bool)>, lang: Seq<char>, q: u64, hit: bool) -> bool {
    match best {
        None => true,
        Some((bl, bq, bh)) => if q != bq || hit != bh {
            q > bq || (q == bq && hit && !bh)
        } else {
            lang == default_locale() && bl != default_locale()
        },
    }
}

/// The best served language among `langs`, scanned in order.
pub open spec fn best_of(r: Seq<Range>, langs: Seq<Seq<char>>) -> Option<(Seq<char>, u64, bool)>
    decreases langs.len(),
{
    if langs.len() == 0 {
        None
    } else {
        let before = best_of(r, langs.drop_last());
        let lang = langs.last();
        let (q, hit) = score(r, lang);
        if q == 0 {
            before
        } else if beats(before, lang, q, hit) {
            Some((lang, q, hit))
        } else {
            before
        }
    }
}

/// The negotiated language for an `Accept-Language` header, if any.
pub open spec fn negotiated(header: Seq<char>) -> Option<Seq<char>> {
    let r = ranges_of(split(header, ','));
    if r.len() == 0 {
        None
    } else {
        match best_of(r, supported()) {
            Some((lang, _, _)) => Some(lang),
            None => None,
        }
    }
}

/// The rank of a score: quality first, then an explicit naming over a
/// wildcard match.
pub open spec fn rank(s: (u64, bool)) -> int {
    2 * s.0 + if s.1 { 1int } else { 0int }
}

/// What `best_of` picks among `langs`: a language of `langs` with its
/// score, a nonzero quality, and a rank no other candidate of `langs`
/// exceeds; another language than the default only when the default is no
/// candidate or ranks strictly lower. Nothing is picked only when every
/// language of `langs` has quality zero.
pub open spec fn best_of_correct(r: Seq<Range>, langs: Seq<Seq<char>>, best: Option<(Seq<char>, u64, bool)>) -> bool {
    match best {
        Some((l, q, hit)) => {
            &&& exists|i: int| 0 <= i < langs.len() && langs[i] == l
            &&& score(r, l) == (q, hit)
            &&& q > 0
            &&& forall|i: int| 0 <= i < langs.len() ==> (#[trigger] score(r, langs[i])).0 == 0
                || rank(score(r, langs[i])) <= rank((q, hit))
            &&& l != default_locale() ==> forall|i: int| 0 <= i < langs.len() && langs[i] == default_locale()
                ==> (#[trigger] score(r, langs[i])).0 == 0 || rank(score(r, langs[i])) < rank((q, hit))
        },
        None => forall|i: int| 0 <= i < langs.len() ==> (#[trigger] score(r, langs[i])).0 == 0,
    }
}

/// `best_of` picks a best-ranked candidate, preferring the default on a tie.
pub proof fn lemma_best_of(r: Seq<Range>, langs: Seq<Seq<char>>)
    ensures
        best_of_correct(r, langs, best_of(r, langs)),
    decreases langs.len(),
{
    if langs.len() > 0 {
        let prefix = langs.drop_last();
        lemma_best_of(r, prefix);
        assert forall|i: int| 0 <= i < prefix.len() implies prefix[i] == langs[i] by {}
        let lang = langs.last();
        assert(langs[langs.len() - 1] == lang);
        let before = best_of(r, prefix);
        let (q, hit) = score(r, lang);
        if q != 0 && beats(before, lang, q, hit) {
            assert(exists|i: int| 0 <= i < langs.len() && langs[i] == lang);
        } else if q != 0 {
            let (bl, bq, bh) = before->0;
            let k = choose|k: int| 0 <= k < prefix.len() && prefix[k] == bl;
            assert(langs[k] == bl);
        } else {
            match before {
                Some((bl, bq, bh)) => {
                    let k = choose|k: int| 0 <= k < prefix.len() && prefix[k] == bl;
                    assert(langs[k] == bl);
                },
                None => {},
            }
        }
    }
}

/// Negotiation picks a served language that the header accepts (nonzero
/// quality) and that no other served language outranks; on a tie the
/// default wins. It picks nothing only when the header has no usable range
/// or gives every served language quality zero.
pub proof fn lemma_negotiation_picks_best(header: Seq<char>)
    ensures
        ({
            let r = ranges_of(split(header, ','));
            match negotiated(header) {
                Some(l) => {
                    &&& supported().contains(l)
                    &&& score(r, l).0 > 0
                    &&& forall|m: Seq<char>| supported().contains(m) ==> (#[trigger] score(r, m)).0 == 0
                        || rank(score(r, m)) <= rank(score(r, l))
                    &&& l != default_locale() ==> score(r, default_locale()).0 == 0
                        || rank(score(r, default_locale())) < rank(score(r, l))
                },
                None => r.len() == 0 || forall|m: Seq<char>| supported().contains(m) ==> (#[trigger] score(r, m)).0 == 0,
            }
        }),
{
    let r = ranges_of(split(header, ','));
    lemma_best_of(r, supported());
    assert(supported()[0] == default_locale());
    assert forall|m: Seq<char>| supported().contains(m) implies exists|i: int| 0 <= i < supported().len() && supported()[i] == m by {
        let i = choose|i: int| 0 <= i < supported().len() && supported()[i] == m;
    }
    if r.len() > 0 {
        match best_of(r, supported()) {
            Some((l, q, hit)) => {
                let k = choose|k: int| 0 <= k < supported().len() && supported()[k] == l;
                assert(supported().contains(l));
            },
            None => {},
        }
    }
}

/// A range of the header's parts: one that some part reads as.
proof fn lemma_ranges_of_members(parts: Seq<Seq<char>>)
    ensures
        forall|e: Range| ranges_of(parts).contains(e) <==> exists|i: int|
            0 <= i < parts.len() && range_entry(#[trigger] parts[i]) == Some(e),
    decreases parts.len(),
{
    if parts.len() > 0 {
        let before = parts.drop_last();
        lemma_ranges_of_members(before);
        let r = ranges_of(parts);
        assert forall|e: Range| r.contains(e) <==> exists|i: int|
            0 <= i < parts.len() && range_entry(#[trigger] parts[i]) == Some(e) by {
            if r.contains(e) {
                let k = choose|k: int| 0 <= k < r.len() && r[k] == e;
                if k < ranges_of(before).len() {
                    assert(ranges_of(before)[k] == e);
                    assert(ranges_of(before).contains(e));
                    let i = choose|i: int| 0 <= i < before.len() && range_entry(#[trigger] before[i]) == Some(e);
                    assert(parts[i] == before[i]);
                } else {
                    assert(range_entry(parts[parts.len() - 1]) == Some(e));
                }
            }
            if exists|i: int| 0 <= i < parts.len() && range_entry(#[trigger] parts[i]) == Some(e) {
                let i = choose|i: int| 0 <= i < parts.len() && range_entry(#[trigger] parts[i]) == Some(e);
                if i < before.len() {
                    assert(before[i] == parts[i]);
                    assert(ranges_of(before).contains(e));
                    let k = choose|k: int| 0 <= k < ranges_of(before).len() && ranges_of(before)[k] == e;
                    assert(r[k] == e);
                } else {
                    assert(r[r.len() - 1] == e);
                }
            }
        }
    }
}

/// The highest wildcard quality is one of the wildcards' qualities and no
/// wildcard has a higher one; there is none exactly when no range is a
/// wildcard.
proof fn lemma_wildcard_q(r: Seq<Range>)
    ensures
        wildcard_q(r) is None <==> forall|i: int| 0 <= i < r.len() ==> (#[trigger] r[i]).0 is Some,
        wildcard_q(r) matches Some(m) ==> (exists|i: int| 0 <= i < r.len() && (#[trigger] r[i]).0 is None && r[i].1 == m)
            && forall|i: int| 0 <= i < r.len() && (#[trigger] r[i]).0 is None ==> r[i].1 <= m,
    decreases r.len(),
{
    if r.len() > 0 {
        let b = r.drop_last();
        lemma_wildcard_q(b);
        assert forall|i: int| 0 <= i < b.len() implies b[i] == r[i] by {}
        match wildcard_q(b) {
            Some(m) => {
                let i = choose|i: int| 0 <= i < b.len() && (#[trigger] b[i]).0 is None && b[i].1 == m;
                assert(r[i] == b[i]);
            },
            None => {},
        }
    }
}

/// The longest naming is the specificity of one range naming the language,
/// and none is longer; it is 0 exactly when no range names the language.
proof fn lemma_longest(r: Seq<Range>, lang: Seq<char>)
    ensures
        longest(r, lang) == 0 <==> forall|i: int| 0 <= i < r.len() ==> !names(#[trigger] r[i], lang),
        longest(r, lang) > 0 ==> exists|i: int| 0 <= i < r.len() && names(#[trigger] r[i], lang)
            && specificity(r[i].0->0) == longest(r, lang),
        forall|i: int| 0 <= i < r.len() && names(#[trigger] r[i], lang) ==> specificity(r[i].0->0) <= longest(r, lang),
    decreases r.len(),
{
    if r.len() > 0 {
        let b = r.drop_last();
        lemma_longest(b, lang);
        assert forall|i: int| 0 <= i < b.len() implies b[i] == r[i] by {}
        if longest(b, lang) > 0 {
            let i = choose|i: int| 0 <= i < b.len() && names(#[trigger] b[i], lang)
                && specificity(b[i].0->0) == longest(b, lang);
            assert(r[i] == b[i]);
        }
    }
}

/// The quality of the longest naming is one such range's quality (or 0)
/// and no such range has a higher one.
proof fn lemma_explicit_q(r: Seq<Range>, lang: Seq<char>, len: nat)
    ensures
        explicit_q(r, lang, len) == 0 || exists|i: int| 0 <= i < r.len() && names(#[trigger] r[i], lang)
            && specificity(r[i].0->0) == len && r[i].1 == explicit_q(r, lang, len),
        forall|i: int| 0 <= i < r.len() && names(#[trigger] r[i], lang) && specificity(r[i].0->0) == len
            ==> r[i].1 <= explicit_q(r, lang, len),
    decreases r.len(),
{
    if r.len() > 0 {
        let b = r.drop_last();
        lemma_explicit_q(b, lang, len);
        assert forall|i: int| 0 <= i < b.len() implies b[i] == r[i] by {}
        if explicit_q(b, lang, len) != 0 {
            let i = choose|i: int| 0 <= i < b.len() && names(#[trigger] b[i], lang)
                && specificity(b[i].0->0) == len && b[i].1 == explicit_q(b, lang, len);
            assert(r[i] == b[i]);
        }
    }
}

/// Two lists of ranges with the same members have the same longest naming
/// of a language.
proof fn lemma_longest_members(r1: Seq<Range>, r2: Seq<Range>, lang: Seq<char>)
    requires
        forall|e: Range| r1.contains(e) <==> r2.contains(e),
    ensures
        longest(r1, lang) == longest(r2, lang),
{
    lemma_longest(r1, lang);
    lemma_longest(r2, lang);
    let l1 = longest(r1, lang);
    let l2 = longest(r2, lang);
    if l1 > 0 {
        let i = choose|i: int| 0 <= i < r1.len() && names(#[trigger] r1[i], lang) && specificity(r1[i].0->0) == l1;
        assert(r1.contains(r1[i]));
        assert(r2.contains(r1[i]));
        let j = choose|j: int| 0 <= j < r2.len() && r2[j] == r1[i];
        assert(names(r2[j], lang));
    }
    if l2 > 0 {
        let j = choose|j: int| 0 <= j < r2.len() && names(#[trigger] r2[j], lang) && specificity(r2[j].0->0) == l2;
        assert(r2.contains(r2[j]));
        assert(r1.contains(r2[j]));
        let i = choose|i: int| 0 <= i < r1.len() && r1[i] == r2[j];
        assert(names(r1[i], lang));
    }
}

/// Two lists of ranges with the same members give the same best quality
/// to the namings of a language of one specificity.
proof fn lemma_explicit_members(r1: Seq<Range>, r2: Seq<Range>, lang: Seq<char>, len: nat)
    requires
        forall|e: Range| r1.contains(e) <==> r2.contains(e),
    ensures
        explicit_q(r1, lang, len) == explicit_q(r2, lang, len),
{
    lemma_explicit_q(r1, lang, len);
    lemma_explicit_q(r2, lang, len);
    let q1 = explicit_q(r1, lang, len);
    let q2 = explicit_q(r2, lang, len);
    if q1 != 0 {
        let i = choose|i: int| 0 <= i < r1.len() && names(#[trigger] r1[i], lang)
            && specificity(r1[i].0->0) == len && r1[i].1 == q1;
        assert(r1.contains(r1[i]));
        assert(r2.contains(r1[i]));
        let j = choose|j: int| 0 <= j < r2.len() && r2[j] == r1[i];
        assert(names(r2[j], lang));
    }
    if q2 != 0 {
        let j = choose|j: int| 0 <= j < r2.len() && names(#[trigger] r2[j], lang)
            && specificity(r2[j].0->0) == len && r2[j].1 == q2;
        assert(r2.contains(r2[j]));
        assert(r1.contains(r2[j]));
        let i = choose|i: int| 0 <= i < r1.len() && r1[i] == r2[j];
        assert(names(r1[i], lang));
    }
}

/// Two lists of ranges with the same members have the same highest
/// wildcard quality.
proof fn lemma_wildcard_members(r1: Seq<Range>, r2: Seq<Range>)
    requires
        forall|e: Range| r1.contains(e) <==> r2.contains(e),
    ensures
        wildcard_q(r1) == wildcard_q(r2),
{
    lemma_wildcard_q(r1);
    lemma_wildcard_q(r2);
    match wildcard_q(r1) {
        Some(m1) => {
            let i = choose|i: int| 0 <= i < r1.len() && (#[trigger] r1[i]).0 is None && r1[i].1 == m1;
            assert(r1.contains(r1[i]));
            assert(r2.contains(r1[i]));
            let j = choose|j: int| 0 <= j < r2.len() && r2[j] == r1[i];
            assert(r2[j].0 is None);
        },
        None => {},
    }
    match wildcard_q(r2) {
        Some(m2) => {
            let j = choose|j: int| 0 <= j < r2.len() && (#[trigger] r2[j]).0 is None && r2[j].1 == m2;
            assert(r2.contains(r2[j]));
            assert(r1.contains(r2[j]));
            let i = choose|i: int| 0 <= i < r1.len() && r1[i] == r2[j];
            assert(r1[i].0 is None);
        },
        None => {},
    }
}

/// Two lists of ranges with the same members give every language the same
/// score.
proof fn lemma_score_members(r1: Seq<Range>, r2: Seq<Range>, lang: Seq<char>)
    requires
        forall|e: Range| r1.contains(e) <==> r2.contains(e),
    ensures
        score(r1, lang) == score(r2, lang),
{
    lemma_longest_members(r1, r2, lang);
    lemma_explicit_members(r1, r2, lang, longest(r1, lang));
    lemma_wildcard_members(r1, r2);
}

/// The pick among `langs` depends on the ranges only through the scores.
proof fn lemma_best_of_scores(r1: Seq<Range>, r2: Seq<Range>, langs: Seq<Seq<char>>)
    requires
        forall|l: Seq<char>| score(r1, l) == score(r2, l),
    ensures
        best_of(r1, langs) == best_of(r2, langs),
    decreases langs.len(),
{
    if langs.len() > 0 {
        lemma_best_of_scores(r1, r2, langs.drop_last());
        assert(score(r1, langs.last()) == score(r2, langs.last()));
    }
}

/// The order of a header's elements does not matter: two headers with the
/// same comma-separated elements (in any order, any repeated) negotiate the
/// same language.
pub proof fn lemma_negotiation_ignores_order(h1: Seq<char>, h2: Seq<char>)
    requires
        forall|p: Seq<char>| split(h1, ',').contains(p) <==> split(h2, ',').contains(p),
    ensures
        negotiated(h1) == negotiated(h2),
{
    let p1 = split(h1, ',');
    let p2 = split(h2, ',');
    let r1 = ranges_of(p1);
    let r2 = ranges_of(p2);
    lemma_ranges_of_members(p1);
    lemma_ranges_of_members(p2);
    assert forall|e: Range| r1.contains(e) <==> r2.contains(e) by {
        if r1.contains(e) {
            let i = choose|i: int| 0 <= i < p1.len() && range_entry(#[trigger] p1[i]) == Some(e);
            assert(p1.contains(p1[i]));
            let j = choose|j: int| 0 <= j < p2.len() && p2[j] == p1[i];
            assert(range_entry(p2[j]) == Some(e));
        }
        if r2.contains(e) {
            let j = choose|j: int| 0 <= j < p2.len() && range_entry(#[trigger] p2[j]) == Some(e);
            assert(p2.contains(p2[j]));
            let i = choose|i: int| 0 <= i < p1.len() && p1[i] == p2[j];
            assert(range_entry(p1[i]) == Some(e));
        }
    }
    assert forall|l: Seq<char>| score(r1, l) == score(r2, l) by {
        lemma_score_members(r1, r2, l);
    }
    lemma_best_of_scores(r1, r2, supported());
    if r1.len() == 0 && r2.len() > 0 {
        assert(r2.contains(r2[0]));
    }
    if r2.len() == 0 && r1.len() > 0 {
        assert(r1.contains(r1[0]));
    }
}

/// An executable range: the tag (none for `*`) and the quality.
pub struct ExecRange {
    pub tag: Option<LocaleTag>,
    pub q: u64,
}

/// The view of an executable range.
pub open spec fn range_view(e: ExecRange) -> Range {
    (match e.tag {
        Some(t) => Some(t@),
        None => None,
    }, e.q)
}

/// The views of executable ranges.
pub open spec fn range_views(v: Seq<ExecRange>) -> Seq<Range> {
    Seq::new(v.len(), |i: int| range_view(v[i]))
}

/// The quality given by the parameter pieces `pieces[1..]`.
fn params_q_exec(pieces: &Vec<Vec<char>>) -> (r: Option<u64>)
    requires
        pieces@.len() >= 1,
    ensures
        r == params_q(crate::text::views(pieces@).drop_first()),
{
    let ghost all = crate::text::views(pieces@).drop_first();
    let mut q: u64 = Q_ONE;
    let mut i: usize = 1;
    let qeq = chars_of("q=");
    proof {
        reveal_strlit("q=");
        assert(qeq@ =~= seq!['q', '=']);
    }
    while i < pieces.len()
        invariant
            1 <= i <= pieces@.len(),
            all == crate::text::views(pieces@).drop_first(),
            qeq@ == seq!['q', '='],
            params_q(all.subrange(0, i - 1)) == Some(q),
        decreases pieces.len() - i,
    {
        let ghost pre = all.subrange(0, i - 1);
        let ghost next = all.subrange(0, i as int);
        assert(next.drop_last() =~= pre);
        assert(next.last() == pieces@[i as int]@);
        let p = trim_chars(&pieces[i]);
        if starts_with_exec(&p, &qeq) {
            let mut v: Vec<char> = Vec::new();
            let mut k: usize = 2;
            while k < p.len()
                invariant
                    2 <= k <= p@.len(),
                    v@ == p@.subrange(2, k as int),
                decreases p.len() - k,
            {
                v.push(p[k]);
                k += 1;
                assert(v@ =~= p@.subrange(2, k as int));
            }
            assert(v@ =~= p@.skip(2));
            let tv = trim_chars(&v);
            match parse_q(&tv) {
                Some(nq) => {
                    q = nq;
                },
                None => {
                    assert(params_q(next) is None);
                    assert forall|j: int| i <= j <= all.len() implies params_q(
                        #[trigger] all.subrange(0, j),
                    ) is None by {
                        lemma_params_q_stays_none(all, i as int, j);
                    }
                    assert(all.subrange(0, all.len() as int) =~= all);
                    return None;
                },
            }
        }
        i += 1;
    }
    assert(all.subrange(0, all.len() as int) =~= all);
    Some(q)
}

proof fn lemma_params_q_stays_none(all: Seq<Seq<char>>, i: int, j: int)
    requires
        1 <= i <= j <= all.len(),
        params_q(all.subrange(0, i)) is None,
    ensures
        params_q(all.subrange(0, j)) is None,
    decreases j - i,
{
    if j > i {
        lemma_params_q_stays_none(all, i, j - 1);
        assert(all.subrange(0, j).drop_last() =~= all.subrange(0, j - 1));
    }
}

/// One comma-separated element of the header as a range (see `range_entry`).
fn range_entry_exec(part: &[char]) -> (r: Option<ExecRange>)
    ensures
        match r {
            Some(e) => range_entry(part@) == Some(range_view(e)),
            None => range_entry(part@) is None,
        },
{
    let pieces = split_chars(part, ';');
    proof {
        lemma_split_len(part@, ';');
        assert(crate::text::views(pieces@) =~= split(part@, ';'));
    }
    let range = trim_chars(&pieces[0]);
    if range.len() == 0 {
        return None;
    }
    let q = match params_q_exec(&pieces) {
        Some(q) => q,
        None => return None,
    };
    if range.len() == 1 && range[0] == '*' {
        assert(range@ =~= seq!['*']);
        return Some(ExecRange { tag: None, q });
    }
    assert(range@ != seq!['*']);
    let rs = string_of(&range);
    match parse_locale(rs.as_str()) {
        Some(tag) => Some(ExecRange { tag: Some(tag), q }),
        None => None,
    }
}

/// Accept-Language negotiation: the served language with the best score, or
/// `None` when the header has no usable range or excludes every served
/// language (the caller then uses the default).
/// The order in which the ranges are listed never matters
/// (`lemma_negotiation_ignores_order`).
pub fn negotiate_language(header: &str) -> (r: Option<String>)
    ensures
        crate::i18n::loader::opt_string_view(r) == negotiated(header@),
{
    let parts = split_chars(&chars_of(header), ',');
    let ghost pv = crate::text::views(parts@);
    assert(pv =~= split(header@, ','));
    let mut ranges: Vec<ExecRange> = Vec::new();
    let mut i: usize = 0;
    while i < parts.len()
        invariant
            i <= parts@.len(),
            pv == crate::text::views(parts@),
            range_views(ranges@) == ranges_of(pv.subrange(0, i as int)),
        decreases parts.len() - i,
    {
        let ghost next = pv.subrange(0, i + 1);
        assert(next.drop_last() =~= pv.subrange(0, i as int));
        let ghost before = ranges@;
        match range_entry_exec(&parts[i]) {
            Some(e) => {
                ranges.push(e);
                assert(range_views(ranges@) =~= range_views(before).push(range_view(e)));
            },
            None => {},
        }
        i += 1;
    }
    assert(pv.subrange(0, parts@.len() as int) =~= pv);
    if ranges.len() == 0 {
        return None;
    }
    let ghost rv = range_views(ranges@);
    let wq = wildcard_exec(&ranges);
    let langs = supported_locales();
    let mut best: Option<(usize, u64, bool)> = None;
    let mut k: usize = 0;
    proof {
        reveal_strlit("en");
        assert("en"@ =~= default_locale());
    }
    while k < langs.len()
        invariant
            langs@.len() == supported().len(),
            forall|j: int| 0 <= j < langs@.len() ==> (#[trigger] langs@[j])@ == supported()[j],
            k <= langs@.len(),
            rv == range_views(ranges@),
            wq == wildcard_q(rv),
            "en"@ == default_locale(),
            best_of(rv, supported().subrange(0, k as int)) == match best {
                Some((bi, bq, bh)) => Some((supported()[bi as int], bq, bh)),
                None => None,
            },
            best matches Some((bi, _, _)) ==> bi < k,
        decreases langs.len() - k,
    {
        let lang = langs[k];
        let (q, hit) = score_exec(&ranges, lang, wq);
        let ghost sub = supported().subrange(0, k + 1);
        assert(sub.drop_last() =~= supported().subrange(0, k as int));
        assert(sub.last() == lang@);
        if q != 0 {
            let better = match best {
                None => true,
                Some((bi, bq, bh)) => if q != bq || hit != bh {
                    q > bq || (q == bq && hit && !bh)
                } else {
                    str_eq(lang, "en") && !str_eq(langs[bi], "en")
                },
            };
            if better {
                best = Some((k, q, hit));
            }
        }
        k += 1;
    }
    assert(supported().subrange(0, langs@.len() as int) =~= supported());
    match best {
        Some((bi, _, _)) => Some(langs[bi].to_owned()),
        None => None,
    }
}

/// The highest wildcard quality among the ranges.
fn wildcard_exec(ranges: &Vec<ExecRange>) -> (r: Option<u64>)
    ensures
        r == wildcard_q(range_views(ranges@)),
{
    let ghost rv = range_views(ranges@);
    let mut w: Option<u64> = None;
    let mut i: usize = 0;
    while i < ranges.len()
        invariant
            i <= ranges@.len(),
            rv == range_views(ranges@),
            w == wildcard_q(rv.subrange(0, i as int)),
        decreases ranges.len() - i,
    {
        let ghost next = rv.subrange(0, i + 1);
        assert(next.drop_last() =~= rv.subrange(0, i as int));
        assert(next.last() == range_view(ranges@[i as int]));
        if ranges[i].tag.is_none() {
            let q = ranges[i].q;
            w = match w {
                None => Some(q),
                Some(b) => Some(if q > b { q } else { b }),
            };
        }
        i += 1;
    }
    assert(rv.subrange(0, ranges@.len() as int) =~= rv);
    w
}

/// Whether an executable range names `lang`, and its specificity.
fn names_exec(e: &ExecRange, lang: &str) -> (r: (bool, u64))
    ensures
        r.0 == names(range_view(*e), lang@),
        r.0 ==> r.1 == specificity(range_view(*e).0->0),
{
    match &e.tag {
        Some(t) => {
            let n = str_eq(t.language(), lang);
            let s: u64 = 1 + (if t.has_script() { 1u64 } else { 0u64 }) + (if t.has_region() {
                1u64
            } else {
                0u64
            });
            (n, s)
        },
        None => (false, 0),
    }
}

/// A language's score (see `score`).
fn score_exec(ranges: &Vec<ExecRange>, lang: &str, wq: Option<u64>) -> (r: (u64, bool))
    requires
        wq == wildcard_q(range_views(ranges@)),
    ensures
        r == score(range_views(ranges@), lang@),
{
    let ghost rv = range_views(ranges@);
    let mut l: u64 = 0;
    let mut i: usize = 0;
    while i < ranges.len()
        invariant
            i <= ranges@.len(),
            rv == range_views(ranges@),
            l == longest(rv.subrange(0, i as int), lang@),
            l <= 3,
        decreases ranges.len() - i,
    {
        let ghost next = rv.subrange(0, i + 1);
        assert(next.drop_last() =~= rv.subrange(0, i as int));
        assert(next.last() == range_view(ranges@[i as int]));
        let (n, s) = names_exec(&ranges[i], lang);
        if n && s > l {
            l = s;
        }
        i += 1;
    }
    assert(rv.subrange(0, ranges@.len() as int) =~= rv);
    if l == 0 {
        return match wq {
            Some(q) => (q, false),
            None => (0, false),
        };
    }
    let mut q: u64 = 0;
    let mut j: usize = 0;
    while j < ranges.len()
        invariant
            j <= ranges@.len(),
            rv == range_views(ranges@),
            q == explicit_q(rv.subrange(0, j as int), lang@, l as nat),
        decreases ranges.len() - j,
    {
        let ghost next = rv.subrange(0, j + 1);
        assert(next.drop_last() =~= rv.subrange(0, j as int));
        assert(next.last() == range_view(ranges@[j as int]));
        let (n, s) = names_exec(&ranges[j], lang);
        if n && s == l && ranges[j].q > q {
            q = ranges[j].q;
        }
        j += 1;
    }
    assert(rv.subrange(0, ranges@.len() as int) =~= rv);
    (q, true)
}

} // verus!
