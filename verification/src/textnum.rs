//! Decimal text: the numbers the store and the venues exchange as strings.
//!
//! Formatting and parsing are verified against one digit model, so the
//! round trips (value to text to value) are proved exact.

use vstd::prelude::*;
use vstd::string::*;

verus! {

use crate::DEC_SCALE;
use crate::fixed::{Dec, Ratio, ratio_wf};

pub open spec fn digit_char(d: int) -> char {
    if d == 0 {
        '0'
    } else if d == 1 {
        '1'
    } else if d == 2 {
        '2'
    } else if d == 3 {
        '3'
    } else if d == 4 {
        '4'
    } else if d == 5 {
        '5'
    } else if d == 6 {
        '6'
    } else if d == 7 {
        '7'
    } else if d == 8 {
        '8'
    } else {
        '9'
    }
}

/// The value of a digit character; ten marks a non-digit.
pub open spec fn digit_val(c: char) -> int {
    if c == '0' {
        0
    } else if c == '1' {
        1
    } else if c == '2' {
        2
    } else if c == '3' {
        3
    } else if c == '4' {
        4
    } else if c == '5' {
        5
    } else if c == '6' {
        6
    } else if c == '7' {
        7
    } else if c == '8' {
        8
    } else if c == '9' {
        9
    } else {
        10
    }
}

pub open spec fn is_digit_char(c: char) -> bool {
    digit_val(c) < 10
}

/// The decimal digits of a non-negative integer, most significant first.
pub open spec fn nat_digits(n: int) -> Seq<char>
    decreases n,
{
    if n < 10 {
        seq![digit_char(n)]
    } else {
        nat_digits(n / 10).push(digit_char(n % 10))
    }
}

pub open spec fn all_digits(s: Seq<char>) -> bool {
    forall|i: int| 0 <= i < s.len() ==> is_digit_char(#[trigger] s[i])
}

/// The value of a digit string, most significant first.
pub open spec fn digits_val(s: Seq<char>) -> int
    decreases s.len(),
{
    if s.len() == 0 {
        0
    } else {
        digits_val(s.drop_last()) * 10 + digit_val(s.last())
    }
}

pub proof fn lemma_digits_val_nonneg(s: Seq<char>)
    requires
        all_digits(s),
    ensures
        digits_val(s) >= 0,
    decreases s.len(),
{
    if s.len() > 0 {
        assert(all_digits(s.drop_last()));
        lemma_digits_val_nonneg(s.drop_last());
    }
}

/// Formatting a non-negative integer gives a non-empty digit string whose
/// value is the integer again.
pub proof fn lemma_nat_digits(n: int)
    requires
        n >= 0,
    ensures
        all_digits(nat_digits(n)),
        digits_val(nat_digits(n)) == n,
        nat_digits(n).len() >= 1,
    decreases n,
{
    if n < 10 {
        assert(seq![digit_char(n)].drop_last() =~= Seq::<char>::empty());
        assert(seq![digit_char(n)].last() == digit_char(n));
        assert(digits_val(Seq::<char>::empty()) == 0);
        assert(digits_val(seq![digit_char(n)]) == digit_val(digit_char(n)));
        assert(digit_val(digit_char(n)) == n);
    } else {
        lemma_nat_digits(n / 10);
        assert(nat_digits(n).drop_last() =~= nat_digits(n / 10));
        let w = nat_digits(n);
        assert(w.last() == digit_char(n % 10));
        assert(digit_val(digit_char(n % 10)) == n % 10);
        assert(digits_val(w) == digits_val(nat_digits(n / 10)) * 10 + n % 10);
        assert(n / 10 * 10 + n % 10 == n);
        assert forall|i: int| 0 <= i < w.len() implies is_digit_char(#[trigger] w[i]) by {
            if i < w.len() - 1 {
                assert(w[i] == nat_digits(n / 10)[i]);
            } else {
                assert(w[i] == digit_char(n % 10));
            }
        }
    }
}

pub fn digit_to_str(d: u64) -> (r: &'static str)
    requires
        d < 10,
    ensures
        r@.len() == 1,
        r@[0] == digit_char(d as int),
{
    proof {
        reveal_strlit("0");
        reveal_strlit("1");
        reveal_strlit("2");
        reveal_strlit("3");
        reveal_strlit("4");
        reveal_strlit("5");
        reveal_strlit("6");
        reveal_strlit("7");
        reveal_strlit("8");
        reveal_strlit("9");
    }
    match d {
        0 => "0",
        1 => "1",
        2 => "2",
        3 => "3",
        4 => "4",
        5 => "5",
        6 => "6",
        7 => "7",
        8 => "8",
        _ => "9",
    }
}

fn char_digit(c: char) -> (r: Option<u64>)
    ensures
        r.is_some() <==> is_digit_char(c),
        r.is_some() ==> r.unwrap() as int == digit_val(c),
{
    match c {
        '0' => Some(0),
        '1' => Some(1),
        '2' => Some(2),
        '3' => Some(3),
        '4' => Some(4),
        '5' => Some(5),
        '6' => Some(6),
        '7' => Some(7),
        '8' => Some(8),
        '9' => Some(9),
        _ => None,
    }
}

/// Writes a number in decimal.
pub fn fmt_u128(n: u128) -> (r: String)
    ensures
        r@ == nat_digits(n as int),
    decreases n,
{
    if n < 10 {
        let d = digit_to_str(n as u64);
        let r = d.to_owned();
        proof {
            assert(r@ =~= nat_digits(n as int));
        }
        r
    } else {
        let mut r = fmt_u128(n / 10);
        let d = digit_to_str((n % 10) as u64);
        r.append(d);
        proof {
            assert(r@ =~= nat_digits(n as int));
        }
        r
    }
}

/// Writes a number in decimal.
pub fn fmt_u64(n: u64) -> (r: String)
    ensures
        r@ == nat_digits(n as int),
{
    fmt_u128(n as u128)
}

proof fn lemma_div10_le(a: int, b: int)
    by (nonlinear_arith)
    requires
        a >= 0,
        b >= 0,
        a <= b / 10,
    ensures
        10 * a <= b,
{
}

proof fn lemma_div10_gt(a: int, b: int)
    by (nonlinear_arith)
    requires
        a >= 0,
        b >= 0,
        a > b / 10,
    ensures
        10 * a > b,
{
}

proof fn lemma_grow_still_big(v: int, m: int, d: int)
    by (nonlinear_arith)
    requires
        v > m,
        v >= 0,
        m >= 0,
        d >= 0,
    ensures
        v * 10 + d > m,
{
}

/// What parsing a decimal integer yields: defined exactly when the string
/// is non-empty, all digits, and the value fits.
pub open spec fn spec_parse_u128(s: Seq<char>) -> Option<int> {
    if s.len() >= 1 && all_digits(s) && digits_val(s) <= u128::MAX as int {
        Option::Some(digits_val(s))
    } else {
        Option::None
    }
}

/// Reads a decimal integer; `None` exactly on a string that is empty, has
/// a non-digit, or overflows.
pub fn parse_u128(s: &str) -> (r: Option<u128>)
    ensures
        r.is_some() <==> spec_parse_u128(s@).is_some(),
        r.is_some() ==> r.unwrap() as int == digits_val(s@),
{
    let len = s.unicode_len();
    if len == 0 {
        return None;
    }
    let mut acc: u128 = 0;
    let mut too_big = false;
    let mut i: usize = 0;
    proof {
        assert(s@.take(0) =~= Seq::<char>::empty());
    }
    while i < len
        invariant
            i <= len,
            len == s@.len(),
            all_digits(s@.take(i as int)),
            too_big <==> digits_val(s@.take(i as int)) > u128::MAX as int,
            !too_big ==> acc as int == digits_val(s@.take(i as int)),
        decreases len - i,
    {
        let c = s.get_char(i);
        let ghost pre = s@.take(i as int);
        proof {
            assert(s@.take(i + 1 as int).drop_last() =~= pre);
            assert(s@.take(i + 1 as int).last() == s@[i as int]);
            lemma_digits_val_nonneg(pre);
        }
        let d = match char_digit(c) {
            Some(d) => d,
            None => {
                proof {
                    assert(!is_digit_char(s@[i as int]));
                }
                return None;
            },
        };
        let d128: u128 = d as u128;
        if too_big {
            proof {
                lemma_grow_still_big(digits_val(pre), u128::MAX as int, d as int);
            }
        } else {
            if acc > (u128::MAX - d128) / 10 {
                proof {
                    lemma_div10_gt(acc as int, (u128::MAX - d128) as int);
                }
                too_big = true;
            } else {
                proof {
                    lemma_div10_le(acc as int, (u128::MAX - d128) as int);
                }
                acc = acc * 10 + d128;
            }
        }
        i = i + 1;
    }
    proof {
        assert(s@.take(len as int) =~= s@);
    }
    if too_big {
        None
    } else {
        Some(acc)
    }
}

/// What parsing a 64-bit decimal integer yields.
pub open spec fn spec_parse_u64(s: Seq<char>) -> Option<int> {
    if s.len() >= 1 && all_digits(s) && digits_val(s) <= u64::MAX as int {
        Option::Some(digits_val(s))
    } else {
        Option::None
    }
}

/// Reads a decimal integer into 64 bits.
pub fn parse_u64(s: &str) -> (r: Option<u64>)
    ensures
        r.is_some() <==> spec_parse_u64(s@).is_some(),
        r.is_some() ==> r.unwrap() as int == digits_val(s@),
{
    match parse_u128(s) {
        Some(v) => {
            if v <= u64::MAX as u128 {
                Some(v as u64)
            } else {
                None
            }
        },
        None => {
            proof {
                if s@.len() >= 1 && all_digits(s@) {
                    lemma_digits_val_nonneg(s@);
                }
            }
            None
        },
    }
}

pub open spec fn pow10(k: nat) -> int
    decreases k,
{
    if k == 0 {
        1
    } else {
        10 * pow10((k - 1) as nat)
    }
}

/// A digit string's value is below ten to its length.
pub proof fn lemma_digits_val_bound(s: Seq<char>)
    requires
        all_digits(s),
    ensures
        0 <= digits_val(s) < pow10(s.len()),
    decreases s.len(),
{
    if s.len() > 0 {
        assert(all_digits(s.drop_last()));
        lemma_digits_val_bound(s.drop_last());
        assert(digit_val(s.last()) <= 9);
    }
}

proof fn lemma_divk_le(a: int, b: int, k: int)
    by (nonlinear_arith)
    requires
        a >= 0,
        b >= 0,
        k > 0,
        a <= b / k,
    ensures
        k * a <= b,
{
}

proof fn lemma_divk_gt(a: int, b: int, k: int)
    by (nonlinear_arith)
    requires
        a >= 0,
        b >= 0,
        k > 0,
        a > b / k,
    ensures
        k * a > b,
{
}

proof fn lemma_scale_up_ge(a: int, k: int)
    by (nonlinear_arith)
    requires
        a >= 0,
        k >= 1,
    ensures
        a * k >= a,
{
}

/// The four zero-padded fractional digits of a fixed-point value.
pub open spec fn dec_frac_chars(f: int) -> Seq<char> {
    seq![
        digit_char(f / 1000),
        digit_char(f / 100 % 10),
        digit_char(f / 10 % 10),
        digit_char(f % 10),
    ]
}

/// A fixed-point value written in decimal: the whole part, a point, and
/// exactly four fractional digits.
pub open spec fn dec_chars(units: int) -> Seq<char> {
    nat_digits(units / (DEC_SCALE as int)) + seq!['.'] + dec_frac_chars(
        units % (DEC_SCALE as int),
    )
}

/// Writes a fixed-point value in decimal.
pub fn fmt_dec(d: Dec) -> (r: String)
    ensures
        r@ == dec_chars(d@),
{
    proof {
        reveal_strlit(".");
    }
    let mut r = fmt_u64(d.units / DEC_SCALE);
    r.append(".");
    let f = d.units % DEC_SCALE;
    r.append(digit_to_str(f / 1000));
    r.append(digit_to_str(f / 100 % 10));
    r.append(digit_to_str(f / 10 % 10));
    r.append(digit_to_str(f % 10));
    proof {
        assert(r@ =~= dec_chars(d@));
    }
    r
}

/// Index of the first occurrence of `c`, or a negative number when absent.
pub open spec fn find_char(s: Seq<char>, c: char) -> int
    decreases s.len(),
{
    if s.len() == 0 {
        -1
    } else if s[0] == c {
        0
    } else if find_char(s.drop_first(), c) < 0 {
        -1
    } else {
        1 + find_char(s.drop_first(), c)
    }
}

/// Characterizes `find_char` by the first matching position.
pub proof fn lemma_find_char_at(s: Seq<char>, c: char, p: int)
    requires
        0 <= p <= s.len(),
        forall|k: int| 0 <= k < p ==> s[k] != c,
        p < s.len() ==> s[p] == c,
    ensures
        find_char(s, c) == if p < s.len() {
            p
        } else {
            -1
        },
    decreases s.len(),
{
    if s.len() == 0 {
    } else if s[0] == c {
        assert(p == 0);
    } else {
        let t = s.drop_first();
        assert(forall|k: int| 0 <= k < p - 1 ==> t[k] != c);
        lemma_find_char_at(t, c, p - 1);
    }
}

/// Scans for the first occurrence of `c` from position `i`.
fn scan_for_char(s: &str, len: usize, i: usize, c: char) -> (r: usize)
    requires
        len == s@.len(),
        i <= len,
    ensures
        i <= r <= len,
        forall|k: int| i <= k < r ==> s@[k] != c,
        r < len ==> s@[r as int] == c,
    decreases len - i,
{
    if i == len {
        len
    } else {
        if s.get_char(i) == c {
            i
        } else {
            scan_for_char(s, len, i + 1, c)
        }
    }
}

/// The units-multiplier for a fraction written with `l` digits.
pub open spec fn pow10_frac(l: int) -> int {
    if l == 1 {
        1000
    } else if l == 2 {
        100
    } else if l == 3 {
        10
    } else {
        1
    }
}

/// What parsing a fixed-point decimal yields: a digit string, optionally a
/// point followed by one to four fractional digits, with the value in
/// range. Defined exactly on the strings the venue and the store may hand
/// over.
pub open spec fn spec_parse_dec(s: Seq<char>) -> Option<int> {
    let dot = find_char(s, '.');
    if dot < 0 {
        match spec_parse_u64(s) {
            Option::Some(v) => if v * (DEC_SCALE as int) <= u64::MAX as int {
                Option::Some(v * (DEC_SCALE as int))
            } else {
                Option::None
            },
            Option::None => Option::None,
        }
    } else {
        let ip = s.take(dot);
        let fp = s.skip(dot + 1);
        if ip.len() >= 1 && all_digits(ip) && 1 <= fp.len() <= 4 && all_digits(fp) {
            let v = digits_val(ip) * (DEC_SCALE as int) + digits_val(fp) * pow10_frac(
                fp.len() as int,
            );
            if v <= u64::MAX as int {
                Option::Some(v)
            } else {
                Option::None
            }
        } else {
            Option::None
        }
    }
}

/// Reads a fixed-point decimal; `None` exactly on a malformed string or an
/// out-of-range value.
pub fn parse_dec(s: &str) -> (r: Option<Dec>)
    ensures
        r.is_some() <==> spec_parse_dec(s@).is_some(),
        r.is_some() ==> Option::Some(r.unwrap()@) == spec_parse_dec(s@),
{
    let len = s.unicode_len();
    let dot = scan_for_char(s, len, 0, '.');
    proof {
        lemma_find_char_at(s@, '.', dot as int);
    }
    if dot == len {
        match parse_u64(s) {
            None => None,
            Some(v) => {
                if v > u64::MAX / DEC_SCALE {
                    proof {
                        lemma_divk_gt(v as int, u64::MAX as int, DEC_SCALE as int);
                    }
                    None
                } else {
                    proof {
                        lemma_divk_le(v as int, u64::MAX as int, DEC_SCALE as int);
                    }
                    Some(Dec::new(v * DEC_SCALE))
                }
            },
        }
    } else {
        let ghost ip = s@.take(dot as int);
        let ghost fp = s@.skip(dot + 1 as int);
        if dot == 0 {
            return None;
        }
        let flen = len - (dot + 1);
        if flen < 1 || flen > 4 {
            return None;
        }
        let ip_str = s.substring_char(0, dot);
        let fp_str = s.substring_char(dot + 1, len);
        proof {
            assert(ip_str@ =~= ip);
            assert(fp_str@ =~= fp);
        }
        let ipv = match parse_u64(ip_str) {
            Some(v) => v,
            None => {
                proof {
                    if all_digits(ip) {
                        lemma_digits_val_nonneg(ip);
                        if all_digits(fp) {
                            lemma_digits_val_nonneg(fp);
                            lemma_scale_up_ge(digits_val(ip), DEC_SCALE as int);
                            assert(digits_val(fp) * pow10_frac(fp.len() as int) >= 0) by {
                                crate::fixed::lemma_mul_le(0, 0, digits_val(fp), pow10_frac(
                                    fp.len() as int,
                                ));
                            }
                        }
                    }
                }
                return None;
            },
        };
        let fpv = match parse_u64(fp_str) {
            Some(v) => v,
            None => {
                proof {
                    if all_digits(fp) {
                        lemma_digits_val_bound(fp);
                    }
                }
                return None;
            },
        };
        proof {
            lemma_digits_val_bound(fp);
            assert(fp.len() == flen);
            assert(pow10(0) == 1);
            assert(pow10(1) == 10);
            assert(pow10(2) == 100);
            assert(pow10(3) == 1000);
            assert(pow10(4) == 10000);
        }
        let scale: u64 = if flen == 1 {
            1000
        } else if flen == 2 {
            100
        } else if flen == 3 {
            10
        } else {
            1
        };
        let frac_units = fpv * scale;
        if ipv > (u64::MAX - frac_units) / DEC_SCALE {
            proof {
                lemma_divk_gt(ipv as int, (u64::MAX - frac_units) as int, DEC_SCALE as int);
            }
            None
        } else {
            proof {
                lemma_divk_le(ipv as int, (u64::MAX - frac_units) as int, DEC_SCALE as int);
            }
            Some(Dec::new(ipv * DEC_SCALE + frac_units))
        }
    }
}

/// Law: writing a fixed-point value and reading it back gives the value.
pub proof fn lemma_dec_text_round_trip(u: u64)
    ensures
        spec_parse_dec(dec_chars(u as int)) == Option::Some(u as int),
{
    let n = u as int;
    let q = n / (DEC_SCALE as int);
    let f = n % (DEC_SCALE as int);
    lemma_nat_digits(q);
    let ip = nat_digits(q);
    let fp = dec_frac_chars(f);
    let w = dec_chars(n);
    assert forall|k: int| 0 <= k < ip.len() implies w[k] != '.' by {
        assert(w[k] == ip[k]);
        assert(is_digit_char(ip[k]));
    }
    assert(w[ip.len() as int] == '.');
    lemma_find_char_at(w, '.', ip.len() as int);
    let dot = ip.len() as int;
    assert(w.take(dot) =~= ip);
    assert(w.skip(dot + 1) =~= fp);
    assert(all_digits(fp));
    // the fractional digits recombine into the fractional units
    let a = f / 1000;
    let b = f / 100 % 10;
    let c = f / 10 % 10;
    let d = f % 10;
    assert(fp.drop_last() =~= seq![digit_char(a), digit_char(b), digit_char(c)]);
    assert(seq![digit_char(a), digit_char(b), digit_char(c)].drop_last() =~= seq![
        digit_char(a),
        digit_char(b),
    ]);
    assert(seq![digit_char(a), digit_char(b)].drop_last() =~= seq![digit_char(a)]);
    assert(seq![digit_char(a)].drop_last() =~= Seq::<char>::empty());
    assert(digits_val(Seq::<char>::empty()) == 0);
    assert(digits_val(seq![digit_char(a)]) == a);
    assert(digits_val(seq![digit_char(a), digit_char(b)]) == a * 10 + b);
    assert(digits_val(seq![digit_char(a), digit_char(b), digit_char(c)]) == (a * 10 + b) * 10 + c);
    assert(digits_val(fp) == ((a * 10 + b) * 10 + c) * 10 + d);
    assert(f / 100 / 10 == f / 1000) by {
        vstd::arithmetic::div_mod::lemma_div_denominator(f, 100, 10);
    }
    assert(f / 10 / 10 == f / 100) by {
        vstd::arithmetic::div_mod::lemma_div_denominator(f, 10, 10);
    }
    assert(a * 10 + b == f / 100);
    assert((f / 100) * 10 + c == f / 10);
    assert((f / 10) * 10 + d == f);
    assert(digits_val(fp) == f);
    assert(pow10_frac(fp.len() as int) == 1);
    assert(q * (DEC_SCALE as int) + f == n);
}

/// An exact ratio written as numerator, a slash, denominator.
pub open spec fn ratio_chars(num: int, den: int) -> Seq<char> {
    nat_digits(num) + seq!['/'] + nat_digits(den)
}

/// Writes a ratio as numerator, slash, denominator: exact, no rounding.
pub fn fmt_ratio(r: &Ratio) -> (s: String)
    ensures
        s@ == ratio_chars(r.num as int, r.den as int),
{
    proof {
        reveal_strlit("/");
    }
    let mut s = fmt_u128(r.num);
    s.append("/");
    let den = fmt_u128(r.den);
    s.append(den.as_str());
    proof {
        assert(s@ =~= ratio_chars(r.num as int, r.den as int));
    }
    s
}

/// What parsing a ratio yields: two digit strings around one slash, the
/// denominator positive.
pub open spec fn spec_parse_ratio(s: Seq<char>) -> Option<(int, int)> {
    let slash = find_char(s, '/');
    if slash < 0 {
        Option::None
    } else {
        let np = s.take(slash);
        let dp = s.skip(slash + 1);
        match (spec_parse_u128(np), spec_parse_u128(dp)) {
            (Option::Some(n), Option::Some(d)) => if d > 0 {
                Option::Some((n, d))
            } else {
                Option::None
            },
            _ => Option::None,
        }
    }
}

/// Reads a ratio; `None` exactly on a malformed string or a zero
/// denominator.
pub fn parse_ratio(s: &str) -> (r: Option<Ratio>)
    ensures
        r.is_some() <==> spec_parse_ratio(s@).is_some(),
        r.is_some() ==> Option::Some((r.unwrap().num as int, r.unwrap().den as int))
            == spec_parse_ratio(s@),
        r.is_some() ==> ratio_wf(r.unwrap()),
{
    let len = s.unicode_len();
    let slash = scan_for_char(s, len, 0, '/');
    proof {
        lemma_find_char_at(s@, '/', slash as int);
    }
    if slash == len {
        return None;
    }
    let np_str = s.substring_char(0, slash);
    let dp_str = s.substring_char(slash + 1, len);
    proof {
        assert(np_str@ =~= s@.take(slash as int));
        assert(dp_str@ =~= s@.skip(slash + 1 as int));
    }
    let num = match parse_u128(np_str) {
        Some(v) => v,
        None => {
            return None;
        },
    };
    let den = match parse_u128(dp_str) {
        Some(v) => v,
        None => {
            return None;
        },
    };
    if den == 0 {
        None
    } else {
        Some(Ratio { num, den })
    }
}

/// Law: writing a ratio and reading it back gives the ratio.
pub proof fn lemma_ratio_text_round_trip(r: Ratio)
    requires
        ratio_wf(r),
    ensures
        spec_parse_ratio(ratio_chars(r.num as int, r.den as int)) == Option::Some(
            (r.num as int, r.den as int),
        ),
{
    lemma_nat_digits(r.num as int);
    lemma_nat_digits(r.den as int);
    let np = nat_digits(r.num as int);
    let dp = nat_digits(r.den as int);
    let w = ratio_chars(r.num as int, r.den as int);
    assert forall|k: int| 0 <= k < np.len() implies w[k] != '/' by {
        assert(w[k] == np[k]);
        assert(is_digit_char(np[k]));
    }
    assert(w[np.len() as int] == '/');
    lemma_find_char_at(w, '/', np.len() as int);
    assert(w.take(np.len() as int) =~= np);
    assert(w.skip(np.len() as int + 1) =~= dp);
}

} // verus!
