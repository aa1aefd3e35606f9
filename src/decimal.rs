//! Exact decoders for decimal text: a reduced fraction, and a byte holding ten
//! times a value written with at most one decimal.
use vstd::prelude::*;
use crate::errors::{invalid_token, ParseError};
use crate::text::{
    all_digits, byte_of, digits_only, digits_value, first_at, is_digit, parse_i64, parse_u8, signed_literal,
    signed_value, split_once, split_once_on,
};

verus! {

/// An exact fraction in lowest terms with a positive denominator.
#[derive(Debug, Clone, Copy, PartialEq, Eq, Structural)]
pub struct Ratio {
    pub numer: i64,
    pub denom: i64,
}

/// No integer above one divides both `a` and `b`.
pub open spec fn coprime(a: int, b: int) -> bool {
    forall|k: int| k > 1 ==> !(#[trigger] (a % k) == 0 && b % k == 0)
}

impl Ratio {
    pub open spec fn wf(self) -> bool {
        self.denom > 0 && coprime(self.numer as int, self.denom as int)
    }

    /// The fraction stands for `n / d`.
    pub open spec fn equals(self, n: int, d: int) -> bool {
        self.numer * d == n * self.denom
    }

    pub fn numer(&self) -> (r: i64)
        ensures
            r == self.numer,
    {
        self.numer
    }

    pub fn denom(&self) -> (r: i64)
        ensures
            r == self.denom,
    {
        self.denom
    }
}

/// `numer / denom` in lowest terms.
fn reduced_value(numer: i64, denom: i64) -> (r: Ratio)
    requires
        denom > 0,
    ensures
        r == lowest_terms(numer as int, denom as int),
        r.wf(),
        r.equals(numer as int, denom as int),
{
    proof {
        lemma_lowest_terms_equal(numer as int, denom as int);
    }
    reduced(numer, denom)
}

/// The fraction in lowest terms that a decimal denotes, if it is one and fits.
pub open spec fn ratio_of(d: Seq<char>) -> Option<Ratio> {
    if decimal_text(d) && decimal_fits(d) {
        Some(lowest_terms(decimal_numer(d), pow10(decimals(d))))
    } else {
        None
    }
}

/// The greatest common divisor, by Euclid's algorithm.
pub open spec fn gcd(a: nat, b: nat) -> nat
    decreases b,
{
    if b == 0 {
        a
    } else {
        gcd(b, a % b)
    }
}

pub open spec fn abs(n: int) -> nat {
    if n < 0 {
        (-n) as nat
    } else {
        n as nat
    }
}

/// `n / d` divided through by the greatest common divisor.
pub open spec fn lowest_terms(n: int, d: int) -> Ratio {
    let g = gcd(abs(n), abs(d)) as int;
    Ratio { numer: (n / g) as i64, denom: (d / g) as i64 }
}

proof fn lemma_gcd_divides(a: nat, b: nat)
    requires
        a > 0 || b > 0,
    ensures
        gcd(a, b) >= 1,
        (a as int) % (gcd(a, b) as int) == 0,
        (b as int) % (gcd(a, b) as int) == 0,
    decreases b,
{
    if b == 0 {
        vstd::arithmetic::div_mod::lemma_mod_self_0(a as int);
    } else {
        let r = a % b;
        lemma_gcd_divides(b, r);
        let g = gcd(b, r) as int;
        vstd::arithmetic::div_mod::lemma_fundamental_div_mod(a as int, b as int);
        vstd::arithmetic::div_mod::lemma_fundamental_div_mod(b as int, g);
        vstd::arithmetic::div_mod::lemma_fundamental_div_mod(r as int, g);
        let q = a as int / b as int;
        let x = b as int / g;
        let y = r as int / g;
        assert(a as int == g * (x * q + y)) by (nonlinear_arith)
            requires
                a as int == b * q + r,
                b as int == g * x,
                r as int == g * y,
        ;
        vstd::arithmetic::div_mod::lemma_mod_multiples_basic(x * q + y, g);
        assert((x * q + y) * g == g * (x * q + y)) by (nonlinear_arith);
    }
}

/// Dividing through by the greatest common divisor keeps the value of the fraction.
proof fn lemma_lowest_terms_equal(n: int, d: int)
    requires
        0 < d <= i64::MAX,
        i64::MIN <= n <= i64::MAX,
    ensures
        lowest_terms(n, d).numer * d == n * lowest_terms(n, d).denom,
{
    lemma_gcd_divides(abs(n), abs(d));
    let g = gcd(abs(n), abs(d)) as int;
    vstd::arithmetic::div_mod::lemma_fundamental_div_mod(abs(n) as int, g);
    vstd::arithmetic::div_mod::lemma_fundamental_div_mod(d, g);
    let u = abs(n) as int / g;
    let v = d / g;
    let m = if n < 0 { -u } else { u };
    assert(abs(n) as int == g * u);
    assert(n == g * m) by (nonlinear_arith)
        requires
            abs(n) as int == g * u,
            m == (if n < 0 { -u } else { u }),
            abs(n) as int == (if n < 0 { -n } else { n }),
    ;
    vstd::arithmetic::div_mod::lemma_div_multiples_vanish(m, g);
    assert(n / g == m);
    assert(d / g == v);
    assert(i64::MIN <= m <= i64::MAX && 0 < v <= i64::MAX) by (nonlinear_arith)
        requires
            n == g * m,
            d == g * v,
            g >= 1,
            0 < d <= i64::MAX,
            i64::MIN <= n <= i64::MAX,
    ;
    assert(m * d == n * v) by (nonlinear_arith)
        requires
            n == g * m,
            d == g * v,
    ;
}

/// Relies on `num::rational::Ratio::new`: it divides numerator and denominator by
/// their greatest common divisor, which leaves them coprime, and keeps a positive
/// denominator positive; it panics only on a zero denominator.
#[verifier::external_body]
fn reduced(numer: i64, denom: i64) -> (r: Ratio)
    requires
        denom > 0,
    ensures
        r == lowest_terms(numer as int, denom as int),
        r.wf(),
{
    let q = num::rational::Ratio::new(numer, denom);
    Ratio { numer: *q.numer(), denom: *q.denom() }
}

pub open spec fn pow10(k: nat) -> int
    decreases k,
{
    if k == 0 {
        1
    } else {
        10 * pow10((k - 1) as nat)
    }
}

proof fn lemma_pow10_positive(k: nat)
    ensures
        pow10(k) >= 1,
    decreases k,
{
    if k > 0 {
        lemma_pow10_positive((k - 1) as nat);
    }
}

proof fn lemma_pow10_too_big(k: nat)
    requires
        k >= 19,
    ensures
        pow10(k) > i64::MAX,
    decreases k,
{
    if k > 19 {
        lemma_pow10_too_big((k - 1) as nat);
    } else {
        reveal_with_fuel(pow10, 20);
    }
}

proof fn lemma_pow10_monotone(a: nat, b: nat)
    requires
        a <= b,
    ensures
        pow10(a) <= pow10(b),
    decreases b - a,
{
    if a < b {
        lemma_pow10_monotone(a, (b - 1) as nat);
        lemma_pow10_positive((b - 1) as nat);
    }
}

proof fn lemma_pow10_eighteen()
    ensures
        pow10(17) == 100000000000000000,
        pow10(18) == 1000000000000000000,
{
    reveal_with_fuel(pow10, 19);
}

proof fn lemma_digits_bound(s: Seq<char>)
    requires
        all_digits(s),
    ensures
        0 <= digits_value(s) < pow10(s.len()),
    decreases s.len(),
{
    if s.len() > 0 {
        let t = s.drop_last();
        assert(all_digits(t)) by {
            assert forall|i: int| 0 <= i < t.len() implies is_digit(#[trigger] t[i]) by {
                assert(t[i] == s[i]);
            }
        }
        assert(is_digit(s[s.len() - 1]));
        lemma_digits_bound(t);
    }
}

/// The integer part of a decimal: empty for zero, else what `str::parse::<i64>` reads.
pub open spec fn whole_ok(l: Seq<char>) -> bool {
    l.len() == 0 || signed_literal(l)
}

pub open spec fn whole_value(l: Seq<char>) -> int {
    if l.len() == 0 {
        0
    } else {
        signed_value(l)
    }
}

/// Whether `d` has the shape of a decimal: an optional signed integer part,
/// then optionally a `.` and digits.
pub open spec fn decimal_text(d: Seq<char>) -> bool {
    match split_once(d, '.') {
        None => whole_ok(d),
        Some((l, r)) => whole_ok(l) && all_digits(r),
    }
}

/// The number of decimals that the denominator counts: an empty fraction reads as `0`.
pub open spec fn decimals(d: Seq<char>) -> nat {
    match split_once(d, '.') {
        None => 0,
        Some((l, r)) => if r.len() == 0 {
            1
        } else {
            r.len()
        },
    }
}

/// The numerator over `10^decimals(d)`; the fraction takes the sign of the integer part.
pub open spec fn decimal_numer(d: Seq<char>) -> int {
    match split_once(d, '.') {
        None => whole_value(d),
        Some((l, r)) => {
            let f = digits_value(r);
            if l.len() > 0 && l[0] == '-' {
                whole_value(l) * pow10(decimals(d)) - f
            } else {
                whole_value(l) * pow10(decimals(d)) + f
            }
        },
    }
}

/// Numerator and denominator both fit in an `i64`.
pub open spec fn decimal_fits(d: Seq<char>) -> bool {
    pow10(decimals(d)) <= i64::MAX && i64::MIN <= decimal_numer(d) <= i64::MAX
}

/// An integer part outside the `i64` range drags the whole numerator out of it.
proof fn lemma_whole_too_big(d: Seq<char>, l: Seq<char>, f: Seq<char>)
    requires
        split_once(d, '.') == Some((l, f)),
        l.len() > 0,
        signed_literal(l),
        !(i64::MIN <= signed_value(l) <= i64::MAX),
        all_digits(f),
    ensures
        !decimal_fits(d),
{
    lemma_digits_bound(f);
    lemma_pow10_positive(decimals(d));
    let w = signed_value(l);
    let p = pow10(decimals(d));
    if l[0] == '-' {
        lemma_digits_bound(l.skip(1));
        assert(w * p <= w) by (nonlinear_arith)
            requires
                w <= 0,
                p >= 1,
        ;
    } else {
        if l[0] == '+' {
            lemma_digits_bound(l.skip(1));
        } else {
            lemma_digits_bound(l);
        }
        assert(w * p >= w) by (nonlinear_arith)
            requires
                w >= 0,
                p >= 1,
        ;
    }
}

/// The value of at most eighteen digits.
fn frac_value(f: &[char]) -> (r: i64)
    requires
        all_digits(f@),
        f@.len() <= 18,
    ensures
        r == digits_value(f@),
{
    proof {
        lemma_digits_bound(f@);
        lemma_pow10_monotone(f@.len(), 18);
        lemma_pow10_eighteen();
    }
    assert(f@.skip(0) =~= f@);
    match crate::text::digits_capped(f, 0, i64::MAX as u64) {
        Some(v) => v as i64,
        None => 0,
    }
}

fn whole_ok_exec(l: &[char]) -> (r: bool)
    ensures
        r == whole_ok(l@),
{
    if l.len() == 0 {
        return true;
    }
    if l[0] == '+' || l[0] == '-' {
        l.len() > 1 && digits_only(l, 1)
    } else {
        assert(l@.skip(0) =~= l@);
        digits_only(l, 0)
    }
}

/// Decodes a decimal into an exact fraction in lowest terms.
///
/// `"1.5"` gives 3/2, `".25"` gives 1/4, `""` gives 0/1. Text of another shape is
/// an `InvalidToken`; a decimal whose scaled numerator or denominator leaves the
/// `i64` range is `Unknown`.
pub fn from_str_ratio(decimal: &str) -> (r: Result<Ratio, ParseError>)
    ensures
        match r {
            Ok(q) => ratio_of(decimal@) == Some(q) && q.wf() && q.equals(
                decimal_numer(decimal@),
                pow10(decimals(decimal@)),
            ),
            Err(ParseError::InvalidToken { token, expected }) => expected@ == "Ratio"@ && !decimal_text(decimal@) && token@
                == decimal@,
            Err(ParseError::Unknown(_)) => decimal_text(decimal@) && !decimal_fits(decimal@),
            Err(_) => false,
        },
{
    let d = crate::text::chars_of(decimal);
    ratio_of_chars(d.as_slice())
}

pub fn ratio_of_chars(d: &[char]) -> (r: Result<Ratio, ParseError>)
    ensures
        match r {
            Ok(q) => ratio_of(d@) == Some(q) && q.wf() && q.equals(
                decimal_numer(d@),
                pow10(decimals(d@)),
            ),
            Err(ParseError::InvalidToken { token, expected }) => expected@ == "Ratio"@ && !decimal_text(d@) && token@ == d@,
            Err(ParseError::Unknown(_)) => decimal_text(d@) && !decimal_fits(d@),
            Err(_) => false,
        },
{
    match split_once_on(d, '.') {
        None => {
            if !whole_ok_exec(d) {
                return Err(invalid_token(d, "Ratio"));
            }
            if d.len() == 0 {
                return Ok(reduced_value(0, 1));
            }
            match parse_i64(d) {
                Some(v) => Ok(reduced_value(v, 1)),
                None => Err(ParseError::Unknown("decimal out of the i64 range".to_owned())),
            }
        },
        Some((l, f)) => {
            if !whole_ok_exec(l.as_slice()) {
                return Err(invalid_token(d, "Ratio"));
            }
            assert(f@.skip(0) =~= f@);
            if !digits_only(f.as_slice(), 0) {
                return Err(invalid_token(d, "Ratio"));
            }
            let k: usize = if f.len() == 0 { 1 } else { f.len() };
            if k > 18 {
                proof {
                    lemma_pow10_too_big(k as nat);
                }
                return Err(ParseError::Unknown("decimal out of the i64 range".to_owned()));
            }
            let mut p: i64 = 1;
            let mut i: usize = 0;
            while i < k
                invariant
                    i <= k <= 18,
                    p == pow10(i as nat),
                    1 <= p <= 1000000000000000000,
                decreases k - i,
            {
                proof {
                    lemma_pow10_monotone(i as nat, 17);
                    lemma_pow10_eighteen();
                    lemma_pow10_positive(i as nat);
                }
                p = p * 10;
                i = i + 1;
            }
            let w: i64 = if l.len() == 0 {
                0
            } else {
                match parse_i64(l.as_slice()) {
                    Some(v) => v,
                    None => {
                        proof {
                            lemma_whole_too_big(d@, l@, f@);
                        }
                        return Err(ParseError::Unknown("decimal out of the i64 range".to_owned()));
                    },
                }
            };
            let fv = frac_value(f.as_slice());
            assert(-9223372036854775808000000000000000000 <= w as int * p as int
                <= 9223372036854775807000000000000000000) by (nonlinear_arith)
                requires
                    i64::MIN <= w <= i64::MAX,
                    1 <= p <= 1000000000000000000,
            ;
            let n: i128 = if l.len() > 0 && l[0] == '-' {
                w as i128 * p as i128 - fv as i128
            } else {
                w as i128 * p as i128 + fv as i128
            };
            if n < i64::MIN as i128 || n > i64::MAX as i128 {
                return Err(ParseError::Unknown("decimal out of the i64 range".to_owned()));
            }
            Ok(reduced_value(n as i64, p))
        },
    }
}

/// The value of a non-empty run of digits.
pub open spec fn digits_of(t: Seq<char>) -> Option<int> {
    if t.len() > 0 && all_digits(t) {
        Some(digits_value(t))
    } else {
        None
    }
}

/// The decimal side of a one-decimal number: empty reads as zero, else one digit.
pub open spec fn tenth_of(r: Seq<char>) -> Option<int> {
    if r.len() == 0 {
        Some(0)
    } else if r.len() == 1 && is_digit(r[0]) {
        Some(r[0] as int - '0' as int)
    } else {
        None
    }
}

/// Ten times the value that `d` writes in digits with at most one decimal, if that is
/// a byte.
pub open spec fn one_decimal(d: Seq<char>) -> Option<u8> {
    match split_once(d, '.') {
        None => match digits_of(d) {
            Some(v) => if v * 10 <= 255 {
                Some((v * 10) as u8)
            } else {
                None
            },
            None => None,
        },
        Some((l, r)) => {
            let whole = if l.len() == 0 {
                Some(0int)
            } else {
                digits_of(l)
            };
            match (whole, tenth_of(r)) {
                (Some(a), Some(b)) => if a * 10 + b <= 255 {
                    Some((a * 10 + b) as u8)
                } else {
                    None
                },
                _ => None,
            }
        },
    }
}

/// The byte that a non-empty run of digits writes; `None` for other text or a
/// larger number.
fn digit_byte(t: &[char]) -> (r: Option<u8>)
    ensures
        match r {
            Some(v) => digits_of(t@) == Some(v as int),
            None => digits_of(t@) is None || digits_of(t@)->Some_0 > 255,
        },
{
    assert(t@.skip(0) =~= t@);
    if t.len() == 0 || !digits_only(t, 0) {
        return None;
    }
    assert(all_digits(t@));
    proof {
        lemma_digits_bound(t@);
    }
    assert(crate::text::is_digit(t@[0]));
    assert(t@[0] != '+');
    assert(crate::text::unsigned_literal(t@));
    assert(crate::text::unsigned_value(t@) == digits_value(t@));
    parse_u8(t)
}

/// Decodes a value written with at most one decimal into a byte holding ten times it:
/// `"5.5"` gives 55, `"7"` gives 70, `".5"` gives 5. Anything else, or a result above
/// 255, is an `InvalidToken`.
pub fn from_str_one_decimal(decimal: &str) -> (r: Result<u8, ParseError>)
    ensures
        match r {
            Ok(v) => one_decimal(decimal@) == Some(v),
            Err(ParseError::InvalidToken { token, expected }) => expected@ == "one-decimal u8"@ && one_decimal(decimal@) is None && token@
                == decimal@,
            Err(_) => false,
        },
{
    let d = crate::text::chars_of(decimal);
    one_decimal_of_chars(d.as_slice())
}

pub fn one_decimal_of_chars(d: &[char]) -> (r: Result<u8, ParseError>)
    ensures
        match r {
            Ok(v) => one_decimal(d@) == Some(v),
            Err(ParseError::InvalidToken { token, expected }) => expected@ == "one-decimal u8"@ && one_decimal(d@) is None && token@ == d@,
            Err(_) => false,
        },
{
    match split_once_on(d, '.') {
        None => match digit_byte(d) {
            Some(v) => {
                if v <= 25 {
                    Ok(v * 10)
                } else {
                    Err(invalid_token(d, "one-decimal u8"))
                }
            },
            None => Err(invalid_token(d, "one-decimal u8")),
        },
        Some((l, f)) => {
            let whole: u8 = if l.len() == 0 {
                0
            } else {
                match digit_byte(l.as_slice()) {
                    Some(v) => v,
                    None => return Err(invalid_token(d, "one-decimal u8")),
                }
            };
            let tenth: u8 = if f.len() == 0 {
                0
            } else if f.len() == 1 && '0' <= f[0] && f[0] <= '9' {
                (f[0] as u32 - '0' as u32) as u8
            } else {
                return Err(invalid_token(d, "one-decimal u8"));
            };
            if whole > 25 || whole * 10 > 255 - tenth {
                return Err(invalid_token(d, "one-decimal u8"));
            }
            Ok(whole * 10 + tenth)
        },
    }
}

/// A decimal made of digits on both sides of one point is accepted, and the
/// fraction it stands for, `decimal_numer / 10^decimals`, is exactly the value
/// that those digits write: `whole + fraction / 10^len(fraction)`.
pub proof fn lemma_decimal_exact(l: Seq<char>, f: Seq<char>)
    requires
        all_digits(l),
        all_digits(f),
    ensures
        decimal_text(l + seq!['.'] + f),
        decimal_numer(l + seq!['.'] + f) * pow10(f.len()) == (digits_value(l) * pow10(f.len())
            + digits_value(f)) * pow10(decimals(l + seq!['.'] + f)),
{
    let d = l + seq!['.'] + f;
    assert(first_at(d, '.', l.len() as int)) by {
        assert(d[l.len() as int] == '.');
        assert forall|j: int| 0 <= j < l.len() implies d[j] != '.' by {
            assert(d[j] == l[j]);
            assert(is_digit(l[j]));
        }
    }
    assert(split_once(d, '.') == Some((l, f))) by {
        let k = choose|k: int| first_at(d, '.', k);
        assert(k == l.len());
        assert(d.take(k) =~= l);
        assert(d.skip(k + 1) =~= f);
    }
    if l.len() > 0 {
        assert(is_digit(l[0]));
    }
    assert(whole_value(l) == digits_value(l));
    let dl = digits_value(l);
    let df = digits_value(f);
    if f.len() == 0 {
        assert(df == 0);
        assert(decimals(d) == 1);
        reveal_with_fuel(pow10, 2);
        assert(pow10(0) == 1 && pow10(1) == 10);
        assert(decimal_numer(d) == dl * 10);
        assert(f.len() == 0);
        assert(decimal_numer(d) * pow10(f.len()) == dl * 10);
        assert((dl * pow10(f.len()) + df) * pow10(decimals(d)) == dl * 10);
    } else {
        assert(decimals(d) == f.len());
        let p = pow10(f.len());
        assert(decimal_numer(d) == dl * p + df);
        assert(pow10(decimals(d)) == p);
    }
}

/// A decimal of digits alone decodes to that integer over one.
pub proof fn lemma_integer_exact(l: Seq<char>)
    requires
        all_digits(l),
        !l.contains('.'),
    ensures
        decimal_text(l),
        decimals(l) == 0,
        decimal_numer(l) == digits_value(l),
{
    assert(!exists|i: int| first_at(l, '.', i)) by {
        if exists|i: int| first_at(l, '.', i) {
            let i = choose|i: int| first_at(l, '.', i);
            assert(l[i] == '.');
        }
    }
    if l.len() > 0 {
        assert(is_digit(l[0]));
    }
}

} // verus!
