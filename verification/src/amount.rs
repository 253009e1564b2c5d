//! Exact decimal amounts.
//!
//! An [`Amount`] holds an exact decimal number as an integer mantissa and a
//! power-of-ten scale: the value is `mantissa / 10^scale`. Amounts are kept
//! in a normalized form (no trailing zero digits in the fraction), so equal
//! values have equal representations and the derived `==` decides value
//! equality. All arithmetic is exact; an operation whose exact result cannot
//! be represented reports failure instead of rounding.

use vstd::prelude::*;

verus! {

use vstd::arithmetic::div_mod::{
    lemma_div_multiples_vanish,
    lemma_fundamental_div_mod,
    lemma_fundamental_div_mod_converse,
};
use vstd::arithmetic::mul::{
    lemma_mul_equality_converse,
    lemma_mul_inequality,
    lemma_mul_is_associative,
    lemma_mul_is_commutative,
    lemma_mul_is_distributive_add_other_way,
    lemma_mul_unary_negation,
};

/// Greatest supported scale: up to 28 fractional digits, matching the range
/// of the exact decimal parser the library relies on.
pub const MAX_SCALE: u32 = 28;

/// Greatest supported mantissa magnitude (96 bits), the full range of the
/// decimal parser's results.
pub const MAX_MANTISSA: i128 = 79228162514264337593543950335;

/// `10^n`.
pub open spec fn pow10(n: nat) -> int
    decreases n,
{
    if n == 0 {
        1
    } else {
        10 * pow10((n - 1) as nat)
    }
}

pub proof fn lemma_pow10_pos(n: nat)
    ensures
        pow10(n) >= 1,
    decreases n,
{
    if n > 0 {
        lemma_pow10_pos((n - 1) as nat);
    }
}

/// `10^(a+b) == 10^a * 10^b`.
pub proof fn lemma_pow10_add(a: nat, b: nat)
    ensures
        pow10(a + b) == pow10(a) * pow10(b),
    decreases a,
{
    if a == 0 {
    } else {
        lemma_pow10_add((a - 1) as nat, b);
        assert(pow10(a + b) == 10 * pow10((a + b - 1) as nat));
        lemma_mul_is_associative(10, pow10((a - 1) as nat), pow10(b));
    }
}

/// An exact decimal number: `mantissa / 10^scale`.
#[derive(Clone, Copy, PartialEq, Eq, Structural, Debug)]
pub struct Amount {
    pub mantissa: i128,
    pub scale: u32,
}

impl Amount {
    /// The mathematical value, scaled by `10^MAX_SCALE` so it is an integer.
    pub open spec fn units(self) -> int
        recommends
            self.scale <= MAX_SCALE,
    {
        self.mantissa * pow10((MAX_SCALE - self.scale) as nat)
    }

    /// Well-formed: the scale is in range, the mantissa fits in 96 bits, and
    /// the representation is normalized (a nonzero fraction never ends in a
    /// zero digit; zero has scale zero).
    pub open spec fn wf(self) -> bool {
        &&& self.scale <= MAX_SCALE
        &&& -MAX_MANTISSA <= self.mantissa <= MAX_MANTISSA
        &&& (self.scale > 0 ==> self.mantissa % 10 != 0)
        &&& (self.mantissa == 0 ==> self.scale == 0)
    }

    /// The zero amount.
    pub fn zero() -> (r: Amount)
        ensures
            r.wf(),
            r.units() == 0,
            r == (Amount { mantissa: 0, scale: 0 }),
    {
        Amount { mantissa: 0, scale: 0 }
    }
}

/// Strip factors of ten from the mantissa, reducing the scale accordingly:
/// the normalized representation of the same value.
pub open spec fn spec_norm(m: int, s: nat) -> (int, nat)
    decreases s,
{
    if s > 0 && m % 10 == 0 {
        spec_norm(m / 10, (s - 1) as nat)
    } else {
        (m, s)
    }
}

/// Normalization preserves the value `m * 10^(k - s)` for any fixed `k >= s`.
pub proof fn lemma_norm_value(m: int, s: nat, k: nat)
    requires
        s <= k,
    ensures
        spec_norm(m, s).0 * pow10((k - spec_norm(m, s).1) as nat) == m * pow10((k - s) as nat),
    decreases s,
{
    if s > 0 && m % 10 == 0 {
        let m1 = m / 10;
        lemma_fundamental_div_mod(m, 10);
        assert(m == 10 * m1);
        lemma_norm_value(m1, (s - 1) as nat, k);
        assert(pow10((k - s + 1) as nat) == 10 * pow10((k - s) as nat));
        lemma_mul_is_associative(m1, 10, pow10((k - s) as nat));
        assert(m1 * (10 * pow10((k - s) as nat)) == (m1 * 10) * pow10((k - s) as nat));
        assert(m1 * 10 == m);
    }
}

/// Normalization yields a normalized pair with a mantissa no larger in
/// magnitude and a scale no larger than the input's.
pub proof fn lemma_norm_shape(m: int, s: nat)
    ensures
        spec_norm(m, s).1 <= s,
        spec_norm(m, s).1 > 0 ==> spec_norm(m, s).0 % 10 != 0,
        spec_norm(m, s).0 == 0 ==> spec_norm(m, s).1 == 0,
        m >= 0 ==> 0 <= spec_norm(m, s).0 <= m,
        m < 0 ==> m <= spec_norm(m, s).0 < 0,
    decreases s,
{
    if s > 0 && m % 10 == 0 {
        let m1 = m / 10;
        lemma_fundamental_div_mod(m, 10);
        lemma_norm_shape(m1, (s - 1) as nat);
    }
}

/// `10^28`, spelled out.
pub proof fn lemma_pow10_28()
    ensures
        pow10(28) == 10000000000000000000000000000,
{
    reveal_with_fuel(pow10, 29);
}

/// `10^n` is monotone in `n`.
pub proof fn lemma_pow10_mono(a: nat, b: nat)
    requires
        a <= b,
    ensures
        pow10(a) <= pow10(b),
{
    lemma_pow10_add(a, (b - a) as nat);
    lemma_pow10_pos(a);
    lemma_pow10_pos((b - a) as nat);
    lemma_mul_inequality(1, pow10((b - a) as nat), pow10(a));
}

/// `10^d` as an `i128`, for `d` up to [`MAX_SCALE`].
fn pow10_exec(d: u32) -> (r: i128)
    requires
        d <= MAX_SCALE,
    ensures
        r == pow10(d as nat),
{
    let mut r: i128 = 1;
    let mut i: u32 = 0;
    while i < d
        invariant
            i <= d <= MAX_SCALE,
            r == pow10(i as nat),
        decreases d - i,
    {
        proof {
            lemma_pow10_28();
            lemma_pow10_pos(i as nat);
            lemma_pow10_mono((i + 1) as nat, 28);
            assert(pow10((i + 1) as nat) == 10 * pow10(i as nat));
        }
        r = r * 10;
        i = i + 1;
    }
    r
}

/// The normalized representation of `m / 10^s` (an executable form of
/// [`spec_norm`]).
fn normalize(m: i128, s: u32) -> (r: Amount)
    requires
        s <= MAX_SCALE,
        m != i128::MIN,
    ensures
        (r.mantissa as int, r.scale as nat) == spec_norm(m as int, s as nat),
{
    let neg = m < 0;
    let mut mag: u128 = if neg {
        (-m) as u128
    } else {
        m as u128
    };
    let mut sc = s;
    while sc > 0 && mag % 10 == 0
        invariant
            sc <= s <= MAX_SCALE,
            mag <= i128::MAX as u128,
            neg ==> mag > 0,
            spec_norm(m as int, s as nat) == spec_norm(
                if neg { -(mag as int) } else { mag as int },
                sc as nat,
            ),
        decreases sc,
    {
        proof {
            let cur = if neg { -(mag as int) } else { mag as int };
            let q = mag as int / 10;
            lemma_fundamental_div_mod(mag as int, 10);
            assert(mag as int == 10 * q);
            if neg {
                lemma_div_multiples_vanish(-q, 10);
                assert(cur == 10 * (-q));
                assert(cur / 10 == -q);
                lemma_fundamental_div_mod_converse(cur, 10, -q, 0);
            }
            assert(cur % 10 == 0);
            assert(spec_norm(cur, sc as nat) == spec_norm(cur / 10, (sc - 1) as nat));
        }
        mag = mag / 10;
        sc = sc - 1;
    }
    proof {
        let cur = if neg { -(mag as int) } else { mag as int };
        if sc > 0 {
            if neg {
                let q = mag as int / 10;
                let w = mag as int % 10;
                lemma_fundamental_div_mod(mag as int, 10);
                assert(w != 0);
                lemma_fundamental_div_mod_converse(cur, 10, -q - 1, 10 - w);
            }
            assert(cur % 10 != 0);
        }
        assert(spec_norm(cur, sc as nat) == (cur, sc as nat));
    }
    let rm: i128 = if neg {
        -(mag as i128)
    } else {
        mag as i128
    };
    Amount { mantissa: rm, scale: sc }
}

/// Whether the exact sum of two amounts stays within the machine bounds of
/// the representation: the common-scale mantissa of the sum must fit in an
/// `i128`, and the normalized result in 96 bits.
pub open spec fn add_fits(a: Amount, b: Amount) -> bool
    recommends
        a.wf(),
        b.wf(),
{
    let lo = if a.scale <= b.scale { a } else { b };
    let hi = if a.scale <= b.scale { b } else { a };
    let rescaled = lo.mantissa * pow10((hi.scale - lo.scale) as nat);
    &&& i128::MIN <= rescaled <= i128::MAX
    &&& i128::MIN < rescaled + hi.mantissa <= i128::MAX
    &&& -MAX_MANTISSA <= spec_norm(rescaled + hi.mantissa, hi.scale as nat).0 <= MAX_MANTISSA
}

/// The exact, normalized sum of two amounts, or `None` where it does not
/// fit (see [`add_fits`]).
pub open spec fn spec_add(a: Amount, b: Amount) -> Option<Amount>
    recommends
        a.wf(),
        b.wf(),
{
    if add_fits(a, b) {
        let lo = if a.scale <= b.scale { a } else { b };
        let hi = if a.scale <= b.scale { b } else { a };
        let rescaled = lo.mantissa * pow10((hi.scale - lo.scale) as nat);
        let n = spec_norm(rescaled + hi.mantissa, hi.scale as nat);
        Some(Amount { mantissa: n.0 as i128, scale: n.1 as u32 })
    } else {
        None
    }
}

impl Amount {
    /// The exact sum, or `None` where it cannot be represented.
    pub fn checked_add(self, other: Amount) -> (r: Option<Amount>)
        requires
            self.wf(),
            other.wf(),
        ensures
            r == spec_add(self, other),
            r is Some <==> add_fits(self, other),
            r matches Some(t) ==> t.wf() && t.units() == self.units() + other.units(),
    {
        let (lo, hi) = if self.scale <= other.scale {
            (self, other)
        } else {
            (other, self)
        };
        let d = hi.scale - lo.scale;
        let factor = pow10_exec(d);
        let rescaled = match lo.mantissa.checked_mul(factor) {
            Some(x) => x,
            None => {
                return None;
            },
        };
        let total = match rescaled.checked_add(hi.mantissa) {
            Some(x) => x,
            None => {
                return None;
            },
        };
        if total == i128::MIN {
            return None;
        }
        let r = normalize(total, hi.scale);
        if r.mantissa > MAX_MANTISSA || r.mantissa < -MAX_MANTISSA {
            return None;
        }
        proof {
            lemma_norm_shape(total as int, hi.scale as nat);
            lemma_add_units(lo, hi, total as int);
        }
        Some(r)
    }

    /// The same magnitude with the opposite sign.
    pub fn negate(self) -> (r: Amount)
        requires
            self.wf(),
        ensures
            r.wf(),
            r.units() == -self.units(),
            r.mantissa == -self.mantissa,
            r.scale == self.scale,
    {
        proof {
            let m = self.mantissa as int;
            if self.scale > 0 {
                let q = m / 10;
                let w = m % 10;
                lemma_fundamental_div_mod(m, 10);
                lemma_fundamental_div_mod_converse(-m, 10, -q - 1, 10 - w);
                assert((-m) % 10 == 10 - w);
            }
            lemma_mul_unary_negation(m, pow10((MAX_SCALE - self.scale) as nat));
        }
        Amount { mantissa: -self.mantissa, scale: self.scale }
    }
}

/// The normalized common-scale sum has the summed value: the key algebraic
/// step behind [`Amount::checked_add`].
proof fn lemma_add_units(lo: Amount, hi: Amount, total: int)
    requires
        lo.wf(),
        hi.wf(),
        lo.scale <= hi.scale,
        total == lo.mantissa * pow10((hi.scale - lo.scale) as nat) + hi.mantissa,
    ensures
        spec_norm(total, hi.scale as nat).0 * pow10(
            (MAX_SCALE - spec_norm(total, hi.scale as nat).1) as nat,
        ) == lo.units() + hi.units(),
{
    let d = (hi.scale - lo.scale) as nat;
    let ph = pow10((MAX_SCALE - hi.scale) as nat);
    lemma_norm_value(total, hi.scale as nat, MAX_SCALE as nat);
    lemma_mul_is_distributive_add_other_way(ph, lo.mantissa * pow10(d), hi.mantissa as int);
    assert(total * ph == (lo.mantissa * pow10(d)) * ph + hi.mantissa * ph);
    lemma_mul_is_associative(lo.mantissa as int, pow10(d), ph);
    lemma_pow10_add(d, (MAX_SCALE - hi.scale) as nat);
    assert(pow10(d) * ph == pow10((MAX_SCALE - lo.scale) as nat));
}

/// What [`spec_add`] yields is well-formed and sums the values: the
/// spec-level counterpart of [`Amount::checked_add`]'s contract.
pub proof fn lemma_spec_add(a: Amount, b: Amount)
    requires
        a.wf(),
        b.wf(),
    ensures
        spec_add(a, b) matches Some(t) ==> t.wf() && t.units() == a.units() + b.units(),
{
    if add_fits(a, b) {
        let lo = if a.scale <= b.scale { a } else { b };
        let hi = if a.scale <= b.scale { b } else { a };
        let total = lo.mantissa * pow10((hi.scale - lo.scale) as nat) + hi.mantissa;
        lemma_norm_shape(total, hi.scale as nat);
        lemma_add_units(lo, hi, total);
    }
}

/// The sign of a well-formed amount's value is the sign of its mantissa.
pub proof fn lemma_units_sign(a: Amount)
    requires
        a.scale <= MAX_SCALE,
    ensures
        a.units() > 0 <==> a.mantissa > 0,
        a.units() == 0 <==> a.mantissa == 0,
        a.units() < 0 <==> a.mantissa < 0,
{
    let p = pow10((MAX_SCALE - a.scale) as nat);
    lemma_pow10_pos((MAX_SCALE - a.scale) as nat);
    let m = a.mantissa as int;
    assert(m > 0 && p >= 1 ==> m * p > 0) by (nonlinear_arith);
    assert(m == 0 ==> m * p == 0) by (nonlinear_arith);
    assert(m < 0 && p >= 1 ==> m * p < 0) by (nonlinear_arith);
}

/// What the exact decimal parser returns for a given numeral, as a mantissa
/// and a scale; `None` on text it does not accept.
pub uninterp spec fn parsed_decimal(s: Seq<char>) -> Option<(i128, u32)>;

/// The value parsed from `s`, in [`Amount::units`] scaling.
pub open spec fn parsed_units(s: Seq<char>) -> int
    recommends
        parsed_decimal(s) is Some,
        parsed_decimal(s)->Some_0.1 <= MAX_SCALE,
{
    let p = parsed_decimal(s)->Some_0;
    p.0 * pow10((MAX_SCALE - p.1) as nat)
}

/// Relies on rust_decimal's `Decimal::from_str_exact`, `mantissa` and
/// `scale`: parses `s` as an exact decimal numeral and reports the parsed
/// number's mantissa and scale, `None` where `s` is not a decimal numeral
/// that the 96-bit representation holds exactly. The result is a function
/// of `s` alone; a mantissa always fits in 96 bits and a scale never
/// exceeds 28; the parser accepts a `-` sign only as the first character,
/// so a negative mantissa comes only from text that starts with `-`.
#[verifier::external_body]
fn dec_from_str(s: &str) -> (r: Option<(i128, u32)>)
    ensures
        r == parsed_decimal(s@),
        r matches Some(p) ==> -MAX_MANTISSA <= p.0 <= MAX_MANTISSA && p.1 <= MAX_SCALE,
        (r matches Some(p) && p.0 < 0) ==> s@.len() > 0 && s@[0] == '-',
{
    match rust_decimal::Decimal::from_str_exact(s) {
        Ok(d) => Some((d.mantissa(), d.scale())),
        Err(_) => None,
    }
}

/// The decimal digits of `d` (a single digit value).
pub open spec fn digit_char(d: int) -> char {
    if d == 0 {
        '0'
    } else if d == 1 {
        '1'
    } else if d == 2 {
        '2'
    } else if d == 3 {
        '3'
    } else if d == 4 {
        '4'
    } else if d == 5 {
        '5'
    } else if d == 6 {
        '6'
    } else if d == 7 {
        '7'
    } else if d == 8 {
        '8'
    } else {
        '9'
    }
}

/// The canonical decimal digits of a non-negative integer.
pub open spec fn nat_text(n: int) -> Seq<char>
    recommends
        n >= 0,
    decreases n,
{
    if n < 10 {
        seq![digit_char(n)]
    } else {
        nat_text(n / 10).push(digit_char(n % 10))
    }
}

/// The canonical decimal text of an integer, `-` first where negative.
pub open spec fn int_text(n: int) -> Seq<char> {
    if n < 0 {
        seq!['-'] + nat_text(-n)
    } else {
        nat_text(n)
    }
}

/// The text that the exact decimal renderer produces for mantissa `m` at
/// scale `s`: `m / 10^s` written with exactly `s` fractional digits.
pub uninterp spec fn decimal_text(m: int, s: nat) -> Seq<char>;

/// The rendered form of an amount: integer values (scale zero, since the
/// amount is normalized) render as a plain integer, fractional values with
/// their full fractional digits.
pub open spec fn amount_text(a: Amount) -> Seq<char> {
    if a.scale == 0 {
        int_text(a.mantissa as int)
    } else {
        decimal_text(a.mantissa as int, a.scale as nat)
    }
}

/// Relies on the standard integer formatter: the canonical decimal digits,
/// with a leading `-` for negative values.
#[verifier::external_body]
fn fmt_i128(n: i128) -> (r: String)
    ensures
        r@ == int_text(n as int),
{
    format!("{}", n)
}

/// Relies on rust_decimal's `Decimal::from_i128_with_scale` and its
/// `Display`: the exact decimal text of `m / 10^s`, a function of the two
/// arguments alone.
#[verifier::external_body]
fn fmt_decimal(m: i128, s: u32) -> (r: String)
    requires
        s <= MAX_SCALE,
        -MAX_MANTISSA <= m <= MAX_MANTISSA,
    ensures
        r@ == decimal_text(m as int, s as nat),
{
    format!("{}", rust_decimal::Decimal::from_i128_with_scale(m, s))
}

impl Amount {
    /// Parse an exact decimal numeral such as `"100.00"`; the result is
    /// normalized. `None` where the text is not a decimal numeral the
    /// representation holds exactly.
    pub fn parse(s: &str) -> (r: Option<Amount>)
        ensures
            r is Some <==> parsed_decimal(s@) is Some,
            r matches Some(a) ==> a.wf() && a.units() == parsed_units(s@),
            parsed_decimal(s@) matches Some(p) ==> -MAX_MANTISSA <= p.0 <= MAX_MANTISSA && p.1
                <= MAX_SCALE,
            (parsed_decimal(s@) matches Some(p) && p.0 < 0) ==> s@.len() > 0 && s@[0] == '-',
    {
        match dec_from_str(s) {
            None => None,
            Some((m, sc)) => {
                let a = normalize(m, sc);
                proof {
                    lemma_norm_shape(m as int, sc as nat);
                    lemma_norm_value(m as int, sc as nat, MAX_SCALE as nat);
                }
                Some(a)
            },
        }
    }

    /// The exact decimal text of this amount: integer values render without
    /// a fraction, others with their full fractional digits.
    pub fn to_text(&self) -> (r: String)
        requires
            self.wf(),
        ensures
            r@ == amount_text(*self),
    {
        if self.scale == 0 {
            fmt_i128(self.mantissa)
        } else {
            fmt_decimal(self.mantissa, self.scale)
        }
    }
}

/// Among well-formed amounts the representation of a value is canonical:
/// equal values are structurally equal.
pub proof fn lemma_canonical(a: Amount, b: Amount)
    requires
        a.wf(),
        b.wf(),
        a.units() == b.units(),
    ensures
        a == b,
{
    if a.scale < b.scale {
        lemma_distinct_scales(a, b);
    } else if b.scale < a.scale {
        lemma_distinct_scales(b, a);
    } else {
        let p = pow10((MAX_SCALE - a.scale) as nat);
        lemma_pow10_pos((MAX_SCALE - a.scale) as nat);
        lemma_mul_is_commutative(a.mantissa as int, p);
        lemma_mul_is_commutative(b.mantissa as int, p);
        lemma_mul_equality_converse(p, a.mantissa as int, b.mantissa as int);
    }
}

/// Two well-formed amounts with distinct scales hold distinct values.
proof fn lemma_distinct_scales(a: Amount, b: Amount)
    requires
        a.wf(),
        b.wf(),
        a.scale < b.scale,
    ensures
        a.units() != b.units(),
{
    if a.units() == b.units() {
        let d = (b.scale - a.scale) as nat;
        let pb = pow10((MAX_SCALE - b.scale) as nat);
        lemma_pow10_add(d, (MAX_SCALE - b.scale) as nat);
        assert(pow10((MAX_SCALE - a.scale) as nat) == pow10(d) * pb);
        lemma_mul_is_associative(a.mantissa as int, pow10(d), pb);
        assert((a.mantissa * pow10(d)) * pb == b.mantissa * pb);
        lemma_pow10_pos((MAX_SCALE - b.scale) as nat);
        lemma_mul_is_commutative(a.mantissa * pow10(d), pb);
        lemma_mul_is_commutative(b.mantissa as int, pb);
        lemma_mul_equality_converse(pb, a.mantissa * pow10(d), b.mantissa as int);
        assert(a.mantissa * pow10(d) == b.mantissa);
        assert(pow10(d) == 10 * pow10((d - 1) as nat));
        lemma_mul_is_associative(a.mantissa as int, 10, pow10((d - 1) as nat));
        lemma_mul_is_commutative(a.mantissa as int, 10);
        lemma_mul_is_associative(10, a.mantissa as int, pow10((d - 1) as nat));
        assert(b.mantissa == 10 * (a.mantissa * pow10((d - 1) as nat)));
        lemma_fundamental_div_mod_converse(
            b.mantissa as int,
            10,
            a.mantissa * pow10((d - 1) as nat),
            0,
        );
        assert(b.mantissa % 10 == 0);
        if b.mantissa == 0 {
            assert(b.scale == 0);
        }
        assert(false);
    }
}

} // verus!
