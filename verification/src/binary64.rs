//! Binary64 numbers by their bit patterns, computed with integers alone.
//!
//! A finite number is `mantissa * 2^exponent` with a sign. Sums and products
//! are rounded to 53 significant bits, ties to the even neighbour.
use vstd::prelude::*;
use crate::strings;
use crate::strings::{decimal, digit};

verus! {

/// A binary64 number, by its bit pattern.
#[derive(Clone, Copy, Debug, PartialEq, Eq, Structural)]
pub struct Binary64 {
    pub bits: u64,
}

/// `2^exponent`.
pub open spec fn two_to(exponent: nat) -> nat
    decreases exponent,
{
    if exponent == 0 {
        1
    } else {
        2 * two_to((exponent - 1) as nat)
    }
}

/// `numerator / denominator` to the nearest integer, ties to even.
pub open spec fn nearest_even(numerator: nat, denominator: nat) -> nat {
    let quotient = numerator / denominator;
    let twice = 2 * (numerator % denominator);
    if twice < denominator || (twice == denominator && quotient % 2 == 0) {
        quotient
    } else {
        quotient + 1
    }
}

/// The spacing of 53-bit numbers around `value`.
pub open spec fn spacing(value: nat) -> nat
    decreases value,
{
    if value < 0x20_0000_0000_0000 {
        1
    } else {
        2 * spacing(value / 2)
    }
}

/// `value` rounded to 53 significant bits.
pub open spec fn rounded(value: nat) -> nat {
    nearest_even(value, spacing(value)) * spacing(value)
}

impl Binary64 {
    pub open spec fn negative(self) -> bool {
        self.bits >= 0x8000_0000_0000_0000
    }

    pub open spec fn exponent_field(self) -> int {
        (self.bits as int / 0x10_0000_0000_0000) % 2048
    }

    pub open spec fn fraction_field(self) -> int {
        self.bits as int % 0x10_0000_0000_0000
    }

    /// Neither an infinity nor a not-a-number.
    pub open spec fn finite(self) -> bool {
        self.exponent_field() != 2047
    }

    /// The integer that `2^exponent` multiplies.
    pub open spec fn mantissa(self) -> nat {
        if self.exponent_field() == 0 {
            self.fraction_field() as nat
        } else {
            (0x10_0000_0000_0000 + self.fraction_field()) as nat
        }
    }

    pub open spec fn exponent(self) -> int {
        if self.exponent_field() == 0 {
            -1074
        } else {
            self.exponent_field() - 1075
        }
    }

    /// The magnitude in tenths, to the nearest, ties to even.
    pub open spec fn tenths(self) -> nat {
        if self.exponent() >= 0 {
            self.mantissa() * two_to(self.exponent() as nat) * 10
        } else {
            nearest_even(self.mantissa() * 10, two_to((-self.exponent()) as nat))
        }
    }

    /// Whether the number is at least `bound`.
    pub open spec fn reaches(self, bound: nat) -> bool {
        if self.mantissa() == 0 {
            bound == 0
        } else if self.negative() {
            false
        } else if self.exponent() >= 0 {
            self.mantissa() * two_to(self.exponent() as nat) >= bound
        } else {
            self.mantissa() >= bound * two_to((-self.exponent()) as nat)
        }
    }
}

/// The nonnegative number `mantissa * 2^exponent`, for a mantissa of at most
/// 53 significant bits, an exponent of at least -1074 and a value in range.
pub open spec fn encoded(mantissa: nat, exponent: int) -> u64
    decreases
        (if mantissa >= 0x20_0000_0000_0000 {
            mantissa as int
        } else {
            0x20_0000_0000_0000 - mantissa
        }),
{
    if mantissa == 0 {
        0
    } else if mantissa >= 0x20_0000_0000_0000 {
        encoded(mantissa / 2, exponent + 1)
    } else if mantissa < 0x10_0000_0000_0000 && exponent > -1074 {
        encoded(2 * mantissa, exponent - 1)
    } else if mantissa < 0x10_0000_0000_0000 {
        mantissa as u64
    } else {
        ((exponent + 1075) * 0x10_0000_0000_0000 + (mantissa - 0x10_0000_0000_0000)) as u64
    }
}

/// How often `numerator` is doubled until it is `2^54` times `denominator`.
pub open spec fn doublings(numerator: nat, denominator: nat) -> nat
    decreases
        (if numerator >= 0x40_0000_0000_0000 * denominator {
            0
        } else {
            0x40_0000_0000_0000 * denominator - numerator
        }),
{
    if numerator == 0 || numerator >= 0x40_0000_0000_0000 * denominator {
        0
    } else {
        1 + doublings(2 * numerator, denominator)
    }
}

/// The quotient scaled by `2^(doublings + 1)`, its last bit set where the
/// division leaves a remainder.
pub open spec fn scaled_quotient(numerator: nat, denominator: nat) -> nat {
    let scaled = numerator * two_to(doublings(numerator, denominator));
    2 * (scaled / denominator) + (if scaled % denominator == 0 {
        0nat
    } else {
        1nat
    })
}

/// `numerator / denominator`, each operand and the quotient rounded to 53 bits:
/// the mantissa of the quotient over `2^(doublings + 1)`.
pub open spec fn quotient_mantissa(numerator: nat, denominator: nat) -> nat {
    rounded(scaled_quotient(rounded(numerator), rounded(denominator)))
}

pub open spec fn quotient_exponent(numerator: nat, denominator: nat) -> int {
    -(doublings(rounded(numerator), rounded(denominator)) + 1)
}

/// `numerator / denominator * 100` in binary64 arithmetic.
pub open spec fn percentage(numerator: nat, denominator: nat) -> Binary64 {
    Binary64 {
        bits: encoded(
            rounded(quotient_mantissa(numerator, denominator) * 100),
            quotient_exponent(numerator, denominator),
        ),
    }
}

/// Ten times the number, limited to 0 and 1000, in binary64 arithmetic and then
/// to the nearest integer, ties away from zero.
pub open spec fn permille_of(value: Binary64) -> nat {
    if value.mantissa() == 0 || value.negative() {
        0
    } else if value.reaches(100) {
        1000
    } else {
        let scale = two_to((-value.exponent()) as nat);
        (2 * rounded(value.mantissa() * 10) + scale) / (2 * scale)
    }
}

pub proof fn lemma_two_to_positive(exponent: nat)
    ensures
        two_to(exponent) >= 1,
    decreases exponent,
{
    if exponent > 0 {
        lemma_two_to_positive((exponent - 1) as nat);
    }
}

pub proof fn lemma_two_to_monotone(small: nat, large: nat)
    requires
        small <= large,
    ensures
        two_to(small) <= two_to(large),
    decreases large - small,
{
    if small < large {
        lemma_two_to_monotone(small, (large - 1) as nat);
    }
}

proof fn lemma_two_to_64()
    ensures
        two_to(57) == 0x200_0000_0000_0000,
        two_to(64) == 0x1_0000_0000_0000_0000,
{
    reveal_with_fuel(two_to, 65);
}

proof fn lemma_large_powers()
    ensures
        two_to(100) == 0x10_0000_0000_0000_0000_0000_0000,
        two_to(120) == 0x100_0000_0000_0000_0000_0000_0000_0000,
        two_to(200) > 0x1000_0000_0000_0000_0000_0000_0000_0000,
{
    assert(two_to(20) == 0x10_0000 && two_to(50) == 0x4_0000_0000_0000) by {
        reveal_with_fuel(two_to, 51);
    }
    lemma_two_to_split(50, 50);
    lemma_two_to_split(100, 20);
    lemma_two_to_split(120, 20);
    lemma_two_to_monotone(140, 200);
}

pub proof fn lemma_spacing(value: nat)
    ensures
        spacing(value) >= 1,
        spacing(value) <= value + 1,
        value >= 0x20_0000_0000_0000 ==> 0x10_0000_0000_0000 * spacing(value) <= value
            < 0x20_0000_0000_0000 * spacing(value),
    decreases value,
{
    if value >= 0x20_0000_0000_0000 {
        lemma_spacing(value / 2);
    }
}

pub proof fn lemma_rounded_bound(value: nat)
    ensures
        value < 0x20_0000_0000_0000 ==> rounded(value) == value,
        rounded(value) <= 2 * value,
        value < 0x1_0000_0000_0000_0000 ==> rounded(value) <= 0x1_0000_0000_0000_0000,
        (rounded(value) == 0) == (value == 0),
{
    lemma_spacing(value);
    let step = spacing(value);
    let near = nearest_even(value, step);
    if value < 0x20_0000_0000_0000 {
        assert(value / 1 == value && value % 1 == 0);
        assert(near == value);
        assert(near * step == value) by (nonlinear_arith)
            requires
                near == value,
                step == 1,
        ;
    } else {
        assert(near <= 0x20_0000_0000_0000) by {
            assert(value / step < 0x20_0000_0000_0000) by (nonlinear_arith)
                requires
                    value < 0x20_0000_0000_0000 * step,
                    step >= 1,
            ;
        }
        assert(near >= 0x10_0000_0000_0000) by {
            assert(value / step >= 0x10_0000_0000_0000) by (nonlinear_arith)
                requires
                    value >= 0x10_0000_0000_0000 * step,
                    step >= 1,
            ;
        }
        assert(near * step <= value + step) by {
            assert((value / step) * step <= value) by (nonlinear_arith)
                requires
                    step >= 1,
            ;
            assert(near * step <= (value / step + 1) * step) by (nonlinear_arith)
                requires
                    near <= value / step + 1,
                    step >= 1,
            ;
            assert((value / step + 1) * step == (value / step) * step + step) by (nonlinear_arith);
        }
        assert(near * step >= step) by (nonlinear_arith)
            requires
                near >= 1,
                step >= 1,
        ;
        if value < 0x1_0000_0000_0000_0000 {
            assert(0x20_0000_0000_0000 * step <= 0x1_0000_0000_0000_0000) by {
                lemma_spacing_below_64(value);
            }
            assert(near * step <= 0x20_0000_0000_0000 * step) by (nonlinear_arith)
                requires
                    near <= 0x20_0000_0000_0000,
                    step >= 1,
            ;
        }
    }
}

proof fn lemma_spacing_below_64(value: nat)
    requires
        value < 0x1_0000_0000_0000_0000,
    ensures
        spacing(value) <= 0x800,
{
    reveal_with_fuel(spacing, 13);
}

impl Binary64 {
    pub fn is_finite(self) -> (yes: bool)
        ensures
            yes == self.finite(),
    {
        (self.bits / 0x10_0000_0000_0000) % 2048 != 2047
    }

    /// The mantissa and the biased exponent: the exponent plus 1074.
    fn parts(self) -> (parts: (u64, u64))
        ensures
            parts.0 == self.mantissa(),
            parts.1 == self.exponent() + 1074,
            parts.0 < 0x20_0000_0000_0000,
            parts.1 <= 2046,
            parts.1 > 0 ==> parts.0 >= 0x10_0000_0000_0000,
    {
        let field: u64 = (self.bits / 0x10_0000_0000_0000) % 2048;
        let fraction: u64 = self.bits % 0x10_0000_0000_0000;
        if field == 0 {
            (fraction, 0)
        } else {
            (0x10_0000_0000_0000 + fraction, field - 1)
        }
    }
}

/// `2^exponent`, for exponents up to 100.
fn power(exponent: u64) -> (value: u128)
    requires
        exponent <= 100,
    ensures
        value == two_to(exponent as nat),
        1 <= value <= 0x10_0000_0000_0000_0000_0000_0000,
{
    let mut value: u128 = 1;
    let mut i: u64 = 0;
    proof {
        lemma_large_powers();
    }
    while i < exponent
        invariant
            i <= exponent <= 100,
            value == two_to(i as nat),
            two_to(100) == 0x10_0000_0000_0000_0000_0000_0000,
        decreases exponent - i,
    {
        proof {
            lemma_two_to_monotone((i + 1) as nat, 100);
        }
        value = value * 2;
        i = i + 1;
    }
    proof {
        lemma_two_to_monotone(exponent as nat, 100);
        lemma_two_to_positive(exponent as nat);
    }
    value
}

/// `numerator / denominator` to the nearest integer, ties to even.
fn divide_nearest(numerator: u128, denominator: u128) -> (quotient: u128)
    requires
        0 < denominator <= 0x4000_0000_0000_0000_0000_0000_0000_0000,
        numerator <= 0x4000_0000_0000_0000_0000_0000_0000_0000,
    ensures
        quotient == nearest_even(numerator as nat, denominator as nat),
        quotient <= numerator / denominator + 1,
{
    let quotient: u128 = numerator / denominator;
    let twice: u128 = 2 * (numerator % denominator);
    assert(numerator / denominator <= numerator) by (nonlinear_arith)
        requires
            denominator > 0,
    ;
    if twice < denominator || (twice == denominator && quotient % 2 == 0) {
        quotient
    } else {
        quotient + 1
    }
}

/// `value` rounded to 53 significant bits.
fn round(value: u128) -> (near: u128)
    requires
        value <= 0x1000_0000_0000_0000_0000_0000_0000_0000,
    ensures
        near == rounded(value as nat),
{
    let mut rest: u128 = value;
    let mut step: u128 = 1;
    proof {
        lemma_spacing(value as nat);
    }
    while rest >= 0x20_0000_0000_0000
        invariant
            spacing(value as nat) == step * spacing(rest as nat),
            spacing(value as nat) <= value + 1,
            value <= 0x1000_0000_0000_0000_0000_0000_0000_0000,
            step >= 1,
        decreases rest,
    {
        proof {
            lemma_spacing((rest / 2) as nat);
            assert(step * (2 * spacing((rest / 2) as nat)) == (step * 2) * spacing(
                (rest / 2) as nat,
            )) by (nonlinear_arith);
            assert(step * 2 <= (step * 2) * spacing((rest / 2) as nat)) by (nonlinear_arith)
                requires
                    spacing((rest / 2) as nat) >= 1,
                    step >= 1,
            ;
        }
        step = step * 2;
        rest = rest / 2;
    }
    assert(spacing(rest as nat) == 1);
    assert(step * spacing(rest as nat) == step) by (nonlinear_arith)
        requires
            spacing(rest as nat) == 1,
    ;
    let near: u128 = divide_nearest(value, step);
    proof {
        lemma_rounded_bound(value as nat);
    }
    near * step
}

/// `value` as binary64 holds it.
pub fn round_integer(value: u64) -> (near: u128)
    ensures
        near == rounded(value as nat),
        near <= 0x1_0000_0000_0000_0000,
        value >= 1024 ==> near >= 1024,
{
    proof {
        lemma_rounded_bound(value as nat);
        lemma_rounded_large(value as nat);
    }
    round(value as u128)
}

proof fn lemma_rounded_large(value: nat)
    ensures
        value >= 1024 ==> rounded(value) >= 1024,
{
    lemma_spacing(value);
    lemma_rounded_bound(value);
    let step = spacing(value);
    if value >= 0x20_0000_0000_0000 {
        let near = nearest_even(value, step);
        assert(value / step >= 0x10_0000_0000_0000) by (nonlinear_arith)
            requires
                value >= 0x10_0000_0000_0000 * step,
                step >= 1,
        ;
        assert(near * step >= near) by (nonlinear_arith)
            requires
                step >= 1,
                near >= 0,
        ;
    }
}

/// `numerator / denominator` to the nearest integer, ties to even.
pub fn nearest_quotient(numerator: u128, denominator: u128) -> (quotient: u128)
    requires
        0 < denominator <= 0x4000_0000_0000_0000_0000_0000_0000_0000,
        numerator <= 0x4000_0000_0000_0000_0000_0000_0000_0000,
    ensures
        quotient == nearest_even(numerator as nat, denominator as nat),
        quotient <= numerator / denominator + 1,
{
    divide_nearest(numerator, denominator)
}

/// The nonnegative number `mantissa * 2^exponent`.
fn encode(mantissa: u128, exponent: i64) -> (value: Binary64)
    requires
        mantissa <= 0x1000_0000_0000_0000_0000_0000_0000_0000,
        -1074 <= exponent <= 700,
    ensures
        value.bits == encoded(mantissa as nat, exponent as int),
        value.finite(),
        !value.negative(),
{
    if mantissa == 0 {
        return Binary64 { bits: 0 };
    }
    let mut m: u128 = mantissa;
    let mut e: i64 = exponent;
    let ghost mut steps: int = 0;
    assert(m * two_to(0) == m) by (nonlinear_arith)
        requires
            two_to(0) == 1,
    ;
    while m >= 0x20_0000_0000_0000
        invariant
            m > 0,
            m * two_to(steps as nat) <= 0x1000_0000_0000_0000_0000_0000_0000_0000,
            0 <= steps,
            e == exponent + steps,
            -1074 <= exponent <= 700,
            steps <= 200,
            encoded(mantissa as nat, exponent as int) == encoded(m as nat, e as int),
        decreases m,
    {
        proof {
            assert(steps < 200) by {
                if steps >= 200 {
                    lemma_two_to_monotone(200, steps as nat);
                    lemma_large_powers();
                    assert(m * two_to(steps as nat) >= two_to(steps as nat)) by (nonlinear_arith)
                        requires
                            m >= 1,
                            two_to(steps as nat) >= 0,
                    ;
                }
            }
            assert(two_to((steps + 1) as nat) == 2 * two_to(steps as nat));
            assert((m / 2) * (2 * two_to(steps as nat)) <= m * two_to(steps as nat))
                by (nonlinear_arith)
                requires
                    m >= 0,
                    two_to(steps as nat) >= 0,
            ;
            steps = steps + 1;
        }
        m = m / 2;
        e = e + 1;
    }
    let ghost low: int = e as int;
    let ghost mut ups: int = 0;
    while m < 0x10_0000_0000_0000 && e > -1074
        invariant
            0 < m < 0x20_0000_0000_0000,
            0 <= ups <= 52,
            m >= two_to(ups as nat),
            e == low - ups,
            -1074 <= low <= 900,
            -1074 <= e,
            encoded(mantissa as nat, exponent as int) == encoded(m as nat, e as int),
        decreases 0x20_0000_0000_0000 - m,
    {
        proof {
            if ups >= 52 {
                assert(two_to(52) == 0x10_0000_0000_0000) by {
                    reveal_with_fuel(two_to, 53);
                }
            }
            ups = ups + 1;
        }
        m = m * 2;
        e = e - 1;
    }
    if m < 0x10_0000_0000_0000 {
        return Binary64 { bits: m as u64 };
    }
    let field: u64 = (e + 1075) as u64;
    let fraction: u64 = m as u64 - 0x10_0000_0000_0000;
    let value = Binary64 { bits: field * 0x10_0000_0000_0000 + fraction };
    assert(value.bits as int / 0x10_0000_0000_0000 == field);
    value
}

/// The mantissa and exponent of `numerator / denominator`, for operands of at
/// most 53 significant bits.
fn divide(numerator: u128, denominator: u128) -> (parts: (u128, i64))
    requires
        0 < numerator <= 0x100_0000_0000_0000_0000,
        0 < denominator <= 0x1_0000_0000_0000_0000,
    ensures
        parts.0 == rounded(scaled_quotient(numerator as nat, denominator as nat)),
        parts.1 == -(doublings(numerator as nat, denominator as nat) + 1),
        parts.0 <= 0x1000_0000_0000_0000_0000_0000,
        -200 <= parts.1 <= 0,
{
    let mut scaled: u128 = numerator;
    let mut count: i64 = 0;
    proof {
        assert(numerator * two_to(0) == numerator) by (nonlinear_arith)
            requires
                two_to(0) == 1,
        ;
    }
    while scaled < 0x40_0000_0000_0000 * denominator
        invariant
            0 < denominator <= 0x1_0000_0000_0000_0000,
            0 < scaled,
            scaled < 0x80_0000_0000_0000 * denominator || scaled <= 0x100_0000_0000_0000_0000,
            0 <= count <= 120,
            scaled == numerator * two_to(count as nat),
            scaled >= two_to(count as nat),
            doublings(numerator as nat, denominator as nat) == count + doublings(
                scaled as nat,
                denominator as nat,
            ),
        decreases 120 - count,
    {
        proof {
            if count >= 120 {
                lemma_two_to_monotone(120, count as nat);
                lemma_large_powers();
            }
            assert(two_to((count + 1) as nat) == 2 * two_to(count as nat));
            assert(2 * (numerator * two_to(count as nat)) == numerator * (2 * two_to(
                count as nat,
            ))) by (nonlinear_arith);
        }
        scaled = scaled * 2;
        count = count + 1;
    }
    assert(scaled / denominator <= scaled) by (nonlinear_arith)
        requires
            denominator > 0,
    ;
    let whole: u128 = scaled / denominator;
    assert(scaled < 0x8000_0000_0000_0000_0000_0000_0000_0000);
    assert(whole <= 0x1_0000_0000_0000_0000_0000) by (nonlinear_arith)
        requires
            whole == scaled / denominator,
            denominator > 0,
            scaled < 0x80_0000_0000_0000 * denominator || scaled <= 0x100_0000_0000_0000_0000,
    ;
    let sticky: u128 = if scaled % denominator == 0 {
        0
    } else {
        1
    };
    proof {
        lemma_rounded_bound((2 * whole + sticky) as nat);
    }
    (round(2 * whole + sticky), -(count + 1))
}

/// `numerator / denominator` as a percentage, unless the denominator is zero.
pub fn percent_of(numerator: u64, denominator: u64) -> (percent: Option<Binary64>)
    ensures
        percent == if denominator > 0 {
            Some(percentage(numerator as nat, denominator as nat))
        } else {
            None
        },
        percent is Some ==> percent->0.finite() && !percent->0.negative(),
{
    if denominator == 0 {
        return None;
    }
    proof {
        lemma_rounded_bound(numerator as nat);
        lemma_rounded_bound(denominator as nat);
    }
    let above: u128 = round(numerator as u128);
    let below: u128 = round(denominator as u128);
    if above == 0 {
        proof {
            assert(two_to(doublings(0, below as nat)) == 1);
            assert(scaled_quotient(0, below as nat) == 0) by {
                assert(0nat * two_to(doublings(0, below as nat)) == 0);
                assert(0nat / (below as nat) == 0 && 0nat % (below as nat) == 0)
                    by (nonlinear_arith)
                    requires
                        below > 0,
                ;
            }
            lemma_rounded_bound(0);
        }
        return Some(Binary64 { bits: 0 });
    }
    let parts = divide(above, below);
    proof {
        lemma_rounded_bound((parts.0 * 100) as nat);
    }
    Some(encode(round(parts.0 * 100), parts.1))
}

/// `hit * 100 / total` in binary64 arithmetic.
pub open spec fn share(hit: nat, total: nat) -> Binary64 {
    let above = rounded(rounded(hit) * 100);
    let below = rounded(total);
    Binary64 {
        bits: encoded(
            rounded(scaled_quotient(above, below)),
            -(doublings(above, below) + 1),
        ),
    }
}

/// `hit * 100 / total`.
pub fn share_of(hit: u64, total: u64) -> (percent: Binary64)
    requires
        total > 0,
    ensures
        percent == share(hit as nat, total as nat),
        percent.finite(),
        !percent.negative(),
{
    proof {
        lemma_rounded_bound(hit as nat);
        lemma_rounded_bound(total as nat);
    }
    let near: u128 = round(hit as u128);
    proof {
        lemma_rounded_bound((near * 100) as nat);
    }
    let above: u128 = round(near * 100);
    let below: u128 = round(total as u128);
    if above == 0 {
        proof {
            lemma_zero_quotient(below as nat);
        }
        return Binary64 { bits: 0 };
    }
    let parts = divide(above, below);
    encode(parts.0, parts.1)
}

pub proof fn lemma_zero_quotient(below: nat)
    requires
        below > 0,
    ensures
        rounded(scaled_quotient(0, below)) == 0,
{
    assert(two_to(doublings(0, below)) == 1);
    assert(0nat * two_to(doublings(0, below)) == 0);
    assert(0nat / below == 0 && 0nat % below == 0) by (nonlinear_arith)
        requires
            below > 0,
    ;
    lemma_rounded_bound(0);
}

impl Binary64 {
    /// Whether the number lies between zero and `bound`.
    pub open spec fn within(self, bound: nat) -> bool {
        if self.mantissa() == 0 {
            true
        } else if self.negative() {
            false
        } else if self.exponent() >= 0 {
            self.mantissa() * two_to(self.exponent() as nat) <= bound
        } else {
            self.mantissa() <= bound * two_to((-self.exponent()) as nat)
        }
    }

    /// A hundred times the number in binary64 arithmetic.
    pub open spec fn hundredfold(self) -> Binary64 {
        if self.mantissa() == 0 {
            self
        } else {
            Binary64 { bits: encoded(rounded(self.mantissa() * 100), self.exponent()) }
        }
    }

    /// Whether the number lies between zero and `bound`.
    pub fn is_within(self, bound: u64) -> (yes: bool)
        requires
            self.finite(),
            bound <= 1000,
        ensures
            yes == self.within(bound as nat),
    {
        let parts = self.parts();
        if parts.0 == 0 {
            return true;
        }
        if self.bits >= 0x8000_0000_0000_0000 {
            return false;
        }
        if parts.1 >= 1074 {
            proof {
                lemma_two_to_positive(self.exponent() as nat);
                assert(self.mantissa() * two_to(self.exponent() as nat) >= self.mantissa())
                    by (nonlinear_arith)
                    requires
                        two_to(self.exponent() as nat) >= 1,
                ;
            }
            return false;
        }
        let down: u64 = 1074 - parts.1;
        if down > 64 {
            proof {
                lemma_two_to_64();
                lemma_two_to_monotone(64, down as nat);
                assert(bound > 0 ==> bound * two_to(down as nat) >= two_to(down as nat))
                    by (nonlinear_arith)
                    requires
                        two_to(down as nat) >= 0,
                ;
                assert(bound == 0 ==> bound * two_to(down as nat) == 0);
            }
            bound > 0
        } else {
            proof {
                lemma_two_to_64();
                lemma_two_to_monotone(down as nat, 64);
                assert(bound * two_to(down as nat) <= 1000 * 0x1_0000_0000_0000_0000)
                    by (nonlinear_arith)
                    requires
                        bound <= 1000,
                        two_to(down as nat) <= 0x1_0000_0000_0000_0000,
                ;
            }
            parts.0 as u128 <= bound as u128 * power(down)
        }
    }

    /// A hundred times a number between zero and one.
    pub fn times_hundred(self) -> (product: Binary64)
        requires
            self.finite(),
            self.within(1),
        ensures
            product == self.hundredfold(),
            product.finite(),
    {
        let parts = self.parts();
        if parts.0 == 0 {
            return self;
        }
        proof {
            if self.exponent() >= 0 {
                lemma_two_to_positive(self.exponent() as nat);
                assert(self.mantissa() * two_to(self.exponent() as nat) >= self.mantissa())
                    by (nonlinear_arith)
                    requires
                        two_to(self.exponent() as nat) >= 1,
                ;
            }
            lemma_rounded_bound((parts.0 * 100) as nat);
        }
        encode(round(parts.0 as u128 * 100), parts.1 as i64 - 1074)
    }
}

impl Binary64 {
    /// Whether the number is at least `bound`.
    pub fn at_least(self, bound: u64) -> (yes: bool)
        requires
            self.finite(),
            bound <= 1000,
        ensures
            yes == self.reaches(bound as nat),
    {
        let parts = self.parts();
        if parts.0 == 0 {
            return bound == 0;
        }
        if self.bits >= 0x8000_0000_0000_0000 {
            return false;
        }
        if parts.1 >= 1074 {
            proof {
                lemma_two_to_positive(self.exponent() as nat);
                assert(self.mantissa() * two_to(self.exponent() as nat) >= self.mantissa())
                    by (nonlinear_arith)
                    requires
                        two_to(self.exponent() as nat) >= 1,
                ;
            }
            return true;
        }
        let down: u64 = 1074 - parts.1;
        if down > 64 {
            proof {
                lemma_two_to_64();
                lemma_two_to_monotone(64, down as nat);
                assert(bound > 0 ==> bound * two_to(down as nat) >= two_to(down as nat))
                    by (nonlinear_arith)
                    requires
                        two_to(down as nat) >= 0,
                ;
                assert(bound == 0 ==> bound * two_to(down as nat) == 0);
            }
            bound == 0
        } else {
            proof {
                lemma_two_to_64();
                lemma_two_to_monotone(down as nat, 64);
                assert(bound * two_to(down as nat) <= 1000 * 0x1_0000_0000_0000_0000)
                    by (nonlinear_arith)
                    requires
                        bound <= 1000,
                        two_to(down as nat) <= 0x1_0000_0000_0000_0000,
                ;
            }
            parts.0 as u128 >= bound as u128 * power(down)
        }
    }

    /// Ten times the number, limited to 0 and 1000, to the nearest integer.
    pub fn permille(self) -> (tenths: u16)
        requires
            self.finite(),
        ensures
            tenths == permille_of(self),
    {
        let parts = self.parts();
        if parts.0 == 0 || self.bits >= 0x8000_0000_0000_0000 {
            return 0;
        }
        if self.at_least(100) {
            return 1000;
        }
        proof {
            if self.exponent() >= 0 {
                lemma_two_to_positive(self.exponent() as nat);
                assert(self.mantissa() * two_to(self.exponent() as nat) >= self.mantissa())
                    by (nonlinear_arith)
                    requires
                        two_to(self.exponent() as nat) >= 1,
                ;
            }
        }
        let down: u64 = 1074 - parts.1;
        let ten: u128 = parts.0 as u128 * 10;
        let product: u128 = round(ten);
        proof {
            lemma_two_to_64();
            lemma_two_to_positive(down as nat);
            lemma_rounded_bound(ten as nat);
        }
        let ghost scale = two_to(down as nat);
        if down > 64 {
            proof {
                lemma_two_to_monotone(64, down as nat);
                assert((2 * product + scale) / (2 * scale as int) == 0) by (nonlinear_arith)
                    requires
                        2 * product < scale,
                        scale > 0,
                ;
            }
            0
        } else {
            let unit: u128 = power(down);
            proof {
                lemma_two_to_monotone(down as nat, 64);
                assert(self.mantissa() < 100 * scale);
                lemma_rounded_keeps_to(self.mantissa() * 10, 1000, down as nat);
                assert((2 * product + scale) / (2 * scale as int) <= 1000) by (nonlinear_arith)
                    requires
                        product <= 1000 * scale,
                        scale > 0,
                ;
            }
            ((2 * product + unit) / (2 * unit)) as u16
        }
    }

    /// The number with one decimal.
    pub fn one_decimal(self) -> (text: String)
        requires
            self.finite(),
        ensures
            text@ == one_decimal_text(self),
    {
        let parts = self.parts();
        let mut text = if self.bits >= 0x8000_0000_0000_0000 {
            "-".to_owned()
        } else {
            String::new()
        };
        if parts.1 >= 1074 {
            let digits = shifted_decimal(parts.0, parts.1 - 1074);
            let ghost whole = self.mantissa() * two_to(self.exponent() as nat);
            text.append(digits.as_str());
            text.append(".");
            text.push(digit(0));
            assert(whole * 10 / 10 == whole && whole * 10 % 10 == 0);
            return text;
        }
        let down: u64 = 1074 - parts.1;
        let tenths: u64 = if down > 64 {
            proof {
                lemma_two_to_64();
                lemma_two_to_monotone(64, down as nat);
                let scale = two_to(down as nat);
                let product = self.mantissa() * 10;
                assert(product / scale == 0 && product % scale == product) by (nonlinear_arith)
                    requires
                        product < scale,
                ;
            }
            0
        } else {
            let unit: u128 = power(down);
            proof {
                let product = (parts.0 * 10) as int;
                assert(product / (unit as int) <= product) by (nonlinear_arith)
                    requires
                        unit > 0,
                        product >= 0,
                ;
            }
            divide_nearest(parts.0 as u128 * 10, unit) as u64
        };
        text.append(decimal(tenths / 10).as_str());
        text.append(".");
        text.push(digit((tenths % 10) as u8));
        text
    }
}

/// Rounding does not pass a bound that has 53 significant bits itself.
pub proof fn lemma_rounded_keeps_to(value: nat, whole: nat, ups: nat)
    requires
        whole <= 0x20_0000_0000_0000,
        value <= whole * two_to(ups),
    ensures
        rounded(value) <= whole * two_to(ups),
{
    let bound = whole * two_to(ups);
    let step = spacing(value);
    lemma_spacing(value);
    lemma_spacing_power(value);
    let wide = choose|wide: nat| step == two_to(wide);
    if value < 0x20_0000_0000_0000 {
        lemma_rounded_bound(value);
    } else if wide <= ups {
        // The spacing divides the bound.
        let part = two_to((ups - wide) as nat);
        lemma_two_to_split(wide, (ups - wide) as nat);
        assert(bound == (whole * part) * step) by (nonlinear_arith)
            requires
                bound == whole * (step * part),
        ;
        lemma_nearest_keeps_to(value, step, whole * part);
        assert(nearest_even(value, step) * step <= (whole * part) * step) by (nonlinear_arith)
            requires
                nearest_even(value, step) <= whole * part,
        ;
    } else {
        // The value is at least the bound, so it is the bound, and a power of two.
        lemma_two_to_monotone((ups + 1) as nat, wide);
        assert(step >= 2 * two_to(ups));
        assert(bound <= 0x20_0000_0000_0000 * two_to(ups)) by (nonlinear_arith)
            requires
                bound == whole * two_to(ups),
                whole <= 0x20_0000_0000_0000,
        ;
        assert(value == 0x10_0000_0000_0000 * step);
        lemma_nearest_keeps_to(value, step, 0x10_0000_0000_0000);
        assert(nearest_even(value, step) * step <= 0x10_0000_0000_0000 * step)
            by (nonlinear_arith)
            requires
                nearest_even(value, step) <= 0x10_0000_0000_0000,
        ;
    }
}

proof fn lemma_nearest_keeps_to(value: nat, step: nat, bound: nat)
    requires
        step > 0,
        value <= bound * step,
    ensures
        nearest_even(value, step) <= bound,
{
    assert(value == (value / step) * step + value % step) by (nonlinear_arith)
        requires
            step > 0,
    ;
    assert(value / step <= bound) by (nonlinear_arith)
        requires
            value <= bound * step,
            step > 0,
    ;
    if value / step == bound {
        assert(value % step == 0);
    }
}

proof fn lemma_nearest_is_monotone(small: nat, large: nat, step: nat)
    requires
        small <= large,
        step > 0,
    ensures
        nearest_even(small, step) <= nearest_even(large, step),
{
    let low = small / step;
    let high = large / step;
    assert(small == low * step + small % step && large == high * step + large % step)
        by (nonlinear_arith)
        requires
            step > 0,
            low == small / step,
            high == large / step,
    ;
    assert(low <= high) by (nonlinear_arith)
        requires
            small <= large,
            step > 0,
            low == small / step,
            high == large / step,
    ;
}

proof fn lemma_spacing_is_monotone(small: nat, large: nat)
    requires
        small <= large,
    ensures
        spacing(small) <= spacing(large),
        spacing(small) < spacing(large) ==> 2 * spacing(small) <= spacing(large),
    decreases large,
{
    lemma_spacing(small);
    lemma_spacing(large);
    if small >= 0x20_0000_0000_0000 {
        lemma_spacing_is_monotone(small / 2, large / 2);
    } else if large >= 0x20_0000_0000_0000 {
        lemma_spacing(large / 2);
    }
}

/// Rounding keeps the order.
proof fn lemma_rounded_is_monotone(small: nat, large: nat)
    requires
        small <= large,
    ensures
        rounded(small) <= rounded(large),
{
    let low = spacing(small);
    let high = spacing(large);
    lemma_spacing(small);
    lemma_spacing(large);
    lemma_spacing_is_monotone(small, large);
    if low == high {
        lemma_nearest_is_monotone(small, large, low);
        assert(nearest_even(small, low) * low <= nearest_even(large, low) * low)
            by (nonlinear_arith)
            requires
                nearest_even(small, low) <= nearest_even(large, low),
        ;
    } else {
        assert(large >= 0x20_0000_0000_0000);
        assert(small <= 0x20_0000_0000_0000 * low);
        lemma_nearest_keeps_to(small, low, 0x20_0000_0000_0000);
        assert(nearest_even(small, low) * low <= 0x20_0000_0000_0000 * low) by (nonlinear_arith)
            requires
                nearest_even(small, low) <= 0x20_0000_0000_0000,
        ;
        assert(large / high >= 0x10_0000_0000_0000) by (nonlinear_arith)
            requires
                large >= 0x10_0000_0000_0000 * high,
                high >= 1,
        ;
        assert(nearest_even(large, high) * high >= 0x10_0000_0000_0000 * high)
            by (nonlinear_arith)
            requires
                nearest_even(large, high) >= 0x10_0000_0000_0000,
        ;
    }
}

/// Doubling stops within 119 steps of 64-bit operands.
pub proof fn lemma_doublings(numerator: nat, denominator: nat)
    requires
        0 < numerator,
        0 < denominator,
    ensures
        doublings(numerator, denominator) > 0 ==> numerator * two_to(
            doublings(numerator, denominator),
        ) < 0x80_0000_0000_0000 * denominator,
    decreases
            (if numerator >= 0x40_0000_0000_0000 * denominator {
                0
            } else {
                0x40_0000_0000_0000 * denominator - numerator
            }),
{
    if numerator < 0x40_0000_0000_0000 * denominator {
        lemma_doublings(2 * numerator, denominator);
        let more = doublings(2 * numerator, denominator);
        assert(numerator * (2 * two_to(more)) == (2 * numerator) * two_to(more))
            by (nonlinear_arith);
        if more == 0 {
            assert((2 * numerator) * two_to(more) == 2 * numerator) by (nonlinear_arith)
                requires
                    two_to(more) == 1,
            ;
        }
    }
}

/// A quotient of at most one keeps to one after rounding.
proof fn lemma_quotient_keeps_to_one(numerator: nat, denominator: nat)
    requires
        0 < numerator <= denominator,
    ensures
        scaled_quotient(numerator, denominator) <= two_to(
            (doublings(numerator, denominator) + 1) as nat,
        ),
        rounded(scaled_quotient(numerator, denominator)) <= two_to(
            (doublings(numerator, denominator) + 1) as nat,
        ),
{
    let count = doublings(numerator, denominator);
    let unit = two_to(count);
    let scaled = numerator * unit;
    let quotient = scaled / denominator;
    assert(scaled <= unit * denominator) by (nonlinear_arith)
        requires
            scaled == numerator * unit,
            numerator <= denominator,
    ;
    assert(scaled == quotient * denominator + scaled % denominator) by (nonlinear_arith)
        requires
            denominator > 0,
            quotient == scaled / denominator,
    ;
    assert(quotient <= unit) by (nonlinear_arith)
        requires
            scaled <= unit * denominator,
            denominator > 0,
            quotient == scaled / denominator,
    ;
    if quotient == unit {
        assert(scaled % denominator == 0);
    }
    assert(two_to((count + 1) as nat) == 2 * unit);
    assert(1 * two_to((count + 1) as nat) == two_to((count + 1) as nat));
    lemma_rounded_keeps_to(scaled_quotient(numerator, denominator), 1, (count + 1) as nat);
}

/// Encoding a number of at most `bound` gives a number of at most `bound`.
pub proof fn lemma_encoded_keeps_to(mantissa: nat, exponent: int, bound: nat)
    requires
        -1074 <= exponent < 0,
        bound <= 100,
        mantissa <= bound * two_to((-exponent) as nat),
    ensures
        (Binary64 { bits: encoded(mantissa, exponent) }).finite(),
        (Binary64 { bits: encoded(mantissa, exponent) }).within(bound),
    decreases
            (if mantissa >= 0x20_0000_0000_0000 {
                mantissa as int
            } else {
                0x20_0000_0000_0000 - mantissa
            }),
{
    let down = (-exponent) as nat;
    assert(two_to(down) == 2 * two_to((down - 1) as nat));
    let half = two_to((down - 1) as nat);
    assert(bound * (2 * half) == 2 * (bound * half)) by (nonlinear_arith);
    if mantissa == 0 {
    } else if mantissa >= 0x20_0000_0000_0000 {
        if exponent == -1 {
            assert(half == 1);
            assert(bound * half == bound) by (nonlinear_arith)
                requires
                    half == 1,
            ;
        }
        lemma_encoded_keeps_to(mantissa / 2, exponent + 1, bound);
    } else if mantissa < 0x10_0000_0000_0000 && exponent > -1074 {
        assert(two_to((down + 1) as nat) == 2 * two_to(down));
        assert(bound * (2 * two_to(down)) == 2 * (bound * two_to(down))) by (nonlinear_arith);
        lemma_encoded_keeps_to(2 * mantissa, exponent - 1, bound);
    } else if mantissa < 0x10_0000_0000_0000 {
        let number = Binary64 { bits: encoded(mantissa, exponent) };
        assert(number.bits == mantissa);
        assert(number.mantissa() == mantissa && number.exponent() == exponent);
    } else {
        let number = Binary64 { bits: encoded(mantissa, exponent) };
        assert(number.bits == (exponent + 1075) * 0x10_0000_0000_0000 + (mantissa
            - 0x10_0000_0000_0000));
        assert(number.exponent_field() == exponent + 1075);
        assert(number.mantissa() == mantissa && number.exponent() == exponent);
    }
}

/// The percentage of a part in its whole is a number from 0 to 100.
pub proof fn law_percentages_keep_to_the_whole(part: nat, whole: nat)
    requires
        part <= whole,
        0 < whole <= u64::MAX,
    ensures
        percentage(part, whole).finite(),
        percentage(part, whole).within(100),
{
    let above = rounded(part);
    let below = rounded(whole);
    lemma_rounded_bound(part);
    lemma_rounded_bound(whole);
    lemma_rounded_is_monotone(part, whole);
    let count = doublings(above, below);
    if above == 0 {
        lemma_zero_quotient(below);
        lemma_rounded_bound(0);
    } else {
        lemma_quotient_keeps_to_one(above, below);
        lemma_doublings(above, below);
        let unit = two_to((count + 1) as nat);
        let mantissa = quotient_mantissa(part, whole);
        assert(mantissa * 100 <= 100 * unit);
        lemma_rounded_keeps_to(mantissa * 100, 100, (count + 1) as nat);
        assert(count < 200) by {
            if count >= 200 {
                lemma_large_powers();
                lemma_two_to_monotone(200, count);
                assert(above * two_to(count) >= two_to(count)) by (nonlinear_arith)
                    requires
                        above >= 1,
                ;
            }
        }
        lemma_encoded_keeps_to(rounded(mantissa * 100), -(count + 1), 100);
    }
}

pub proof fn lemma_spacing_power(value: nat)
    ensures
        exists|ups: nat| spacing(value) == two_to(ups),
    decreases value,
{
    if value < 0x20_0000_0000_0000 {
        assert(spacing(value) == two_to(0));
    } else {
        lemma_spacing_power(value / 2);
        let ups = choose|ups: nat| spacing(value / 2) == two_to(ups);
        assert(spacing(value) == two_to((ups + 1) as nat));
    }
}

pub proof fn lemma_two_to_split(first: nat, second: nat)
    ensures
        two_to((first + second) as nat) == two_to(first) * two_to(second),
    decreases second,
{
    if second == 0 {
        assert(two_to(first) * 1 == two_to(first));
    } else {
        lemma_two_to_split(first, (second - 1) as nat);
        assert(two_to(first) * (2 * two_to((second - 1) as nat)) == 2 * (two_to(first) * two_to(
            (second - 1) as nat,
        ))) by (nonlinear_arith);
        assert((first + second - 1) as nat == first + (second - 1) as nat);
    }
}

/// The number with one decimal, as text.
pub open spec fn one_decimal_text(value: Binary64) -> Seq<char> {
    let sign = if value.negative() {
        "-"@
    } else {
        Seq::empty()
    };
    (sign + strings::decimal_text(value.tenths() / 10) + "."@).push(
        strings::digit_char(value.tenths() % 10),
    )
}

/// The value of decimal digits, the least significant first.
spec fn digits_value(digits: Seq<u8>) -> nat
    decreases digits.len(),
{
    if digits.len() == 0 {
        0
    } else {
        digits[0] as nat + 10 * digits_value(digits.drop_first())
    }
}

/// Digits below ten, the most significant one not zero unless it stands alone.
spec fn proper_digits(digits: Seq<u8>) -> bool {
    &&& digits.len() > 0
    &&& forall|i: int| 0 <= i < digits.len() ==> digits[i] < 10
    &&& (digits.len() > 1 ==> digits.last() > 0)
}

spec fn digits_text(digits: Seq<u8>) -> Seq<char>
    decreases digits.len(),
{
    if digits.len() == 0 {
        Seq::empty()
    } else {
        digits_text(digits.drop_first()).push(strings::digit_char(digits[0] as nat))
    }
}

proof fn lemma_digits_text(digits: Seq<u8>)
    requires
        proper_digits(digits),
    ensures
        digits_text(digits) == strings::decimal_text(digits_value(digits)),
        digits.len() > 1 ==> digits_value(digits) >= 10,
    decreases digits.len(),
{
    let rest = digits.drop_first();
    if digits.len() == 1 {
        assert(rest.len() == 0);
        assert(digits_text(rest) =~= Seq::empty());
        assert(digits_text(digits) =~= strings::decimal_text(digits_value(digits)));
    } else {
        assert(rest.last() == digits.last());
        assert(proper_digits(rest)) by {
            assert forall|i: int| 0 <= i < rest.len() implies rest[i] < 10 by {
                assert(rest[i] == digits[i + 1]);
            }
        }
        lemma_digits_text(rest);
        if rest.len() == 1 {
            assert(digits_value(rest) == rest[0] as nat + 10 * digits_value(rest.drop_first()));
            assert(rest.drop_first().len() == 0);
        }
        let value = digits_value(digits);
        assert(value / 10 == digits_value(rest) && value % 10 == digits[0] as nat);
    }
}

proof fn lemma_digits_push(digits: Seq<u8>, last: u8)
    ensures
        digits_value(digits.push(last)) == digits_value(digits) + last * ten_to(digits.len()),
    decreases digits.len(),
{
    if digits.len() == 0 {
        assert(digits.push(last).drop_first() =~= Seq::empty());
        assert(digits_value(digits.push(last).drop_first()) == 0);
        assert(last * ten_to(0) == last) by (nonlinear_arith)
            requires
                ten_to(0) == 1,
        ;
    } else {
        assert(digits.push(last).drop_first() =~= digits.drop_first().push(last));
        lemma_digits_push(digits.drop_first(), last);
        let rest = ten_to((digits.len() - 1) as nat);
        assert(10 * (last * rest) == last * (10 * rest)) by (nonlinear_arith);
    }
}

spec fn ten_to(exponent: nat) -> nat
    decreases exponent,
{
    if exponent == 0 {
        1
    } else {
        10 * ten_to((exponent - 1) as nat)
    }
}

/// Twice the value of `digits`.
fn double_digits(digits: &Vec<u8>) -> (twice: Vec<u8>)
    requires
        proper_digits(digits@),
        digits@.len() < 5000,
    ensures
        proper_digits(twice@),
        digits_value(twice@) == 2 * digits_value(digits@),
        twice@.len() <= digits@.len() + 1,
{
    let mut twice: Vec<u8> = Vec::new();
    let mut carry: u8 = 0;
    let mut i: usize = 0;
    assert(digits@.take(0) =~= Seq::empty());
    assert(digits_value(digits@.take(0)) == 0);
    assert(digits_value(twice@) == 0);
    while i < digits.len()
        invariant
            i <= digits@.len() < 5000,
            proper_digits(digits@),
            twice@.len() == i,
            carry <= 1,
            forall|j: int| 0 <= j < i ==> twice@[j] < 10,
            i > 0 ==> (twice@[i - 1] > 0 || carry > 0 || digits@[i - 1] == 0),
            digits_value(twice@) + carry * ten_to(i as nat) == 2 * digits_value(
                digits@.take(i as int),
            ),
        decreases digits@.len() - i,
    {
        let sum: u8 = 2 * digits[i] + carry;
        let low: u8 = sum % 10;
        let high: u8 = sum / 10;
        proof {
            lemma_digits_push(twice@, low);
            lemma_digits_push(digits@.take(i as int), digits@[i as int]);
            assert(digits@.take(i as int).push(digits@[i as int]) =~= digits@.take(i + 1));
            let unit = ten_to(i as nat);
            assert(ten_to((i + 1) as nat) == 10 * unit);
            assert(low * unit + high * (10 * unit) == carry * unit + 2 * (digits@[i as int] * unit))
                by (nonlinear_arith)
                requires
                    low + 10 * high == 2 * digits@[i as int] + carry,
            ;
        }
        twice.push(low);
        carry = high;
        i = i + 1;
    }
    assert(digits@.take(i as int) =~= digits@);
    if carry > 0 {
        proof {
            lemma_digits_push(twice@, carry);
        }
        twice.push(carry);
    } else {
        assert(carry * ten_to(i as nat) == 0) by (nonlinear_arith)
            requires
                carry == 0,
        ;
    }
    twice
}

/// `mantissa * 2^shift` in decimal.
fn shifted_decimal(mantissa: u64, shift: u64) -> (text: String)
    requires
        mantissa > 0,
        shift <= 1000,
    ensures
        text@ == strings::decimal_text((mantissa * two_to(shift as nat)) as nat),
{
    let mut digits: Vec<u8> = Vec::new();
    let mut rest: u64 = mantissa;
    let ghost mut unit: nat = 1;
    assert(digits_value(digits@) == 0);
    while rest > 0
        invariant
            mantissa == digits_value(digits@) + rest * unit,
            unit == ten_to(digits@.len()),
            forall|j: int| 0 <= j < digits@.len() ==> digits@[j] < 10,
            rest == 0 ==> digits@.len() > 0 && digits@.last() > 0,
            mantissa > 0,
            digits@.len() <= 20,
            rest * unit <= mantissa,
        decreases rest,
    {
        proof {
            lemma_digits_push(digits@, (rest % 10) as u8);
            let quotient = rest / 10;
            let remainder = rest % 10;
            assert(rest * unit == remainder * unit + quotient * (10 * unit)) by (nonlinear_arith)
                requires
                    rest == 10 * quotient + remainder,
            ;
            assert(quotient * (10 * unit) <= rest * unit) by (nonlinear_arith)
                requires
                    10 * quotient <= rest,
                    unit >= 0,
            ;
            assert(unit <= rest * unit) by (nonlinear_arith)
                requires
                    rest >= 1,
                    unit >= 0,
            ;
            if digits@.len() >= 20 {
                assert(ten_to(20) == 100_000_000_000_000_000_000) by {
                    reveal_with_fuel(ten_to, 21);
                }
            }
            unit = 10 * unit;
        }
        digits.push((rest % 10) as u8);
        rest = rest / 10;
    }
    assert(0 * unit == 0);
    let mut done: u64 = 0;
    assert(mantissa * two_to(0) == mantissa) by (nonlinear_arith)
        requires
            two_to(0) == 1,
    ;
    while done < shift
        invariant
            done <= shift <= 1000,
            proper_digits(digits@),
            digits@.len() <= 20 + done,
            digits_value(digits@) == mantissa * two_to(done as nat),
        decreases shift - done,
    {
        proof {
            assert(two_to((done + 1) as nat) == 2 * two_to(done as nat));
            assert(2 * (mantissa * two_to(done as nat)) == mantissa * (2 * two_to(done as nat)))
                by (nonlinear_arith);
        }
        digits = double_digits(&digits);
        done = done + 1;
    }
    let mut text = String::new();
    let mut i: usize = digits.len();
    assert(digits@.skip(i as int) =~= Seq::empty());
    assert(text@ =~= digits_text(digits@.skip(i as int)));
    while i > 0
        invariant
            i <= digits@.len(),
            proper_digits(digits@),
            text@ == digits_text(digits@.skip(i as int)),
        decreases i,
    {
        i = i - 1;
        text.push(digit(digits[i]));
        assert(digits@.skip(i as int).drop_first() =~= digits@.skip(i + 1));
    }
    proof {
        assert(digits@.skip(0) =~= digits@);
        lemma_digits_text(digits@);
    }
    text
}

} // verus!
