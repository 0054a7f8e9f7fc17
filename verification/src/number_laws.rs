//! What the arithmetic of percentages promises: how far a result may be from the share that
//! it tells.
use vstd::prelude::*;
use crate::binary64;
use crate::binary64::Binary64;
use crate::collect::coverage;

verus! {

/// Rounding to an integer takes the nearest, and of two that are as near the even one.
pub proof fn law_the_nearest_is_taken(numerator: nat, denominator: nat)
    requires
        denominator > 0,
    ensures
        ({
            let near = binary64::nearest_even(numerator, denominator);
            &&& 2 * (near * denominator) <= 2 * numerator + denominator
            &&& 2 * numerator <= 2 * (near * denominator) + denominator
            &&& 2 * (near * denominator) == 2 * numerator + denominator || 2 * numerator == 2 * (
            near * denominator) + denominator ==> near % 2 == 0
            &&& near * denominator == numerator || numerator % denominator != 0
        }),
{
    let q = numerator / denominator;
    let r = numerator % denominator;
    let near = binary64::nearest_even(numerator, denominator);
    vstd::arithmetic::div_mod::lemma_fundamental_div_mod(numerator as int, denominator as int);
    let product = near * denominator;
    assert(denominator * q == q * denominator) by (nonlinear_arith);
    if near == q {
        assert(product == q * denominator);
    } else {
        assert(product == q * denominator + denominator) by (nonlinear_arith)
            requires
                product == near * denominator,
                near == q + 1,
        ;
    }
}

/// A number rounded to 53 bits is off by no more than its part in 2^53, and not at all
/// where it has no more bits.
pub proof fn law_rounding_is_off_by_little(value: nat)
    ensures
        ({
            let near = binary64::rounded(value);
            &&& value < 0x20_0000_0000_0000 ==> near == value
            &&& near <= value ==> (value - near) * 0x20_0000_0000_0000 <= value
            &&& near >= value ==> (near - value) * 0x20_0000_0000_0000 <= value
        }),
{
    binary64::lemma_rounded_bound(value);
    if value >= 0x20_0000_0000_0000 {
        let step = binary64::spacing(value);
        binary64::lemma_spacing(value);
        law_the_nearest_is_taken(value, step);
    }
}

/// The magnitude of a number, as so many parts of 2^-1100.
pub open spec fn parts_of(number: Binary64) -> nat {
    number.mantissa() * binary64::two_to((number.exponent() + 1100) as nat)
}

/// The number has no more than 53 significant bits.
pub open spec fn short(value: nat) -> bool {
    value % binary64::spacing(value) == 0
}

proof fn lemma_spacing_of_product(value: nat, ups: nat)
    requires
        0x10_0000_0000_0000 <= value < 0x20_0000_0000_0000,
    ensures
        binary64::spacing(value * binary64::two_to(ups)) == binary64::two_to(ups),
    decreases ups,
{
    if ups == 0 {
        assert(value * 1 == value);
    } else {
        let less = binary64::two_to((ups - 1) as nat);
        lemma_spacing_of_product(value, (ups - 1) as nat);
        binary64::lemma_two_to_positive((ups - 1) as nat);
        assert(value * (2 * less) == 2 * (value * less)) by (nonlinear_arith);
        assert(value * less >= value) by (nonlinear_arith)
            requires
                less >= 1,
        ;
    }
}

/// A rounded number has no more than 53 significant bits.
proof fn lemma_rounded_is_short(value: nat)
    ensures
        short(binary64::rounded(value)),
{
    binary64::lemma_rounded_bound(value);
    if value < 0x20_0000_0000_0000 {
        assert(value % 1 == 0);
    } else {
        let step = binary64::spacing(value);
        binary64::lemma_spacing(value);
        binary64::lemma_spacing_power(value);
        let ups = choose|ups: nat| step == binary64::two_to(ups);
        let near = binary64::nearest_even(value, step);
        let q = value / step;
        assert(0x10_0000_0000_0000 <= q < 0x20_0000_0000_0000) by (nonlinear_arith)
            requires
                q == value / step,
                0x10_0000_0000_0000 * step <= value < 0x20_0000_0000_0000 * step,
                step >= 1,
        ;
        if near < 0x20_0000_0000_0000 {
            lemma_spacing_of_product(near, ups);
            vstd::arithmetic::div_mod::lemma_mod_multiples_basic(near as int, step as int);
        } else {
            assert(near == 0x20_0000_0000_0000);
            let twice = binary64::two_to((ups + 1) as nat);
            assert(twice == 2 * step);
            lemma_spacing_of_product(0x10_0000_0000_0000, (ups + 1) as nat);
            assert(near * step == 0x10_0000_0000_0000 * twice);
            vstd::arithmetic::div_mod::lemma_mod_multiples_basic(
                0x10_0000_0000_0000,
                twice as int,
            );
        }
    }
}

/// A number of 53 bits lies below a power of two that is no smaller than 2^52.
proof fn lemma_bits_reach(mantissa: nat, top: nat)
    requires
        0x10_0000_0000_0000 <= mantissa < binary64::two_to(top),
    ensures
        top >= 52,
{
    if top < 52 {
        binary64::lemma_two_to_monotone(top, 52);
        assert(binary64::two_to(52) == 0x10_0000_0000_0000) by {
            reveal_with_fuel(binary64::two_to, 53);
        }
    }
}

/// A number that is put together from a mantissa of 53 bits and an exponent has their value.
#[verifier::spinoff_prover]
#[verifier::rlimit(40)]
proof fn lemma_encoded_value(mantissa: nat, exponent: int, top: nat)
    requires
        short(mantissa),
        -1074 <= exponent,
        mantissa < binary64::two_to(top),
        exponent + top <= 900,
    ensures
        ({
            let number = Binary64 { bits: binary64::encoded(mantissa, exponent) };
            &&& number.finite()
            &&& !number.negative()
            &&& parts_of(number) == mantissa * binary64::two_to((exponent + 1100) as nat)
        }),
    decreases
            (if mantissa >= 0x20_0000_0000_0000 {
                mantissa as int
            } else {
                0x20_0000_0000_0000 - mantissa
            }),
{
    let number = Binary64 { bits: binary64::encoded(mantissa, exponent) };
    let unit = binary64::two_to((exponent + 1100) as nat);
    if mantissa == 0 {
        assert(0 * unit == 0);
        assert(number.mantissa() == 0);
        assert(0 * binary64::two_to((number.exponent() + 1100) as nat) == 0);
    } else if mantissa >= 0x20_0000_0000_0000 {
        let step = binary64::spacing(mantissa / 2);
        binary64::lemma_spacing(mantissa / 2);
        assert(binary64::spacing(mantissa) == 2 * step);
        let q = mantissa / (2 * step);
        vstd::arithmetic::div_mod::lemma_fundamental_div_mod(mantissa as int, (2 * step) as int);
        assert((2 * step) * q == 2 * (step * q)) by (nonlinear_arith);
        assert(mantissa / 2 == step * q);
        assert((mantissa / 2) % step == 0) by {
            vstd::arithmetic::div_mod::lemma_mod_multiples_basic(q as int, step as int);
            assert(q * step == step * q) by (nonlinear_arith);
        }
        if top == 0 {
            assert(binary64::two_to(top) == 1);
        }
        lemma_encoded_value(mantissa / 2, exponent + 1, (top - 1) as nat);
        let half = mantissa / 2;
        assert(mantissa == 2 * half);
        assert(binary64::two_to((exponent + 1 + 1100) as nat) == 2 * unit);
        assert(half * (2 * unit) == (2 * half) * unit) by (nonlinear_arith);
    } else if mantissa < 0x10_0000_0000_0000 && exponent > -1074 {
        assert((2 * mantissa) % 1 == 0);
        assert(binary64::two_to((top + 1) as nat) == 2 * binary64::two_to(top));
        lemma_encoded_value(2 * mantissa, exponent - 1, (top + 1) as nat);
        let less = binary64::two_to((exponent - 1 + 1100) as nat);
        assert(unit == 2 * less);
        assert((2 * mantissa) * less == mantissa * (2 * less)) by (nonlinear_arith);
    } else if mantissa < 0x10_0000_0000_0000 {
        assert(number.bits == mantissa);
        assert(number.mantissa() == mantissa && number.exponent() == exponent);
    } else {
        lemma_bits_reach(mantissa, top);
        assert(number.bits == (exponent + 1075) * 0x10_0000_0000_0000 + (mantissa
            - 0x10_0000_0000_0000));
        assert(number.exponent_field() == exponent + 1075);
        assert(number.mantissa() == mantissa && number.exponent() == exponent);
    }
}

/// How often a numerator is doubled.
proof fn lemma_doublings_reach(numerator: nat, denominator: nat, steps: nat)
    requires
        numerator > 0,
        denominator > 0,
        numerator * binary64::two_to(steps) >= 0x40_0000_0000_0000 * denominator,
    ensures
        binary64::doublings(numerator, denominator) <= steps,
        numerator * binary64::two_to(binary64::doublings(numerator, denominator))
            >= 0x40_0000_0000_0000 * denominator,
    decreases steps,
{
    if numerator >= 0x40_0000_0000_0000 * denominator {
        assert(numerator * 1 == numerator);
    } else {
        if steps == 0 {
            assert(numerator * 1 == numerator);
        }
        let less = binary64::two_to((steps - 1) as nat);
        assert(numerator * (2 * less) == (2 * numerator) * less) by (nonlinear_arith);
        lemma_doublings_reach(2 * numerator, denominator, (steps - 1) as nat);
        let more = binary64::doublings(2 * numerator, denominator);
        assert((2 * numerator) * binary64::two_to(more) == numerator * (2 * binary64::two_to(more)))
            by (nonlinear_arith);
    }
}

proof fn lemma_powers()
    ensures
        binary64::two_to(54) == 0x40_0000_0000_0000,
        binary64::two_to(53) == 0x20_0000_0000_0000,
        binary64::two_to(60) == 0x1000_0000_0000_0000,
        binary64::two_to(107) == 0x40_0000_0000_0000 * 0x20_0000_0000_0000,
{
    reveal_with_fuel(binary64::two_to, 61);
    binary64::lemma_two_to_split(54, 53);
}

/// A quotient with two bits more than are kept: off by less than one part in its last bit.
proof fn lemma_scaled_quotient(numerator: nat, denominator: nat)
    requires
        0 < numerator < 0x20_0000_0000_0000,
        0 < denominator < 0x20_0000_0000_0000,
    ensures
        ({
            let count = binary64::doublings(numerator, denominator);
            let twice = 2 * (numerator * binary64::two_to(count));
            let quotient = binary64::scaled_quotient(numerator, denominator);
            &&& count <= 107
            &&& twice >= 0x80_0000_0000_0000 * denominator
            &&& quotient * denominator <= twice + denominator
            &&& twice <= quotient * denominator + denominator
            &&& quotient < 0x400_0000_0000_0000
        }),
{
    lemma_powers();
    assert(numerator * binary64::two_to(107) >= 0x40_0000_0000_0000 * denominator)
        by (nonlinear_arith)
        requires
            binary64::two_to(107) == 0x40_0000_0000_0000 * 0x20_0000_0000_0000,
            numerator >= 1,
            denominator < 0x20_0000_0000_0000,
    ;
    lemma_doublings_reach(numerator, denominator, 107);
    let count = binary64::doublings(numerator, denominator);
    let scaled = numerator * binary64::two_to(count);
    let q = scaled / denominator;
    let r = scaled % denominator;
    vstd::arithmetic::div_mod::lemma_fundamental_div_mod(scaled as int, denominator as int);
    let quotient = binary64::scaled_quotient(numerator, denominator);
    binary64::lemma_doublings(numerator, denominator);
    if count == 0 {
        assert(scaled == numerator);
    }
    assert(q < 0x80_0000_0000_0000) by (nonlinear_arith)
        requires
            q == scaled / denominator,
            scaled < 0x80_0000_0000_0000 * denominator,
            denominator > 0,
    ;
    let product = denominator * q;
    if r == 0 {
        assert(quotient * denominator == 2 * product) by (nonlinear_arith)
            requires
                quotient == 2 * q,
                product == denominator * q,
        ;
    } else {
        assert(quotient * denominator == 2 * product + denominator) by (nonlinear_arith)
            requires
                quotient == 2 * q + 1,
                product == denominator * q,
        ;
    }
}

/// A share of two numbers that have 53 bits is told as a percentage that is off by no more
/// than its part in 2^50.
#[verifier::spinoff_prover]
#[verifier::rlimit(40)]
pub proof fn law_percentages_are_close_to_the_share(part: nat, whole: nat)
    requires
        part < 0x20_0000_0000_0000,
        0 < whole < 0x20_0000_0000_0000,
    ensures
        ({
            let told = parts_of(binary64::percentage(part, whole)) * whole;
            let exact = 100 * part * binary64::two_to(1100);
            &&& told <= exact ==> (exact - told) * 0x4_0000_0000_0000 <= exact
            &&& told >= exact ==> (told - exact) * 0x4_0000_0000_0000 <= exact
        }),
        part <= whole ==> !binary64::percentage(part, whole).negative(),
{
    law_rounding_is_off_by_little(part);
    law_rounding_is_off_by_little(whole);
    let one = binary64::two_to(1100);
    if part == 0 {
        binary64::lemma_zero_quotient(whole);
        law_rounding_is_off_by_little(0);
        let number = binary64::percentage(part, whole);
        assert(binary64::quotient_mantissa(part, whole) == 0);
        assert(number.bits == 0);
        assert(number.mantissa() == 0);
        assert(0 * binary64::two_to((number.exponent() + 1100) as nat) == 0);
        assert(0 * whole == 0);
        assert(100 * 0 * one == 0);
    } else {
        let count = binary64::doublings(part, whole);
        let quotient = binary64::scaled_quotient(part, whole);
        lemma_scaled_quotient(part, whole);
        let near = binary64::rounded(quotient);
        law_rounding_is_off_by_little(quotient);
        let hundred = binary64::rounded(near * 100);
        law_rounding_is_off_by_little(near * 100);
        lemma_rounded_is_short(near * 100);
        lemma_powers();
        let exponent = -(count + 1);
        assert(binary64::two_to(67) == 0x1000_0000_0000_0000 * 0x80) by {
            binary64::lemma_two_to_split(60, 7);
            reveal_with_fuel(binary64::two_to, 8);
        }
        lemma_encoded_value(hundred, exponent, 67);
        let unit = binary64::two_to((exponent + 1100) as nat);
        let twice = 2 * (part * binary64::two_to(count));
        lemma_off_by_little(quotient, near, hundred, whole, twice);
        binary64::lemma_two_to_split((count + 1) as nat, (exponent + 1100) as nat);
        assert(binary64::two_to((count + 1) as nat) == 2 * binary64::two_to(count));
        assert(twice * unit == part * one) by (nonlinear_arith)
            requires
                twice == 2 * (part * binary64::two_to(count)),
                one == (2 * binary64::two_to(count)) * unit,
        ;
        lemma_scale(hundred, whole, twice, unit, part, one);
    }
}

proof fn lemma_off_by_little(quotient: nat, near: nat, hundred: nat, whole: nat, twice: nat)
    requires
        whole > 0,
        twice >= 0x80_0000_0000_0000 * whole,
        quotient * whole <= twice + whole,
        twice <= quotient * whole + whole,
        near <= quotient ==> (quotient - near) * 0x20_0000_0000_0000 <= quotient,
        near >= quotient ==> (near - quotient) * 0x20_0000_0000_0000 <= quotient,
        hundred <= near * 100 ==> (near * 100 - hundred) * 0x20_0000_0000_0000 <= near * 100,
        hundred >= near * 100 ==> (hundred - near * 100) * 0x20_0000_0000_0000 <= near * 100,
    ensures
        ({
            let told = hundred * whole;
            let exact = 100 * twice;
            &&& told <= exact ==> (exact - told) * 0x4_0000_0000_0000 <= exact
            &&& told >= exact ==> (told - exact) * 0x4_0000_0000_0000 <= exact
        }),
{
    let first = quotient * whole;
    let second = near * whole;
    let third = hundred * whole;
    assert((second <= first ==> (first - second) * 0x20_0000_0000_0000 <= first) && (second
        >= first ==> (second - first) * 0x20_0000_0000_0000 <= first) && (near <= quotient
        <==> second <= first)) by (nonlinear_arith)
        requires
            first == quotient * whole,
            second == near * whole,
            whole > 0,
            near <= quotient ==> (quotient - near) * 0x20_0000_0000_0000 <= quotient,
            near >= quotient ==> (near - quotient) * 0x20_0000_0000_0000 <= quotient,
    ;
    assert((third <= 100 * second ==> (100 * second - third) * 0x20_0000_0000_0000 <= 100 * second)
        && (third >= 100 * second ==> (third - 100 * second) * 0x20_0000_0000_0000 <= 100
        * second)) by (nonlinear_arith)
        requires
            third == hundred * whole,
            second == near * whole,
            whole > 0,
            hundred <= near * 100 ==> (near * 100 - hundred) * 0x20_0000_0000_0000 <= near * 100,
            hundred >= near * 100 ==> (hundred - near * 100) * 0x20_0000_0000_0000 <= near * 100,
    ;
}

proof fn lemma_scale(hundred: nat, whole: nat, twice: nat, unit: nat, part: nat, one: nat)
    requires
        twice * unit == part * one,
        ({
            let told = hundred * whole;
            let exact = 100 * twice;
            &&& told <= exact ==> (exact - told) * 0x4_0000_0000_0000 <= exact
            &&& told >= exact ==> (told - exact) * 0x4_0000_0000_0000 <= exact
        }),
    ensures
        ({
            let told = (hundred * unit) * whole;
            let exact = 100 * part * one;
            &&& told <= exact ==> (exact - told) * 0x4_0000_0000_0000 <= exact
            &&& told >= exact ==> (told - exact) * 0x4_0000_0000_0000 <= exact
        }),
{
    let small = hundred * whole;
    let large = 100 * twice;
    let told = (hundred * unit) * whole;
    let exact = 100 * part * one;
    assert(told == small * unit) by (nonlinear_arith)
        requires
            small == hundred * whole,
            told == (hundred * unit) * whole,
    ;
    assert(exact == large * unit) by (nonlinear_arith)
        requires
            large == 100 * twice,
            exact == 100 * part * one,
            twice * unit == part * one,
    ;
    if small <= large {
        let gap = (large - small) as nat;
        assert(exact - told == gap * unit) by (nonlinear_arith)
            requires
                gap == large - small,
                told == small * unit,
                exact == large * unit,
        ;
        assert(gap * unit * 0x4_0000_0000_0000 <= large * unit) by (nonlinear_arith)
            requires
                gap * 0x4_0000_0000_0000 <= large,
        ;
        assert(gap * unit >= 0) by (nonlinear_arith);
    } else {
        let gap = (small - large) as nat;
        assert(told - exact == gap * unit) by (nonlinear_arith)
            requires
                gap == small - large,
                told == small * unit,
                exact == large * unit,
        ;
        assert(gap * unit * 0x4_0000_0000_0000 <= large * unit) by (nonlinear_arith)
            requires
                gap * 0x4_0000_0000_0000 <= large,
        ;
        assert(gap * unit >= 0) by (nonlinear_arith);
    }
}

/// The share of a report's hits in its total is known wherever the hits are no more than
/// the total, and told as a percentage that is off by no more than its part in 2^50.
#[verifier::spinoff_prover]
#[verifier::rlimit(40)]
pub proof fn law_shares_are_close_to_the_hits(hit: nat, total: nat)
    requires
        hit <= total,
        0 < total <= 90_071_992_547_409,
    ensures
        coverage::ratio_of(hit as u64, total as u64) == Some(binary64::share(hit, total)),
        ({
            let told = parts_of(binary64::share(hit, total)) * total;
            let exact = 100 * hit * binary64::two_to(1100);
            &&& told <= exact ==> (exact - told) * 0x4_0000_0000_0000 <= exact
            &&& told >= exact ==> (told - exact) * 0x4_0000_0000_0000 <= exact
        }),
{
    law_rounding_is_off_by_little(hit);
    law_rounding_is_off_by_little(total);
    law_rounding_is_off_by_little(hit * 100);
    let one = binary64::two_to(1100);
    let number = binary64::share(hit, total);
    let above = hit * 100;
    if hit == 0 {
        binary64::lemma_zero_quotient(total);
        law_rounding_is_off_by_little(0);
        assert(number.bits == 0);
        assert(number.mantissa() == 0);
        assert(0 * binary64::two_to((number.exponent() + 1100) as nat) == 0);
        assert(0 * total == 0);
        assert(100 * hit * one == 0) by (nonlinear_arith)
            requires
                hit == 0,
        ;
        assert(number.finite() && number.within(100));
    } else {
        let count = binary64::doublings(above, total);
        let quotient = binary64::scaled_quotient(above, total);
        lemma_scaled_quotient(above, total);
        let near = binary64::rounded(quotient);
        law_rounding_is_off_by_little(quotient);
        lemma_rounded_is_short(quotient);
        lemma_powers();
        let exponent = -(count + 1);
        lemma_encoded_value(near, exponent, 60);
        let unit = binary64::two_to((exponent + 1100) as nat);
        let twice = 2 * (above * binary64::two_to(count));
        lemma_share_off_by_little(quotient, near, total, twice);
        binary64::lemma_two_to_split((count + 1) as nat, (exponent + 1100) as nat);
        assert(binary64::two_to((count + 1) as nat) == 2 * binary64::two_to(count));
        assert(twice * unit == above * one) by (nonlinear_arith)
            requires
                twice == 2 * (above * binary64::two_to(count)),
                one == (2 * binary64::two_to(count)) * unit,
        ;
        lemma_scale_share(near, total, twice, unit, hit, one);
        lemma_share_keeps_to_a_hundred(hit, total);
        binary64::lemma_encoded_keeps_to(near, exponent, 100);
    }
}

/// The share of hits in a total is no more than a hundred.
proof fn lemma_share_keeps_to_a_hundred(hit: nat, total: nat)
    requires
        0 < hit <= total,
    ensures
        ({
            let above = hit * 100;
            let count = binary64::doublings(above, total);
            binary64::rounded(binary64::scaled_quotient(above, total)) <= 100 * binary64::two_to(
                (count + 1) as nat,
            )
        }),
{
    let above = hit * 100;
    let count = binary64::doublings(above, total);
    let unit = binary64::two_to(count);
    let scaled = above * unit;
    let q = scaled / total;
    vstd::arithmetic::div_mod::lemma_fundamental_div_mod(scaled as int, total as int);
    let r = scaled % total;
    assert(scaled <= (100 * unit) * total) by (nonlinear_arith)
        requires
            scaled == (hit * 100) * unit,
            hit <= total,
    ;
    assert(q <= 100 * unit && (q == 100 * unit ==> r == 0)) by (nonlinear_arith)
        requires
            scaled == total * q + r,
            0 <= r < total,
            scaled <= (100 * unit) * total,
    ;
    assert(binary64::two_to((count + 1) as nat) == 2 * unit);
    binary64::lemma_rounded_keeps_to(
        binary64::scaled_quotient(above, total),
        100,
        (count + 1) as nat,
    );
}

proof fn lemma_share_off_by_little(quotient: nat, near: nat, total: nat, twice: nat)
    requires
        total > 0,
        twice >= 0x80_0000_0000_0000 * total,
        quotient * total <= twice + total,
        twice <= quotient * total + total,
        near <= quotient ==> (quotient - near) * 0x20_0000_0000_0000 <= quotient,
        near >= quotient ==> (near - quotient) * 0x20_0000_0000_0000 <= quotient,
    ensures
        ({
            let told = near * total;
            &&& told <= twice ==> (twice - told) * 0x4_0000_0000_0000 <= twice
            &&& told >= twice ==> (told - twice) * 0x4_0000_0000_0000 <= twice
        }),
{
    let first = quotient * total;
    let second = near * total;
    assert((second <= first ==> (first - second) * 0x20_0000_0000_0000 <= first) && (second
        >= first ==> (second - first) * 0x20_0000_0000_0000 <= first)) by (nonlinear_arith)
        requires
            first == quotient * total,
            second == near * total,
            total > 0,
            near <= quotient ==> (quotient - near) * 0x20_0000_0000_0000 <= quotient,
            near >= quotient ==> (near - quotient) * 0x20_0000_0000_0000 <= quotient,
    ;
}

proof fn lemma_scale_share(near: nat, total: nat, twice: nat, unit: nat, hit: nat, one: nat)
    requires
        twice * unit == (hit * 100) * one,
        ({
            let told = near * total;
            &&& told <= twice ==> (twice - told) * 0x4_0000_0000_0000 <= twice
            &&& told >= twice ==> (told - twice) * 0x4_0000_0000_0000 <= twice
        }),
    ensures
        ({
            let told = (near * unit) * total;
            let exact = 100 * hit * one;
            &&& told <= exact ==> (exact - told) * 0x4_0000_0000_0000 <= exact
            &&& told >= exact ==> (told - exact) * 0x4_0000_0000_0000 <= exact
        }),
{
    let small = near * total;
    let told = (near * unit) * total;
    let exact = 100 * hit * one;
    assert(told == small * unit) by (nonlinear_arith)
        requires
            small == near * total,
            told == (near * unit) * total,
    ;
    assert(exact == twice * unit) by (nonlinear_arith)
        requires
            exact == 100 * hit * one,
            twice * unit == (hit * 100) * one,
    ;
    if small <= twice {
        let gap = (twice - small) as nat;
        assert(exact - told == gap * unit) by (nonlinear_arith)
            requires
                gap == twice - small,
                told == small * unit,
                exact == twice * unit,
        ;
        assert(gap * unit * 0x4_0000_0000_0000 <= twice * unit) by (nonlinear_arith)
            requires
                gap * 0x4_0000_0000_0000 <= twice,
        ;
        assert(gap * unit >= 0) by (nonlinear_arith);
    } else {
        let gap = (small - twice) as nat;
        assert(told - exact == gap * unit) by (nonlinear_arith)
            requires
                gap == small - twice,
                told == small * unit,
                exact == twice * unit,
        ;
        assert(gap * unit * 0x4_0000_0000_0000 <= twice * unit) by (nonlinear_arith)
            requires
                gap * 0x4_0000_0000_0000 <= twice,
        ;
        assert(gap * unit >= 0) by (nonlinear_arith);
    }
}

/// The thousandths that a meter shows of a percentage: none of one that is not above zero,
/// a thousand from a hundred on, and else the nearest, as far as 53 bits go.
pub proof fn law_thousandths_are_the_nearest(value: Binary64)
    requires
        value.finite(),
    ensures
        value.mantissa() == 0 || value.negative() ==> binary64::permille_of(value) == 0,
        value.mantissa() > 0 && value.reaches(100) ==> binary64::permille_of(value) == 1000,
        value.mantissa() > 0 && !value.negative() && !value.reaches(100) && value.exponent() < 0 ==> {
            let scale = binary64::two_to((-value.exponent()) as nat);
            let told = 2 * (binary64::permille_of(value) * scale);
            let exact = 20 * value.mantissa();
            &&& told <= exact + scale + 20
            &&& exact <= told + scale + 20
        },
{
    if value.mantissa() > 0 && !value.negative() && !value.reaches(100) && value.exponent() < 0 {
        let scale = binary64::two_to((-value.exponent()) as nat);
        binary64::lemma_two_to_positive((-value.exponent()) as nat);
        let ten = value.mantissa() * 10;
        law_rounding_is_off_by_little(ten);
        let near = binary64::rounded(ten);
        let sum = 2 * near + scale;
        let told = binary64::permille_of(value);
        vstd::arithmetic::div_mod::lemma_fundamental_div_mod(sum as int, (2 * scale) as int);
        let r = sum % (2 * scale);
        assert((2 * scale) * told == 2 * (told * scale)) by (nonlinear_arith);
        assert(value.mantissa() < 0x20_0000_0000_0000);
    }
}

/// A hundred times a rate from zero to one lies between zero and a hundred, and is off by no
/// more than its part in 2^53.
#[verifier::spinoff_prover]
pub proof fn law_a_hundredfold_is_close(rate: Binary64)
    requires
        rate.finite(),
        rate.within(1),
    ensures
        rate.hundredfold().finite(),
        rate.hundredfold().within(100),
        ({
            let told = parts_of(rate.hundredfold());
            let exact = 100 * parts_of(rate);
            &&& told <= exact ==> (exact - told) * 0x20_0000_0000_0000 <= exact
            &&& told >= exact ==> (told - exact) * 0x20_0000_0000_0000 <= exact
        }),
{
    let mantissa = rate.mantissa();
    let exponent = rate.exponent();
    if mantissa == 0 {
        assert(0 * binary64::two_to((exponent + 1100) as nat) == 0);
    } else {
        if exponent >= 0 {
            binary64::lemma_two_to_positive(exponent as nat);
            assert(mantissa * binary64::two_to(exponent as nat) >= mantissa) by (nonlinear_arith)
                requires
                    binary64::two_to(exponent as nat) >= 1,
            ;
        }
        let down = (-exponent) as nat;
        let value = mantissa * 100;
        let near = binary64::rounded(value);
        law_rounding_is_off_by_little(value);
        lemma_rounded_is_short(value);
        assert(value <= 100 * binary64::two_to(down)) by (nonlinear_arith)
            requires
                value == mantissa * 100,
                mantissa <= 1 * binary64::two_to(down),
        ;
        binary64::lemma_rounded_keeps_to(value, 100, down);
        binary64::lemma_encoded_keeps_to(near, exponent, 100);
        binary64::lemma_rounded_bound(value);
        assert(binary64::two_to(67) == 0x1000_0000_0000_0000 * 0x80) by {
            lemma_powers();
            binary64::lemma_two_to_split(60, 7);
            reveal_with_fuel(binary64::two_to, 8);
        }
        assert(near < binary64::two_to(67));
        lemma_encoded_value(near, exponent, 67);
        let unit = binary64::two_to((exponent + 1100) as nat);
        let told = near * unit;
        let exact = 100 * (mantissa * unit);
        assert(exact == value * unit) by (nonlinear_arith)
            requires
                exact == 100 * (mantissa * unit),
                value == mantissa * 100,
        ;
        if near <= value {
            assert(told <= exact && (exact - told) * 0x20_0000_0000_0000 <= exact)
                by (nonlinear_arith)
                requires
                    told == near * unit,
                    exact == value * unit,
                    near <= value,
                    (value - near) * 0x20_0000_0000_0000 <= value,
                    unit >= 0,
            ;
        } else {
            assert(told >= exact && (told - exact) * 0x20_0000_0000_0000 <= exact)
                by (nonlinear_arith)
                requires
                    told == near * unit,
                    exact == value * unit,
                    near >= value,
                    (near - value) * 0x20_0000_0000_0000 <= value,
                    unit >= 0,
            ;
        }
    }
}

/// A rate is told as a percentage exactly where it is a number from zero to one.
pub proof fn law_rates_from_zero_to_one_are_told(rate: Option<Binary64>)
    ensures
        coverage::rate_percent(rate) is Some <==> rate is Some && rate->0.finite()
            && rate->0.within(1),
        coverage::rate_percent(rate) is Some ==> coverage::rate_percent(rate)->0
            == rate->0.hundredfold(),
{
    if rate is Some && rate->0.finite() && rate->0.within(1) {
        law_a_hundredfold_is_close(rate->0);
    }
}

} // verus!
