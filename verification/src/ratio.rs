//! Reduced unsigned ratios.

use std::cmp::Ordering;

use vstd::arithmetic::div_mod::*;
use vstd::arithmetic::mul::*;
use vstd::prelude::*;

use crate::text;
use crate::text::{chars_of, find_char, push_decimal, read_nat};

verus! {

/// The greatest common divisor; zero for two zeros.
pub open spec fn gcd_of(left: nat, right: nat) -> nat
    decreases right,
{
    if right == 0 {
        left
    } else {
        gcd_of(right, left % right)
    }
}

/// `divisor` divides `value` without remainder.
pub open spec fn divides(divisor: nat, value: nat) -> bool {
    exists|quotient: nat| value == #[trigger] (divisor * quotient)
}

/// A ratio in lowest terms: no common divisor but one, or `0:0`.
pub open spec fn is_reduced(numerator: nat, denominator: nat) -> bool {
    gcd_of(numerator, denominator) == 1 || (numerator == 0 && denominator == 0)
}

/// Both terms divided by their greatest common divisor; `0:0` stays as it is.
pub open spec fn reduced(numerator: nat, denominator: nat) -> (nat, nat) {
    let divisor = gcd_of(numerator, denominator);
    if divisor == 0 {
        (0, 0)
    } else {
        (numerator / divisor, denominator / divisor)
    }
}

/// A reduced ratio. A denominator of zero denotes an undefined ratio.
#[derive(Clone, Copy, Debug, PartialEq, Eq, Hash, Structural)]
pub struct Ratio {
    numerator: u32,
    denominator: u32,
}

impl View for Ratio {
    type V = (nat, nat);

    closed spec fn view(&self) -> (nat, nat) {
        (self.numerator as nat, self.denominator as nat)
    }
}

impl Default for Ratio {
    /// The undefined `0:0`.
    fn default() -> (ratio: Self)
        ensures
            ratio@ == (0nat, 0nat),
    {
        Self { numerator: 0, denominator: 0 }
    }
}

/// What `parse_gamescope` reads from one side of the colon.
pub open spec fn component(text: Seq<char>) -> nat {
    match text::parse_nat_up_to(text, u32::MAX as nat) {
        Some(value) => value,
        None => 0,
    }
}

impl Ratio {
    #[verifier::type_invariant]
    spec fn well_formed(self) -> bool {
        is_reduced(self.numerator as nat, self.denominator as nat)
    }

    /// Construct and reduce a ratio.
    #[must_use]
    pub fn new(numerator: u32, denominator: u32) -> (ratio: Self)
        ensures
            ratio@ == reduced(numerator as nat, denominator as nat),
            is_reduced(ratio@.0, ratio@.1),
    {
        let divisor: u32 = gcd(numerator, denominator);
        proof {
            lemma_gcd_divides(numerator as nat, denominator as nat);
            lemma_reduced_form(numerator as nat, denominator as nat);
        }
        if divisor == 0 {
            Self { numerator: 0, denominator: 0 }
        } else {
            Self { numerator: numerator / divisor, denominator: denominator / divisor }
        }
    }

    /// Parse two decimal numbers around a colon.
    ///
    /// Missing or malformed components become zero. A missing colon produces
    /// the undefined `0:0` value.
    #[must_use]
    pub fn parse_gamescope(value: &str) -> (ratio: Self)
        ensures
            ratio@ == (match text::split_once(value@, ':') {
                Some((numerator, denominator)) => reduced(
                    component(numerator),
                    component(denominator),
                ),
                None => (0nat, 0nat),
            }),
            is_reduced(ratio@.0, ratio@.1),
    {
        let chars = chars_of(value);
        let colon: usize = find_char(&chars, ':', 0);
        if colon == chars.len() {
            return Self::default();
        }
        Self::new(
            Self::parse_component(&chars, 0, colon),
            Self::parse_component(&chars, colon + 1, chars.len()),
        )
    }

    fn parse_component(chars: &Vec<char>, from: usize, to: usize) -> (value: u32)
        requires
            from <= to <= chars@.len(),
        ensures
            value == component(chars@.subrange(from as int, to as int)),
    {
        match read_nat(vstd::slice::slice_subrange(chars.as_slice(), from, to), u32::MAX as u64) {
            Some(value) => value as u32,
            None => 0,
        }
    }

    /// Reduced numerator.
    #[must_use]
    pub fn numerator(self) -> (numerator: u32)
        ensures
            numerator == self@.0,
    {
        self.numerator
    }

    /// Reduced denominator.
    #[must_use]
    pub fn denominator(self) -> (denominator: u32)
        ensures
            denominator == self@.1,
    {
        self.denominator
    }

    /// Whether this ratio has no finite denominator.
    #[must_use]
    pub fn is_undefined(self) -> (undefined: bool)
        ensures
            undefined == (self@.1 == 0),
    {
        self.denominator == 0
    }

    /// Compare two defined ratios without converting to floating point.
    #[must_use]
    pub fn compare(self, other: Self) -> (order: Option<Ordering>)
        ensures
            order == (if self@.1 == 0 || other@.1 == 0 {
                None
            } else if self@.0 * other@.1 < other@.0 * self@.1 {
                Some(Ordering::Less)
            } else if self@.0 * other@.1 > other@.0 * self@.1 {
                Some(Ordering::Greater)
            } else {
                Some(Ordering::Equal)
            }),
    {
        if self.is_undefined() || other.is_undefined() {
            return None;
        }
        let left: u64 = product(self.numerator, other.denominator);
        let right: u64 = product(other.numerator, self.denominator);
        if left < right {
            Some(Ordering::Less)
        } else if left > right {
            Some(Ordering::Greater)
        } else {
            Some(Ordering::Equal)
        }
    }

    /// The ratio as `numerator:denominator`.
    #[must_use]
    pub fn text(self) -> (text: String)
        ensures
            text@ == text::decimal(self@.0) + seq![':'] + text::decimal(self@.1),
    {
        let mut text = String::new();
        push_decimal(&mut text, self.numerator as u64);
        text.push(':');
        push_decimal(&mut text, self.denominator as u64);
        assert(text@ =~= text::decimal(self@.0) + seq![':'] + text::decimal(self@.1));
        text
    }
}

fn product(left: u32, right: u32) -> (value: u64)
    ensures
        value == left * right,
{
    assert(left * right <= u32::MAX * u32::MAX) by (nonlinear_arith)
        requires
            left <= u32::MAX,
            right <= u32::MAX,
    ;
    left as u64 * right as u64
}

fn gcd(left: u32, right: u32) -> (divisor: u32)
    ensures
        divisor == gcd_of(left as nat, right as nat),
{
    let mut a: u32 = left;
    let mut b: u32 = right;
    while b != 0
        invariant
            gcd_of(a as nat, b as nat) == gcd_of(left as nat, right as nat),
        decreases b,
    {
        let remainder: u32 = a % b;
        a = b;
        b = remainder;
    }
    a
}

/// The greatest common divisor divides both numbers, and is an integer combination
/// of them.
proof fn lemma_bezout(left: nat, right: nat) -> (factors: (int, int))
    ensures
        left * factors.0 + right * factors.1 == gcd_of(left, right),
    decreases right,
{
    if right == 0 {
        (1, 0)
    } else {
        let (x, y) = lemma_bezout(right, left % right);
        let quotient = left / right;
        lemma_fundamental_div_mod(left as int, right as int);
        let remainder = left % right;
        assert(left * y + right * (x - quotient * y) == right * x + remainder * y)
            by (nonlinear_arith)
            requires
                left == right * quotient + remainder,
        ;
        (y, x - quotient * y)
    }
}

/// The greatest common divisor divides both numbers and is zero only for two zeros.
pub proof fn lemma_gcd_divides(left: nat, right: nat)
    ensures
        divides(gcd_of(left, right), left),
        divides(gcd_of(left, right), right),
        gcd_of(left, right) == 0 <==> left == 0 && right == 0,
    decreases right,
{
    let g = gcd_of(left, right);
    if right == 0 {
        assert(left == left * 1);
        assert(right == left * 0);
    } else {
        lemma_gcd_divides(right, left % right);
        let r = left % right;
        let p = choose|p: nat| right == #[trigger] (g * p);
        let q = choose|q: nat| r == #[trigger] (g * q);
        lemma_fundamental_div_mod(left as int, right as int);
        let quotient = left / right;
        assert(left == g * (p * quotient + q)) by (nonlinear_arith)
            requires
                left == right * quotient + r,
                right == g * p,
                r == g * q,
        ;
        assert(left == g * ((p * quotient + q) as nat));
    }
}

/// Every common divisor of two numbers divides their greatest common divisor.
pub proof fn lemma_gcd_is_greatest(left: nat, right: nat, divisor: nat)
    requires
        divides(divisor, left),
        divides(divisor, right),
    ensures
        divides(divisor, gcd_of(left, right)),
    decreases right,
{
    if right != 0 {
        let p = choose|p: nat| left == #[trigger] (divisor * p);
        let q = choose|q: nat| right == #[trigger] (divisor * q);
        lemma_fundamental_div_mod(left as int, right as int);
        let quotient = left / right;
        let r = left % right;
        assert(r == divisor * (p - q * quotient)) by (nonlinear_arith)
            requires
                left == right * quotient + r,
                left == divisor * p,
                right == divisor * q,
        ;
        let rest = p - q * quotient;
        if rest < 0 {
            assert(r <= 0) by (nonlinear_arith)
                requires
                    r == divisor * rest,
                    rest < 0,
                    divisor >= 0,
            ;
            assert(r == divisor * 0);
        } else {
            assert(r == divisor * (rest as nat));
        }
        lemma_gcd_is_greatest(right, r, divisor);
    }
}

/// Reducing leaves the proportion between the terms as it was and takes out every
/// common divisor.
pub proof fn lemma_reduced_form(numerator: nat, denominator: nat)
    ensures
        ({
            let (p, q) = reduced(numerator, denominator);
            &&& is_reduced(p, q)
            &&& p * denominator == numerator * q
            &&& p <= numerator
            &&& q <= denominator
        }),
{
    let g = gcd_of(numerator, denominator);
    lemma_gcd_divides(numerator, denominator);
    if g != 0 {
        let a = choose|a: nat| numerator == #[trigger] (g * a);
        let b = choose|b: nat| denominator == #[trigger] (g * b);
        lemma_div_multiples_vanish(a as int, g as int);
        lemma_div_multiples_vanish(b as int, g as int);
        let (p, q) = reduced(numerator, denominator);
        assert(p == a && q == b);
        assert(p * denominator == numerator * q && p <= numerator && q <= denominator)
            by (nonlinear_arith)
            requires
                numerator == g * p,
                denominator == g * q,
                g >= 1,
        ;
        let (x, y) = lemma_bezout(numerator, denominator);
        assert(p * x + q * y == 1) by (nonlinear_arith)
            requires
                numerator * x + denominator * y == g,
                numerator == g * p,
                denominator == g * q,
                g >= 1,
        ;
        let h = gcd_of(p, q);
        lemma_gcd_divides(p, q);
        let c = choose|c: nat| p == #[trigger] (h * c);
        let d = choose|d: nat| q == #[trigger] (h * d);
        assert(h * (c * x + d * y) == 1) by (nonlinear_arith)
            requires
                p * x + q * y == 1,
                p == h * c,
                q == h * d,
        ;
        let e = c * x + d * y;
        assert(h == 1) by (nonlinear_arith)
            requires
                h * e == 1,
                h >= 0,
        ;
    }
}

proof fn lemma_denominator_divides(p: nat, q: nat, other_p: nat, other_q: nat)
    requires
        gcd_of(p, q) == 1,
        p * other_q == other_p * q,
        q > 0,
        other_q > 0,
    ensures
        q <= other_q,
{
    let (x, y) = lemma_bezout(p, q);
    let k = other_p * x + other_q * y;
    assert(other_q == q * k) by (nonlinear_arith)
        requires
            p * x + q * y == 1,
            p * other_q == other_p * q,
            k == other_p * x + other_q * y,
    ;
    assert(k >= 1) by (nonlinear_arith)
        requires
            other_q == q * k,
            other_q > 0,
            q > 0,
    ;
    assert(q <= q * k) by (nonlinear_arith)
        requires
            k >= 1,
            q > 0,
    ;
}

/// Two defined reduced ratios compare equal only when they are the same ratio.
pub proof fn lemma_equal_ratios_coincide(left: (nat, nat), right: (nat, nat))
    requires
        is_reduced(left.0, left.1),
        is_reduced(right.0, right.1),
        left.1 > 0,
        right.1 > 0,
        left.0 * right.1 == right.0 * left.1,
    ensures
        left == right,
{
    lemma_denominator_divides(left.0, left.1, right.0, right.1);
    lemma_denominator_divides(right.0, right.1, left.0, left.1);
    assert(left.0 == right.0) by (nonlinear_arith)
        requires
            left.0 * right.1 == right.0 * left.1,
            left.1 == right.1,
            right.1 > 0,
    ;
}

/// A part of a ratio is the number that it spells, and zero if it spells none that fits
/// thirty-two bits.
pub proof fn lemma_parts_are_read(value: nat, other: Seq<char>)
    ensures
        value <= 0xffff_ffff ==> component(text::decimal(value)) == value,
        value > 0xffff_ffff ==> component(text::decimal(value)) == 0,
        text::parse_nat(other) is None ==> component(other) == 0,
{
    text::lemma_decimals_are_read_back(value, 0xffff_ffff);
}

} // verus!
