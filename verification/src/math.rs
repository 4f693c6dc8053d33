//! Fractions in lowest terms, as ratios of sample rates are.

use vstd::prelude::*;
use vstd::arithmetic::div_mod::{lemma_fundamental_div_mod, lemma_mod_multiples_basic};

verus! {

/// Whether `n` is a multiple of `d`. Zero divides only zero.
pub open spec fn divides(d: nat, n: nat) -> bool {
    if d == 0 {
        n == 0
    } else {
        n % d == 0
    }
}

/// Whether `g` is the greatest common divisor of `a` and `b`: it divides
/// both, and every number that divides both divides it.
pub open spec fn is_gcd(a: nat, b: nat, g: nat) -> bool {
    &&& divides(g, a)
    &&& divides(g, b)
    &&& forall|d: nat| divides(d, a) && divides(d, b) ==> divides(d, g)
}

/// The greatest common divisor of `a` and `b`; that of zero and zero is zero.
pub open spec fn gcd_of(a: nat, b: nat) -> nat {
    choose|g: nat| is_gcd(a, b, g)
}

/// A multiple of `d`, written out.
proof fn lemma_multiple(d: nat, n: nat)
    requires
        d > 0,
        divides(d, n),
    ensures
        n == d * (n / d),
{
    lemma_fundamental_div_mod(n as int, d as int);
}

/// Whatever is a product with `d` is a multiple of `d`.
proof fn lemma_product_divides(d: nat, k: int, n: nat)
    requires
        n == d * k,
    ensures
        divides(d, n),
{
    if d > 0 {
        lemma_mod_multiples_basic(k, d as int);
        assert(k * d == d * k) by (nonlinear_arith);
    } else {
        assert(d * k == 0) by (nonlinear_arith)
            requires
                d == 0,
        ;
    }
}

/// The common divisors of `a` and `b` are those of `b` and the rest that
/// `a` leaves when divided by `b`.
proof fn lemma_euclid_step(a: nat, b: nat, d: nat)
    requires
        b > 0,
    ensures
        (divides(d, a) && divides(d, b)) <==> (divides(d, b) && divides(d, a % b)),
{
    if d > 0 && divides(d, b) {
        let q = a as int / b as int;
        let r = a % b;
        lemma_fundamental_div_mod(a as int, b as int);
        lemma_multiple(d, b);
        let kb = b as int / d as int;
        if divides(d, a) {
            lemma_multiple(d, a);
            let ka = a as int / d as int;
            assert(r == d * (ka - kb * q)) by (nonlinear_arith)
                requires
                    a == b * q + r,
                    b == d * kb,
                    a == d * ka,
            ;
            lemma_product_divides(d, ka - kb * q, r);
        }
        if divides(d, r) {
            lemma_multiple(d, r);
            let kr = r as int / d as int;
            assert(a == d * (kb * q + kr)) by (nonlinear_arith)
                requires
                    a == b * q + r,
                    b == d * kb,
                    r == d * kr,
            ;
            lemma_product_divides(d, kb * q + kr, a);
        }
    }
}

/// Two numbers that divide each other are the same number.
proof fn lemma_divide_each_other(x: nat, y: nat)
    requires
        divides(x, y),
        divides(y, x),
    ensures
        x == y,
{
    if x > 0 && y > 0 {
        lemma_multiple(x, y);
        lemma_multiple(y, x);
        let p = y / x;
        let q = x / y;
        assert(p >= 1 && q >= 1 && x == y) by (nonlinear_arith)
            requires
                x > 0,
                y > 0,
                y == x * p,
                x == y * q,
        ;
    }
}

/// Two numbers have one greatest common divisor only, and `gcd_of` names it.
pub proof fn lemma_gcd_is_unique(a: nat, b: nat, g: nat)
    requires
        is_gcd(a, b, g),
    ensures
        gcd_of(a, b) == g,
{
    let chosen = gcd_of(a, b);
    assert(is_gcd(a, b, chosen));
    lemma_divide_each_other(chosen, g);
}

/// The greatest common divisor of `a` and `b`, by Euclid's algorithm.
pub fn gcd(a: usize, b: usize) -> (g: usize)
    ensures
        is_gcd(a as nat, b as nat, g as nat),
        g == gcd_of(a as nat, b as nat),
{
    let mut x = a;
    let mut y = b;
    while y != 0
        invariant
            forall|d: nat|
                (divides(d, x as nat) && divides(d, y as nat)) <==> (divides(d, a as nat)
                    && divides(d, b as nat)),
        decreases y,
    {
        proof {
            assert forall|d: nat|
                (divides(d, y as nat) && divides(d, (x % y) as nat)) <==> (divides(d, a as nat)
                    && divides(d, b as nat)) by {
                lemma_euclid_step(x as nat, y as nat, d);
            }
        }
        let t = y;
        y = x % y;
        x = t;
    }
    proof {
        assert(divides(x as nat, x as nat)) by {
            lemma_product_divides(x as nat, 1, x as nat);
        }
        assert(is_gcd(a as nat, b as nat, x as nat));
        lemma_gcd_is_unique(a as nat, b as nat, x as nat);
    }
    x
}

/// A fraction in lowest terms.
pub struct Fraction {
    numerator: usize,
    denominator: usize,
}

impl Fraction {
    /// The numerator, as a number.
    pub closed spec fn top(&self) -> nat {
        self.numerator as nat
    }

    /// The denominator, as a number.
    pub closed spec fn bottom(&self) -> nat {
        self.denominator as nat
    }

    /// Whether the fraction is in lowest terms: numerator and denominator
    /// have no common divisor but one.
    pub open spec fn wf(&self) -> bool {
        is_gcd(self.top(), self.bottom(), 1)
    }

    /// The fraction `numerator / denominator` in lowest terms: both are
    /// divided by their greatest common divisor. A zero denominator is kept
    /// (`n / 0` becomes `1 / 0`); zero over zero is no fraction.
    pub fn new(numerator: usize, denominator: usize) -> (fraction: Fraction)
        requires
            numerator != 0 || denominator != 0,
        ensures
            fraction.top() * gcd_of(numerator as nat, denominator as nat) == numerator,
            fraction.bottom() * gcd_of(numerator as nat, denominator as nat) == denominator,
            fraction.top() * denominator == fraction.bottom() * numerator,
            fraction.wf(),
    {
        let n = numerator;
        let d = denominator;
        let gcd = gcd(n, d);
        assert(gcd != 0);
        let fraction = Fraction { numerator: n / gcd, denominator: d / gcd };
        proof {
            let g = gcd as nat;
            let top = fraction.top();
            let bottom = fraction.bottom();
            lemma_multiple(g, n as nat);
            lemma_multiple(g, d as nat);
            assert(top * g == n && bottom * g == d) by (nonlinear_arith)
                requires
                    n == g * top,
                    d == g * bottom,
            ;
            assert(top * d == bottom * n) by (nonlinear_arith)
                requires
                    n == g * top,
                    d == g * bottom,
            ;
            assert forall|c: nat| divides(c, top) && divides(c, bottom) implies divides(c, 1) by {
                lemma_lowest_terms(n as nat, d as nat, g, top, bottom, c);
            }
        }
        fraction
    }

    /// The denominator of the fraction in lowest terms.
    #[inline]
    pub fn denominator(&self) -> (denominator: usize)
        ensures
            denominator == self.bottom(),
    {
        self.denominator
    }

    /// The numerator of the fraction in lowest terms.
    #[inline]
    pub fn numerator(&self) -> (numerator: usize)
        ensures
            numerator == self.top(),
    {
        self.numerator
    }
}

/// What is left of two numbers after division by their greatest common
/// divisor has no common divisor but one.
proof fn lemma_lowest_terms(n: nat, d: nat, g: nat, top: nat, bottom: nat, c: nat)
    requires
        g > 0,
        is_gcd(n, d, g),
        n == g * top,
        d == g * bottom,
        divides(c, top),
        divides(c, bottom),
    ensures
        c == 1,
{
    if c == 0 {
        assert(n == 0 && d == 0) by (nonlinear_arith)
            requires
                n == g * top,
                d == g * bottom,
                top == 0,
                bottom == 0,
        ;
        assert(divides((g + 1) as nat, n) && divides((g + 1) as nat, d));
        assert(divides((g + 1) as nat, g));
        vstd::arithmetic::div_mod::lemma_small_mod(g, (g + 1) as nat);
    } else {
        lemma_multiple(c, top);
        lemma_multiple(c, bottom);
        let kt = top / c;
        let kb = bottom / c;
        let both = c * g;
        assert(n == both * kt && d == both * kb && both >= g) by (nonlinear_arith)
            requires
                n == g * top,
                d == g * bottom,
                top == c * kt,
                bottom == c * kb,
                both == c * g,
                c >= 1,
                g >= 1,
        ;
        lemma_product_divides(both, kt as int, n);
        lemma_product_divides(both, kb as int, d);
        assert(divides(both, g));
        if both > g {
            vstd::arithmetic::div_mod::lemma_small_mod(g, both);
        }
        assert(c == 1) by (nonlinear_arith)
            requires
                c * g == g,
                g >= 1,
        ;
    }
}

} // verus!
