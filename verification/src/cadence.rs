//! Greatest common divisors and least common multiples of cadences.
use vstd::prelude::*;

verus! {

/// The greatest common divisor, by Euclid's algorithm.
pub open spec fn gcd(a: nat, b: nat) -> nat
    decreases b,
{
    if b == 0 {
        a
    } else {
        gcd(b, a % b)
    }
}

/// The least common multiple, with 0 when either argument is 0.
pub open spec fn lcm(a: nat, b: nat) -> nat {
    if a == 0 || b == 0 {
        0
    } else {
        (a / gcd(a, b)) * b
    }
}

/// `d` divides `m` (for a positive `d`).
pub open spec fn divides(d: int, m: int) -> bool {
    d > 0 && m % d == 0
}

proof fn lemma_divides_means_multiple(d: int, m: int)
    requires
        d > 0,
        m % d == 0,
    ensures
        m == d * (m / d),
{
    vstd::arithmetic::div_mod::lemma_fundamental_div_mod(m, d);
}

proof fn lemma_multiple_is_divisible(d: int, k: int)
    requires
        d > 0,
    ensures
        (d * k) % d == 0,
{
    vstd::arithmetic::div_mod::lemma_mod_multiples_basic(k, d);
    vstd::arithmetic::mul::lemma_mul_is_commutative(d, k);
}

/// Euclid's gcd is a positive common divisor of `a` and `b` (when one of them
/// is positive), and it is an integer combination of them.
proof fn lemma_gcd_bezout(a: nat, b: nat) -> (xy: (int, int))
    requires
        a > 0 || b > 0,
    ensures
        gcd(a, b) > 0,
        (a as int) % (gcd(a, b) as int) == 0,
        (b as int) % (gcd(a, b) as int) == 0,
        a * xy.0 + b * xy.1 == gcd(a, b),
    decreases b,
{
    if b == 0 {
        vstd::arithmetic::div_mod::lemma_mod_self_0(a as int);
        (1, 0)
    } else {
        let r: nat = a % b;
        let q: int = (a as int) / (b as int);
        let (x1, y1) = lemma_gcd_bezout(b, r);
        let g: int = gcd(a, b) as int;
        assert(g == gcd(b, r));
        vstd::arithmetic::div_mod::lemma_fundamental_div_mod(a as int, b as int);
        assert(a == b * q + r);
        assert(a * y1 + b * (x1 - q * y1) == g) by (nonlinear_arith)
            requires
                a == b * q + r,
                b * x1 + r * y1 == g,
        ;
        lemma_divides_means_multiple(g, b as int);
        lemma_divides_means_multiple(g, r as int);
        let s: int = (b as int) / g;
        let t: int = (r as int) / g;
        assert(a == g * (s * q + t)) by (nonlinear_arith)
            requires
                a == b * q + r,
                b == g * s,
                r == g * t,
        ;
        lemma_multiple_is_divisible(g, s * q + t);
        (y1, x1 - q * y1)
    }
}

/// For positive `a` and `b`, `lcm(a, b)` is a positive common multiple of
/// both, and it divides every common multiple of both.
pub proof fn lemma_lcm_least(a: nat, b: nat, m: int)
    requires
        a > 0,
        b > 0,
    ensures
        lcm(a, b) > 0,
        divides(a as int, lcm(a, b) as int),
        divides(b as int, lcm(a, b) as int),
        divides(a as int, m) && divides(b as int, m) ==> divides(lcm(a, b) as int, m),
{
    let (x, y) = lemma_gcd_bezout(a, b);
    let g: int = gcd(a, b) as int;
    lemma_divides_means_multiple(g, a as int);
    lemma_divides_means_multiple(g, b as int);
    let a1: int = (a as int) / g;
    let b1: int = (b as int) / g;
    let l: int = lcm(a, b) as int;
    assert(l == a1 * b);
    assert(a1 > 0) by (nonlinear_arith)
        requires
            a == g * a1,
            g > 0,
            a > 0,
    ;
    assert(l > 0) by (nonlinear_arith)
        requires
            l == a1 * b,
            a1 > 0,
            b > 0,
    ;
    assert(l == a * b1) by (nonlinear_arith)
        requires
            l == a1 * b,
            a == g * a1,
            b == g * b1,
    ;
    lemma_multiple_is_divisible(a as int, b1);
    vstd::arithmetic::mul::lemma_mul_is_commutative(a1, b as int);
    lemma_multiple_is_divisible(b as int, a1);
    if divides(a as int, m) && divides(b as int, m) {
        lemma_divides_means_multiple(a as int, m);
        lemma_divides_means_multiple(b as int, m);
        let s: int = m / (a as int);
        let t: int = m / (b as int);
        let ab: int = (a * b) as int;
        assert(ab == g * l) by (nonlinear_arith)
            requires
                a == g * a1,
                l == a1 * b,
                ab == a * b,
        ;
        assert(g * m == (a * x) * m + (b * y) * m) by (nonlinear_arith)
            requires
                a * x + b * y == g,
        ;
        assert((a * x) * m == ab * (x * t)) by (nonlinear_arith)
            requires
                m == b * t,
                ab == a * b,
        ;
        assert((b * y) * m == ab * (y * s)) by (nonlinear_arith)
            requires
                m == a * s,
                ab == a * b,
        ;
        assert(ab * (x * t) + ab * (y * s) == ab * (x * t + y * s)) by (nonlinear_arith);
        assert(g * m == g * (l * (x * t + y * s))) by (nonlinear_arith)
            requires
                g * m == ab * (x * t + y * s),
                ab == g * l,
        ;
        assert(m == l * (x * t + y * s)) by (nonlinear_arith)
            requires
                g * m == g * (l * (x * t + y * s)),
                g > 0,
        ;
        lemma_multiple_is_divisible(l, x * t + y * s);
    }
}

/// A positive multiple of a positive number is at least that number.
pub proof fn lemma_divisor_bounded(d: int, m: int)
    requires
        divides(d, m),
        m > 0,
    ensures
        d <= m,
{
    lemma_divides_means_multiple(d, m);
    let k: int = m / d;
    assert(d <= m) by (nonlinear_arith)
        requires
            m == d * k,
            d > 0,
            m > 0,
    ;
}

/// The greatest common divisor, by Euclid's algorithm.
pub fn num_gcd(a: usize, b: usize) -> (r: usize)
    ensures
        r == gcd(a as nat, b as nat),
    decreases b,
{
    if b == 0 {
        a
    } else {
        num_gcd(b, a % b)
    }
}

/// The least common multiple of `a` and `b`, 0 when either is 0; it must fit
/// in a `usize`.
pub fn num_lcm(a: usize, b: usize) -> (r: usize)
    requires
        lcm(a as nat, b as nat) <= usize::MAX,
    ensures
        r == lcm(a as nat, b as nat),
{
    if a == 0 || b == 0 {
        0
    } else {
        let g = num_gcd(a, b);
        proof {
            lemma_gcd_bezout(a as nat, b as nat);
        }
        a / g * b
    }
}


/// Divisibility is transitive.
pub proof fn lemma_divides_trans(a: int, b: int, c: int)
    requires
        divides(a, b),
        divides(b, c),
    ensures
        divides(a, c),
{
    lemma_divides_means_multiple(a, b);
    lemma_divides_means_multiple(b, c);
    let k: int = b / a;
    let j: int = c / b;
    assert(c == a * (k * j)) by (nonlinear_arith)
        requires
            b == a * k,
            c == b * j,
    ;
    lemma_multiple_is_divisible(a, k * j);
}

/// The least common multiple of a sequence of cadences, folded from the left
/// starting at 1.
pub open spec fn lcm_fold(s: Seq<usize>) -> nat
    decreases s.len(),
{
    if s.len() == 0 {
        1
    } else {
        lcm(lcm_fold(s.drop_last()), s.last() as nat)
    }
}

/// A zero anywhere makes the fold 0; without zeros the fold is a positive
/// common multiple of every element that divides every common multiple.
pub proof fn lemma_lcm_fold(s: Seq<usize>, m: int)
    ensures
        s.contains(0usize) ==> lcm_fold(s) == 0,
        !s.contains(0usize) ==> lcm_fold(s) > 0,
        !s.contains(0usize) ==> forall|i: int|
            0 <= i < s.len() ==> divides(#[trigger] s[i] as int, lcm_fold(s) as int),
        !s.contains(0usize) && (forall|i: int| 0 <= i < s.len() ==> divides(#[trigger] s[i] as int, m))
            ==> divides(lcm_fold(s) as int, m),
    decreases s.len(),
{
    if s.len() > 0 {
        let t = s.drop_last();
        let c = s.last();
        lemma_lcm_fold(t, m);
        assert forall|i: int| 0 <= i < t.len() implies t[i] == s[i] by {}
        if t.contains(0usize) {
            let k = choose|k: int| 0 <= k < t.len() && t[k] == 0usize;
            assert(s[k] == 0usize);
        } else if c == 0 {
            assert(s[s.len() - 1] == 0usize);
        } else {
            assert(!s.contains(0usize)) by {
                if s.contains(0usize) {
                    let k = choose|k: int| 0 <= k < s.len() && s[k] == 0usize;
                    if k < t.len() {
                        assert(t[k] == 0usize);
                    }
                }
            }
            let l0 = lcm_fold(t);
            lemma_lcm_least(l0, c as nat, m);
            let l = lcm_fold(s);
            assert forall|i: int| 0 <= i < s.len() implies divides(#[trigger] s[i] as int, l as int) by {
                if i < t.len() {
                    assert(divides(t[i] as int, l0 as int));
                    lemma_divides_trans(s[i] as int, l0 as int, l as int);
                }
            }
            if forall|i: int| 0 <= i < s.len() ==> divides(#[trigger] s[i] as int, m) {
                assert forall|i: int| 0 <= i < t.len() implies divides(#[trigger] t[i] as int, m) by {
                    assert(s[i] == t[i]);
                }
                assert(divides(c as int, m)) by {
                    assert(s[s.len() - 1] == c);
                }
            }
        }
    }
}

} // verus!
