use crate::error::CircuitError;
use vstd::arithmetic::div_mod::*;
use vstd::arithmetic::mul::*;
use vstd::arithmetic::power::*;
use vstd::prelude::*;

verus! {

/// The absolute value.
pub open spec fn magnitude(x: int) -> int {
    if x < 0 {
        -x
    } else {
        x
    }
}

/// The quotient of `b` by `a`, rounded towards zero.
pub open spec fn quotient_to_zero(b: int, a: int) -> int
    recommends
        a != 0,
{
    if (b < 0) == (a < 0) {
        magnitude(b) / magnitude(a)
    } else {
        -(magnitude(b) / magnitude(a))
    }
}

/// What the quotient towards zero leaves of `b`: it has the sign of `b`.
pub open spec fn remainder_to_zero(b: int, a: int) -> int
    recommends
        a != 0,
{
    if b < 0 {
        -(magnitude(b) % magnitude(a))
    } else {
        magnitude(b) % magnitude(a)
    }
}

/// The triple `(g, x, y)` of the extended Euclidean algorithm on `(a, b)`:
/// the remainder of `b` by `a` is taken until `a` is zero, with quotients
/// rounded towards zero.
pub open spec fn bezout(a: int, b: int) -> (int, int, int)
    decreases magnitude(a),
{
    if a == 0 {
        (b, 0, 1)
    } else {
        let sub = bezout(remainder_to_zero(b, a), a);
        (sub.0, sub.2 - quotient_to_zero(b, a) * sub.1, sub.1)
    }
}

/// `w` is the inverse of `a` modulo `m`, in its least non-negative form.
pub open spec fn is_inverse(w: int, a: int, m: int) -> bool {
    0 <= w < m && (a * w) % m == 1int % m
}

/// The inverse of `a` modulo `m`, where there is one.
pub open spec fn inverse(a: int, m: int) -> int {
    choose|w: int| is_inverse(w, a, m)
}

/// `a` has an inverse modulo `m`. Nothing has one modulo zero.
pub open spec fn has_inverse(a: int, m: int) -> bool {
    exists|w: int| is_inverse(w, a, m)
}

/// The quotient towards zero and what it leaves make up `b`.
pub proof fn lemma_division_to_zero(b: int, a: int)
    requires
        a != 0,
    ensures
        b == a * quotient_to_zero(b, a) + remainder_to_zero(b, a),
        magnitude(remainder_to_zero(b, a)) < magnitude(a),
        magnitude(a) * magnitude(quotient_to_zero(b, a)) + magnitude(remainder_to_zero(b, a))
            == magnitude(b),
        a > 0 && b >= 0 ==> quotient_to_zero(b, a) == b / a && remainder_to_zero(b, a) == b % a,
{
    let big = magnitude(b);
    let small = magnitude(a);
    let q = big / small;
    lemma_fundamental_div_mod(big, small);
    lemma_mod_bound(big, small);
    lemma_div_pos_is_pos(big, small);
    assert(a * q == if a < 0 {
        -(small * q)
    } else {
        small * q
    }) by (nonlinear_arith)
        requires
            small == magnitude(a),
    ;
    assert(a * (-q) == -(a * q)) by (nonlinear_arith);
}

/// What the extended Euclidean algorithm yields: `g` is a combination of `a`
/// and `b` that divides both, so it is, but for its sign, their greatest
/// common divisor; and the coefficients are no larger than the arguments.
pub proof fn lemma_bezout(a: int, b: int)
    ensures
        a * bezout(a, b).1 + b * bezout(a, b).2 == bezout(a, b).0,
        bezout(a, b).0 == 0 <==> a == 0 && b == 0,
        bezout(a, b).0 != 0 ==> a % magnitude(bezout(a, b).0) == 0 && b % magnitude(
            bezout(a, b).0,
        ) == 0,
        a >= 0 && b >= 0 ==> bezout(a, b).0 >= 0,
        a == 0 ==> bezout(a, b) == (b, 0int, 1int),
        a != 0 && b != 0 ==> -magnitude(b) <= bezout(a, b).1 <= magnitude(b),
        a != 0 && b == 0 ==> bezout(a, b).1 == 1,
        a != 0 ==> -magnitude(a) <= bezout(a, b).2 <= magnitude(a),
    decreases magnitude(a),
{
    if a != 0 {
        let r = remainder_to_zero(b, a);
        let q = quotient_to_zero(b, a);
        lemma_division_to_zero(b, a);
        lemma_bezout(r, a);
        let sub = bezout(r, a);
        let g = sub.0;
        let xp = sub.1;
        let yp = sub.2;
        let x = yp - q * xp;
        assert(bezout(a, b) == (g, x, xp));
        assert(a * x + b * xp == g) by (nonlinear_arith)
            requires
                r * xp + a * yp == g,
                b == a * q + r,
                x == yp - q * xp,
        ;
        let d = magnitude(g);
        assert(b % d == 0) by {
            lemma_mul_mod_noop_left(a, q, d);
            lemma_add_mod_noop(a * q, r, d);
            lemma_small_mod(0, d as nat);
        }
        if r != 0 {
            assert(-magnitude(b) <= x <= magnitude(b)) by (nonlinear_arith)
                requires
                    -magnitude(a) <= xp <= magnitude(a),
                    -magnitude(r) <= yp <= magnitude(r),
                    magnitude(a) * magnitude(q) + magnitude(r) == magnitude(b),
                    magnitude(q) == q || magnitude(q) == -q,
                    magnitude(q) >= 0,
                    magnitude(a) >= 0,
                    x == yp - q * xp,
            ;
        } else {
            assert(q * 0 == 0);
        }
    } else if b != 0 {
        let d = magnitude(b);
        lemma_mod_self_0(d);
        lemma_small_mod(0, d as nat);
        lemma_mod_multiples_vanish(-1, 0, d);
    }
}

/// An inverse modulo `m` is unique.
pub proof fn lemma_inverse_unique(w1: int, w2: int, a: int, m: int)
    requires
        is_inverse(w1, a, m),
        is_inverse(w2, a, m),
    ensures
        w1 == w2,
{
    // w1 = w1 * (a * w2) = (w1 * a) * w2 = w2, all modulo m
    lemma_mul_mod_noop_general(w1, a * w2, m);
    lemma_mul_mod_noop_general(a * w1, w2, m);
    lemma_mul_is_associative(w1, a, w2);
    lemma_mul_is_commutative(w1, a);
    assert(w1 * (a * w2) == (a * w1) * w2);
    if m == 1 {
    } else {
        lemma_small_mod(1, m as nat);
        lemma_small_mod(w1 as nat, m as nat);
        lemma_small_mod(w2 as nat, m as nat);
        assert((w1 * 1) % m == (w1 * (a * w2)) % m);
        assert((1 * w2) % m == ((a * w1) * w2) % m);
    }
}

/// With a greatest common divisor other than one there is no inverse.
proof fn lemma_common_divisor_blocks(a: int, m: int, w: int)
    requires
        a >= 0,
        m > 0,
        bezout(a, m).0 != 1,
    ensures
        !is_inverse(w, a, m),
{
    lemma_bezout(a, m);
    let g = bezout(a, m).0;
    if is_inverse(w, a, m) {
        if m == 1 {
            lemma_fundamental_div_mod(1, g);
            assert(g == 1) by (nonlinear_arith)
                requires
                    g > 0,
                    1 == g * (1int / g) + 0,
            ;
        } else {
            lemma_small_mod(1, m as nat);
            lemma_fundamental_div_mod(a * w, m);
            lemma_fundamental_div_mod(a, g);
            lemma_fundamental_div_mod(m, g);
            let k = (a * w) / m;
            let a1 = a / g;
            let m1 = m / g;
            assert(false) by (nonlinear_arith)
                requires
                    g > 1,
                    a == g * a1,
                    m == g * m1,
                    a * w == m * k + 1,
            {
                assert(g * (a1 * w - m1 * k) == 1);
            }
        }
    }
}

/// With the greatest common divisor one, the coefficient of `a` is an inverse.
proof fn lemma_coefficient_inverts(a: int, m: int)
    requires
        a >= 0,
        m > 0,
        bezout(a, m).0 == 1,
    ensures
        is_inverse(bezout(a, m).1 % m, a, m),
{
    lemma_bezout(a, m);
    let x = bezout(a, m).1;
    let y = bezout(a, m).2;
    lemma_mod_bound(x, m);
    lemma_mul_mod_noop_general(a, x, m);
    lemma_mod_multiples_vanish(-y, 1, m);
    assert(a * x == m * (-y) + 1) by (nonlinear_arith)
        requires
            a * x + m * y == 1,
    ;
}

/// Extended Euclidean algorithm on values as wide as a machine word, signed
/// or unsigned.
fn extended_gcd_wide(a: i128, b: i128) -> (res: (i128, i128, i128))
    requires
        -u64::MAX <= a <= u64::MAX,
        -u64::MAX <= b <= u64::MAX,
    ensures
        (res.0 as int, res.1 as int, res.2 as int) == bezout(a as int, b as int),
    decreases magnitude(a as int),
{
    if a == 0 {
        (b, 0, 1)
    } else {
        let small: i128 = if a < 0 {
            -a
        } else {
            a
        };
        let big: i128 = if b < 0 {
            -b
        } else {
            b
        };
        let part: i128 = big / small;
        let left: i128 = big % small;
        let q: i128 = if (b < 0) == (a < 0) {
            part
        } else {
            -part
        };
        let r: i128 = if b < 0 {
            -left
        } else {
            left
        };
        proof {
            lemma_division_to_zero(b as int, a as int);
        }
        let (g, x, y) = extended_gcd_wide(r, a);
        proof {
            lemma_bezout(r as int, a as int);
            lemma_bezout(a as int, b as int);
            assert(-magnitude(b as int) <= q * x <= magnitude(b as int)) by (nonlinear_arith)
                requires
                    -magnitude(a as int) <= x <= magnitude(a as int),
                    magnitude(a as int) * magnitude(q as int) + magnitude(r as int) == magnitude(
                        b as int,
                    ),
                    magnitude(q as int) == q || magnitude(q as int) == -q,
                    magnitude(q as int) >= 0,
                    magnitude(a as int) >= 0,
                    magnitude(r as int) >= 0,
            ;
        }
        (g, y - q * x, x)
    }
}

/// Extended Euclidean algorithm: `(g, x, y)` with `a * x + b * y == g`, where
/// `g` is, but for its sign, the greatest common divisor of `a` and `b`. For
/// arguments that are not negative, `g` is not negative either. Quotients are
/// rounded towards zero. The least value of the type is left out, as its
/// magnitude does not fit the type.
pub fn extended_gcd(a: i64, b: i64) -> (res: (i64, i64, i64))
    requires
        a > i64::MIN,
        b > i64::MIN,
    ensures
        (res.0 as int, res.1 as int, res.2 as int) == bezout(a as int, b as int),
        a * res.1 + b * res.2 == res.0,
        res.0 == 0 <==> a == 0 && b == 0,
        res.0 != 0 ==> a as int % magnitude(res.0 as int) == 0 && b as int % magnitude(
            res.0 as int,
        ) == 0,
        a >= 0 && b >= 0 ==> res.0 >= 0,
{
    let (g, x, y) = extended_gcd_wide(a as i128, b as i128);
    proof {
        lemma_bezout(a as int, b as int);
        if a != 0 {
            let d = magnitude(g as int);
            lemma_fundamental_div_mod(a as int, d);
            assert(d <= magnitude(a as int)) by (nonlinear_arith)
                requires
                    a != 0,
                    d > 0,
                    a == d * (a as int / d) + 0,
            ;
        }
    }
    (g as i64, x as i64, y as i64)
}

/// The inverse of `a` modulo `m`, or `NoInverse` where there is none.
pub fn modular_inverse(a: u64, m: u64) -> (res: Result<u64, CircuitError>)
    ensures
        res is Ok <==> has_inverse(a as int, m as int),
        res matches Ok(w) ==> w == inverse(a as int, m as int) && is_inverse(
            w as int,
            a as int,
            m as int,
        ),
        res matches Err(e) ==> e == CircuitError::NoInverse,
{
    if m == 0 {
        return Err(CircuitError::NoInverse);
    }
    let (g, x, _) = extended_gcd_wide(a as i128, m as i128);
    if g != 1 {
        proof {
            assert forall|w: int| !is_inverse(w, a as int, m as int) by {
                lemma_common_divisor_blocks(a as int, m as int, w);
            }
        }
        return Err(CircuitError::NoInverse);
    }
    proof {
        lemma_bezout(a as int, m as int);
        lemma_coefficient_inverts(a as int, m as int);
        lemma_mod_multiples_vanish(1, x as int, m as int);
    }
    let wide: i128 = m as i128;
    let w: i128 = (x + wide) % wide;
    proof {
        lemma_inverse_unique(w as int, inverse(a as int, m as int), a as int, m as int);
    }
    Ok(w as u64)
}

/// The product of `a` and `b` modulo `m`, through a product of double width.
pub(crate) fn mul_mod(a: u64, b: u64, m: u64) -> (res: u64)
    requires
        m > 0,
    ensures
        res == (a * b) % (m as int),
        res < m,
{
    proof {
        assert(a * b <= 0xffff_ffff_ffff_ffff * 0xffff_ffff_ffff_ffff) by (nonlinear_arith)
            requires
                0 <= a <= 0xffff_ffff_ffff_ffff,
                0 <= b <= 0xffff_ffff_ffff_ffff,
        ;
        lemma_mod_bound(a * b, m as int);
    }
    (((a as u128) * (b as u128)) % (m as u128)) as u64
}

/// One step of square-and-multiply.
proof fn lemma_pow_halves(b: int, e: nat)
    requires
        e > 0,
    ensures
        e % 2 == 0 ==> pow(b, e) == pow(b * b, e / 2),
        e % 2 == 1 ==> pow(b, e) == b * pow(b * b, e / 2),
{
    let h = e / 2;
    lemma_square_is_pow2(b);
    lemma_pow_multiplies(b, 2, h);
    assert(pow(b * b, h) == pow(b, 2 * h));
    if e % 2 == 1 {
        reveal(pow);
        assert(pow(b, e) == b * pow(b, (e - 1) as nat));
    }
}

/// `base` to the power `exp`, modulo `modulus`, by square-and-multiply.
pub fn modular_exponentiation(base: u64, exp: u64, modulus: u64) -> (result: u64)
    requires
        modulus > 0,
    ensures
        result == pow(base as int, exp as nat) % (modulus as int),
{
    let mut result: u64 = 1 % modulus;
    let mut b: u64 = base % modulus;
    let mut e: u64 = exp;
    let ghost m = modulus as int;
    proof {
        lemma_pow_mod_noop(base as int, exp as nat, m);
        lemma_mul_mod_noop_general(1, pow(b as int, e as nat), m);
    }
    while e > 0
        invariant
            m == modulus,
            m > 0,
            result < m,
            (result * pow(b as int, e as nat)) % m == pow(base as int, exp as nat) % m,
        decreases e,
    {
        let ghost old_result = result as int;
        let ghost old_b = b as int;
        let ghost old_e = e as nat;
        proof {
            lemma_pow_halves(old_b, old_e);
            assert(e & 1 == e % 2) by (bit_vector);
            assert(e >> 1 == e / 2) by (bit_vector);
        }
        if e & 1 == 1 {
            result = mul_mod(result, b, modulus);
        }
        b = mul_mod(b, b, modulus);
        e >>= 1;
        proof {
            let tail = pow(old_b * old_b, e as nat);
            lemma_pow_mod_noop(old_b * old_b, e as nat, m);
            lemma_mul_mod_noop_general(result as int, pow(b as int, e as nat), m);
            lemma_mul_mod_noop_general(result as int, tail, m);
            if old_e % 2 == 1 {
                lemma_mul_mod_noop_general(old_result * old_b, tail, m);
                lemma_mul_is_associative(old_result, old_b, tail);
            }
        }
    }
    proof {
        lemma_pow0(b as int);
        lemma_small_mod(result as nat, m as nat);
    }
    result
}

} // verus!
