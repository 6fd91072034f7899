//! Exact rational arithmetic.
//!
//! The mathematical model is [`Q`], a ghost fraction of unbounded integers.
//! The executable type [`Rat`] carries an `i64` numerator and a positive
//! `i64` denominator; every operation computes in `i128`, reduces the result
//! to lowest terms, and returns `None` when the reduced result does not fit
//! back into `i64`.

use vstd::arithmetic::div_mod::{
    lemma_div_multiples_vanish, lemma_fundamental_div_mod, lemma_mod_multiples_basic,
};
use vstd::prelude::*;

verus! {

/// A fraction `n / d` of unbounded integers, the specification-level value
/// of every rational in this crate. Meaningful whenever `d != 0`.
pub ghost struct Q {
    pub n: int,
    pub d: int,
}

pub open spec fn q_zero() -> Q {
    Q { n: 0, d: 1 }
}

pub open spec fn q_int(i: int) -> Q {
    Q { n: i, d: 1 }
}

pub open spec fn q_add(a: Q, b: Q) -> Q {
    Q { n: a.n * b.d + b.n * a.d, d: a.d * b.d }
}

pub open spec fn q_sub(a: Q, b: Q) -> Q {
    Q { n: a.n * b.d - b.n * a.d, d: a.d * b.d }
}

pub open spec fn q_mul(a: Q, b: Q) -> Q {
    Q { n: a.n * b.n, d: a.d * b.d }
}

pub open spec fn q_div(a: Q, b: Q) -> Q {
    Q { n: a.n * b.d, d: a.d * b.n }
}

/// Equality of the fractions `a` and `b`, by cross multiplication.
pub open spec fn q_eq(a: Q, b: Q) -> bool {
    a.n * b.d == b.n * a.d
}

/// `a <= b`, by cross multiplication; meaningful when both denominators
/// are positive.
pub open spec fn q_le(a: Q, b: Q) -> bool {
    a.n * b.d <= b.n * a.d
}

/// `a < b`, by cross multiplication; meaningful when both denominators
/// are positive.
pub open spec fn q_lt(a: Q, b: Q) -> bool {
    a.n * b.d < b.n * a.d
}

pub open spec fn int_abs(x: int) -> int {
    if x < 0 {
        -x
    } else {
        x
    }
}

/// Euclid's greatest common divisor.
pub open spec fn gcd(a: nat, b: nat) -> nat
    decreases b,
{
    if b == 0 {
        a
    } else {
        gcd(b, a % b)
    }
}

/// The fraction `a` brought to lowest terms with a positive denominator.
pub open spec fn q_norm(a: Q) -> Q {
    if a.d == 0 {
        a
    } else {
        let n2: int = if a.d < 0 {
            -a.n
        } else {
            a.n
        };
        let d2: int = int_abs(a.d);
        let g: int = gcd(int_abs(n2) as nat, d2 as nat) as int;
        Q { n: n2 / g, d: d2 / g }
    }
}

/// Whether the fraction can be held by a [`Rat`]: an `i64` numerator and a
/// positive `i64` denominator.
pub open spec fn fits_i64(a: Q) -> bool {
    &&& -0x8000_0000_0000_0000 <= a.n
    &&& a.n <= 0x7fff_ffff_ffff_ffff
    &&& 1 <= a.d
    &&& a.d <= 0x7fff_ffff_ffff_ffff
}

/// The views of a sequence of executable rationals.
pub open spec fn qs(s: Seq<Rat>) -> Seq<Q> {
    s.map_values(|x: Rat| x@)
}

/// Every element is a meaningful fraction (positive denominator).
pub open spec fn seq_wf(s: Seq<Q>) -> bool {
    forall|i: int| 0 <= i < s.len() ==> 1 <= #[trigger] s[i].d
}

/// The greatest common divisor of `a` and `b >= 1` is at least 1, at most
/// `b`, and divides both arguments.
pub proof fn lemma_gcd_divides(a: nat, b: nat)
    requires
        1 <= b,
    ensures
        1 <= gcd(a, b),
        gcd(a, b) <= b,
        a as int % (gcd(a, b) as int) == 0,
        b as int % (gcd(a, b) as int) == 0,
    decreases b,
{
    let r: nat = a % b;
    if r == 0 {
        assert(gcd(a, b) == gcd(b, 0));
        assert(gcd(b, 0) == b);
        lemma_mod_multiples_basic(1, b as int);
        assert(1 * b as int == b as int);
    } else {
        lemma_gcd_divides(b, r);
        let g: nat = gcd(b, r);
        assert(gcd(a, b) == g);
        lemma_fundamental_div_mod(a as int, b as int);
        lemma_fundamental_div_mod(b as int, g as int);
        lemma_fundamental_div_mod(r as int, g as int);
        let q: int = a as int / b as int;
        let kb: int = b as int / g as int;
        let kr: int = r as int / g as int;
        assert(a as int == (kb * q + kr) * g as int) by (nonlinear_arith)
            requires
                a as int == b as int * q + r as int,
                b as int == g as int * kb + 0,
                r as int == g as int * kr + 0,
        ;
        lemma_mod_multiples_basic(kb * q + kr, g as int);
    }
}

/// Exact division: when `g` divides `|x|`, `x` is `g` times `x / g`.
pub proof fn lemma_exact_div(x: int, g: int)
    requires
        1 <= g,
        int_abs(x) % g == 0,
    ensures
        x == g * (x / g),
{
    let ax: int = int_abs(x);
    lemma_fundamental_div_mod(ax, g);
    if x < 0 {
        let t: int = -(ax / g);
        assert(g * t == -(g * (ax / g))) by (nonlinear_arith)
            requires
                t == -(ax / g),
        ;
        assert(x == g * t);
        lemma_div_multiples_vanish(t, g);
        assert((g * t) / g == t);
    }
}

/// Reducing a fraction preserves its value and yields a denominator
/// between 1 and `|a.d|`.
pub proof fn lemma_q_norm(a: Q)
    requires
        a.d != 0,
    ensures
        1 <= q_norm(a).d,
        q_norm(a).d <= int_abs(a.d),
        q_eq(q_norm(a), a),
{
    let n2: int = if a.d < 0 {
        -a.n
    } else {
        a.n
    };
    let d2: int = int_abs(a.d);
    let g: int = gcd(int_abs(n2) as nat, d2 as nat) as int;
    lemma_gcd_divides(int_abs(n2) as nat, d2 as nat);
    assert(int_abs(n2) % g == 0);
    assert(int_abs(d2) % g == 0);
    lemma_exact_div(n2, g);
    lemma_exact_div(d2, g);
    let p: int = n2 / g;
    let k: int = d2 / g;
    assert(1 <= k && k <= d2) by (nonlinear_arith)
        requires
            d2 == g * k,
            1 <= g,
            1 <= d2,
    ;
    if a.d < 0 {
        assert(p * a.d == a.n * k) by (nonlinear_arith)
            requires
                n2 == g * p,
                d2 == g * k,
                n2 == -a.n,
                d2 == -a.d,
        ;
    } else {
        assert(p * a.d == a.n * k) by (nonlinear_arith)
            requires
                n2 == g * p,
                d2 == g * k,
                n2 == a.n,
                d2 == a.d,
        ;
    }
}

/// `q_eq` is transitive when the middle denominator is nonzero.
pub proof fn lemma_q_eq_trans(a: Q, b: Q, c: Q)
    requires
        q_eq(a, b),
        q_eq(b, c),
        b.d != 0,
    ensures
        q_eq(a, c),
{
    assert(a.n * c.d == c.n * a.d) by (nonlinear_arith)
        requires
            a.n * b.d == b.n * a.d,
            b.n * c.d == c.n * b.d,
            b.d != 0,
    ;
}

/// Both cross products of an addition's operands transfer along `q_eq`.
proof fn lemma_add_cong_parts(a: Q, b: Q, a2: Q, b2: Q)
    requires
        q_eq(a, a2),
        q_eq(b, b2),
    ensures
        (a.n * b.d) * (a2.d * b2.d) == (a2.n * b2.d) * (a.d * b.d),
        (b.n * a.d) * (a2.d * b2.d) == (b2.n * a2.d) * (a.d * b.d),
{
    lemma_mul4(a.n, b.d, a2.d, b2.d);
    assert((a.n * a2.d) * (b.d * b2.d) == (a2.n * a.d) * (b.d * b2.d));
    lemma_mul4b(a2.n, a.d, b.d, b2.d);
    lemma_mul4b(b.n, a.d, a2.d, b2.d);
    assert((b.n * b2.d) * (a.d * a2.d) == (b2.n * b.d) * (a.d * a2.d));
    lemma_mul4c(b2.n, b.d, a.d, a2.d);
}

/// Addition respects `q_eq`.
pub proof fn lemma_q_add_cong(a: Q, b: Q, a2: Q, b2: Q)
    requires
        q_eq(a, a2),
        q_eq(b, b2),
    ensures
        q_eq(q_add(a, b), q_add(a2, b2)),
{
    lemma_add_cong_parts(a, b, a2, b2);
    vstd::arithmetic::mul::lemma_mul_is_distributive_add_other_way(
        a2.d * b2.d,
        a.n * b.d,
        b.n * a.d,
    );
    vstd::arithmetic::mul::lemma_mul_is_distributive_add_other_way(
        a.d * b.d,
        a2.n * b2.d,
        b2.n * a2.d,
    );
}

/// Subtraction respects `q_eq`.
pub proof fn lemma_q_sub_cong(a: Q, b: Q, a2: Q, b2: Q)
    requires
        q_eq(a, a2),
        q_eq(b, b2),
    ensures
        q_eq(q_sub(a, b), q_sub(a2, b2)),
{
    lemma_add_cong_parts(a, b, a2, b2);
    vstd::arithmetic::mul::lemma_mul_is_distributive_sub_other_way(
        a2.d * b2.d,
        a.n * b.d,
        b.n * a.d,
    );
    vstd::arithmetic::mul::lemma_mul_is_distributive_sub_other_way(
        a.d * b.d,
        a2.n * b2.d,
        b2.n * a2.d,
    );
}

/// Rearrangement: `(p q)(r s) == (p r)(q s)`.
proof fn lemma_mul4(p: int, q: int, r: int, s: int)
    by (nonlinear_arith)
    ensures
        (p * q) * (r * s) == (p * r) * (q * s),
{
}

/// Rearrangement: `(p q)(r s) == (p s)(q r)`.
proof fn lemma_mul4b(p: int, q: int, r: int, s: int)
    by (nonlinear_arith)
    ensures
        (p * q) * (r * s) == (p * s) * (q * r),
{
}

/// Rearrangement: `(p q)(r s) == (p s)(r q)`.
proof fn lemma_mul4c(p: int, q: int, r: int, s: int)
    by (nonlinear_arith)
    ensures
        (p * q) * (r * s) == (p * s) * (r * q),
{
}

/// Multiplication respects `q_eq`.
pub proof fn lemma_q_mul_cong(a: Q, b: Q, a2: Q, b2: Q)
    requires
        q_eq(a, a2),
        q_eq(b, b2),
    ensures
        q_eq(q_mul(a, b), q_mul(a2, b2)),
{
    assert((a.n * b.n) * (a2.d * b2.d) == (a2.n * b2.n) * (a.d * b.d)) by (nonlinear_arith)
        requires
            a.n * a2.d == a2.n * a.d,
            b.n * b2.d == b2.n * b.d,
    ;
}

/// Division respects `q_eq`.
pub proof fn lemma_q_div_cong(a: Q, b: Q, a2: Q, b2: Q)
    requires
        q_eq(a, a2),
        q_eq(b, b2),
    ensures
        q_eq(q_div(a, b), q_div(a2, b2)),
{
    assert((a.n * b.d) * (a2.d * b2.n) == (a2.n * b2.d) * (a.d * b.n)) by (nonlinear_arith)
        requires
            a.n * a2.d == a2.n * a.d,
            b.n * b2.d == b2.n * b.d,
    ;
}

/// Two rationals with the same view are the same value: the view exposes
/// both fields exactly.
pub proof fn lemma_view_inj(x: Rat, y: Rat)
    requires
        x@ == y@,
    ensures
        x == y,
{
}

/// An exact rational number: `num / den` with `den >= 1`, kept in lowest
/// terms by every arithmetic operation.
#[derive(Clone, Copy, PartialEq, Eq, Structural, Debug)]
pub struct Rat {
    num: i64,
    den: i64,
}

impl View for Rat {
    type V = Q;

    closed spec fn view(&self) -> Q {
        Q { n: self.num as int, d: self.den as int }
    }
}

impl Rat {
    /// The denominator of every reachable `Rat` is positive.
    #[verifier::type_invariant]
    pub open spec fn inv(self) -> bool {
        1 <= self@.d
    }

    /// The rational zero.
    pub fn zero() -> (r: Rat)
        ensures
            r@ == q_zero(),
    {
        Rat { num: 0, den: 1 }
    }

    /// The rational with value `i`.
    pub fn from_int(i: i64) -> (r: Rat)
        ensures
            r@ == q_int(i as int),
    {
        Rat { num: i, den: 1 }
    }

    /// A rational from a trusted positive denominator, not reduced.
    pub(crate) fn frac(num: i64, den: i64) -> (r: Rat)
        requires
            1 <= den,
        ensures
            r@ == (Q { n: num as int, d: den as int }),
    {
        Rat { num, den }
    }

    /// `num / den`, reduced; `None` when `den == 0` or the reduced value
    /// does not fit.
    pub fn new(num: i64, den: i64) -> (r: Option<Rat>)
        ensures
            den == 0 ==> r is None,
            den != 0 ==> {
                let q = q_norm(Q { n: num as int, d: den as int });
                &&& (r is Some <==> fits_i64(q))
                &&& (r matches Some(c) ==> c@ == q)
            },
    {
        if den == 0 {
            return None;
        }
        Rat::norm128(num as i128, den as i128)
    }

    /// The numerator of the reduced form.
    pub fn num(&self) -> (r: i64)
        ensures
            r as int == self@.n,
    {
        self.num
    }

    /// The (positive) denominator of the reduced form.
    pub fn den(&self) -> (r: i64)
        ensures
            r as int == self@.d,
    {
        self.den
    }

    /// Whether the value is exactly zero.
    pub fn is_zero(&self) -> (r: bool)
        ensures
            r == q_eq(self@, q_zero()),
    {
        self.num == 0
    }

    /// `self <= other`.
    pub fn le(&self, other: &Rat) -> (r: bool)
        ensures
            r == q_le(self@, other@),
    {
        proof {
            use_type_invariant(*self);
            use_type_invariant(*other);
            lemma_prod_i64(self@.n, other@.d);
            lemma_prod_i64(other@.n, self@.d);
        }
        (self.num as i128) * (other.den as i128) <= (other.num as i128) * (self.den as i128)
    }

    /// `self < other`.
    pub fn lt(&self, other: &Rat) -> (r: bool)
        ensures
            r == q_lt(self@, other@),
    {
        proof {
            use_type_invariant(*self);
            use_type_invariant(*other);
            lemma_prod_i64(self@.n, other@.d);
            lemma_prod_i64(other@.n, self@.d);
        }
        (self.num as i128) * (other.den as i128) < (other.num as i128) * (self.den as i128)
    }

    /// Whether `self` and `other` have the same value.
    pub fn eq_val(&self, other: &Rat) -> (r: bool)
        ensures
            r == q_eq(self@, other@),
    {
        proof {
            use_type_invariant(*self);
            use_type_invariant(*other);
            lemma_prod_i64(self@.n, other@.d);
            lemma_prod_i64(other@.n, self@.d);
        }
        (self.num as i128) * (other.den as i128) == (other.num as i128) * (self.den as i128)
    }

    /// Exact sum, reduced; `None` when the reduced result does not fit.
    pub fn add(&self, other: &Rat) -> (r: Option<Rat>)
        ensures
            r is Some <==> fits_i64(q_norm(q_add(self@, other@))),
            r matches Some(c) ==> c@ == q_norm(q_add(self@, other@)),
    {
        proof {
            use_type_invariant(*self);
            use_type_invariant(*other);
            lemma_prod_i64_den(self@.n, other@.d);
            lemma_prod_i64_den(other@.n, self@.d);
            lemma_prod_i64_den(self@.d, other@.d);
            assert(1 <= self@.d * other@.d) by (nonlinear_arith)
                requires
                    1 <= self@.d,
                    1 <= other@.d,
            ;
        }
        let n: i128 = (self.num as i128) * (other.den as i128)
            + (other.num as i128) * (self.den as i128);
        let d: i128 = (self.den as i128) * (other.den as i128);
        Rat::norm128(n, d)
    }

    /// Exact difference, reduced; `None` when the reduced result does not
    /// fit.
    pub fn sub(&self, other: &Rat) -> (r: Option<Rat>)
        ensures
            r is Some <==> fits_i64(q_norm(q_sub(self@, other@))),
            r matches Some(c) ==> c@ == q_norm(q_sub(self@, other@)),
    {
        proof {
            use_type_invariant(*self);
            use_type_invariant(*other);
            lemma_prod_i64_den(self@.n, other@.d);
            lemma_prod_i64_den(other@.n, self@.d);
            lemma_prod_i64_den(self@.d, other@.d);
            assert(1 <= self@.d * other@.d) by (nonlinear_arith)
                requires
                    1 <= self@.d,
                    1 <= other@.d,
            ;
        }
        let n: i128 = (self.num as i128) * (other.den as i128)
            - (other.num as i128) * (self.den as i128);
        let d: i128 = (self.den as i128) * (other.den as i128);
        Rat::norm128(n, d)
    }

    /// Exact product, reduced; `None` when the reduced result does not fit.
    pub fn mul(&self, other: &Rat) -> (r: Option<Rat>)
        ensures
            r is Some <==> fits_i64(q_norm(q_mul(self@, other@))),
            r matches Some(c) ==> c@ == q_norm(q_mul(self@, other@)),
    {
        proof {
            use_type_invariant(*self);
            use_type_invariant(*other);
            lemma_prod_i64(self@.n, other@.n);
            lemma_prod_i64(self@.d, other@.d);
            assert(1 <= self@.d * other@.d) by (nonlinear_arith)
                requires
                    1 <= self@.d,
                    1 <= other@.d,
            ;
        }
        let n: i128 = (self.num as i128) * (other.num as i128);
        let d: i128 = (self.den as i128) * (other.den as i128);
        Rat::norm128(n, d)
    }

    /// Exact quotient, reduced; `None` when `other` is zero or the reduced
    /// result does not fit.
    pub fn div(&self, other: &Rat) -> (r: Option<Rat>)
        ensures
            other@.n == 0 ==> r is None,
            other@.n != 0 ==> {
                &&& (r is Some <==> fits_i64(q_norm(q_div(self@, other@))))
                &&& (r matches Some(c) ==> c@ == q_norm(q_div(self@, other@)))
            },
    {
        if other.num == 0 {
            return None;
        }
        proof {
            use_type_invariant(*self);
            use_type_invariant(*other);
            lemma_prod_i64(self@.n, other@.d);
            lemma_prod_i64(self@.d, other@.n);
            assert(self@.d * other@.n != 0) by (nonlinear_arith)
                requires
                    1 <= self@.d,
                    other@.n != 0,
            ;
        }
        let n: i128 = (self.num as i128) * (other.den as i128);
        let d: i128 = (self.den as i128) * (other.num as i128);
        Rat::norm128(n, d)
    }

    /// Reduce `n / d` (with `d != 0`) and return it when it fits.
    fn norm128(n: i128, d: i128) -> (r: Option<Rat>)
        requires
            d != 0,
            i128::MIN < n,
            i128::MIN < d,
        ensures
            r is Some <==> fits_i64(q_norm(Q { n: n as int, d: d as int })),
            r matches Some(c) ==> c@ == q_norm(Q { n: n as int, d: d as int }),
    {
        let n2: i128 = if d < 0 {
            -n
        } else {
            n
        };
        let d2: i128 = if d < 0 {
            -d
        } else {
            d
        };
        let na: u128 = if n2 < 0 {
            (-n2) as u128
        } else {
            n2 as u128
        };
        let da: u128 = d2 as u128;
        let g: u128 = Rat::gcd_u128(na, da);
        proof {
            lemma_gcd_divides(na as nat, da as nat);
        }
        let nq: u128 = na / g;
        let dq: u128 = da / g;
        proof {
            let gi: int = g as int;
            lemma_exact_div(na as int, gi);
            lemma_exact_div(da as int, gi);
            assert(1 <= da as int / gi) by (nonlinear_arith)
                requires
                    da as int == gi * (da as int / gi),
                    1 <= gi,
                    1 <= da as int,
            ;
            if n2 < 0 {
                let t: int = -(na as int / gi);
                assert(gi * t == -(gi * (na as int / gi))) by (nonlinear_arith)
                    requires
                        t == -(na as int / gi),
                ;
                lemma_div_multiples_vanish(t, gi);
                assert(n2 as int / gi == t);
            }
        }
        if dq > 0x7fff_ffff_ffff_ffff {
            return None;
        }
        let den: i64 = dq as i64;
        if n2 >= 0 {
            if nq > 0x7fff_ffff_ffff_ffff {
                return None;
            }
            Some(Rat { num: nq as i64, den })
        } else {
            if nq > 0x8000_0000_0000_0000 {
                return None;
            }
            let num: i64 = if nq == 0x8000_0000_0000_0000 {
                i64::MIN
            } else {
                -(nq as i64)
            };
            Some(Rat { num, den })
        }
    }

    /// Euclid's algorithm on machine words.
    fn gcd_u128(a: u128, b: u128) -> (g: u128)
        requires
            1 <= b,
        ensures
            g as nat == gcd(a as nat, b as nat),
            1 <= g,
    {
        let mut x: u128 = a;
        let mut y: u128 = b;
        while y != 0
            invariant
                gcd(x as nat, y as nat) == gcd(a as nat, b as nat),
                1 <= x || 1 <= y,
            decreases y,
        {
            let t: u128 = x % y;
            proof {
                assert(gcd(x as nat, y as nat) == gcd(y as nat, t as nat));
            }
            x = y;
            y = t;
        }
        x
    }
}

/// The product of two `i64`-range factors stays well inside `i128`.
proof fn lemma_prod_i64(x: int, y: int)
    by (nonlinear_arith)
    requires
        -0x8000_0000_0000_0000 <= x <= 0x7fff_ffff_ffff_ffff,
        -0x8000_0000_0000_0000 <= y <= 0x7fff_ffff_ffff_ffff,
    ensures
        -0x4000_0000_0000_0000_0000_0000_0000_0000 <= x * y,
        x * y <= 0x4000_0000_0000_0000_0000_0000_0000_0000,
{
}

/// The product of an `i64`-range factor and a positive denominator is
/// small enough that two such products can be added within `i128`.
proof fn lemma_prod_i64_den(x: int, y: int)
    by (nonlinear_arith)
    requires
        -0x8000_0000_0000_0000 <= x <= 0x7fff_ffff_ffff_ffff,
        1 <= y <= 0x7fff_ffff_ffff_ffff,
    ensures
        -0x3fff_ffff_ffff_ffff_8000_0000_0000_0000 <= x * y,
        x * y <= 0x3fff_ffff_ffff_ffff_8000_0000_0000_0000,
{
}

} // verus!
