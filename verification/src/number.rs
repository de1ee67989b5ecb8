//! Runtime numbers: exact rationals together with the special values
//! positive infinity, negative infinity, and not-a-number, so that a
//! quotient by zero has a defined, silently produced result.
use vstd::prelude::*;

use vstd::arithmetic::div_mod::{
    lemma_fundamental_div_mod, lemma_fundamental_div_mod_converse, lemma_mod_self_0,
};

verus! {

/// A runtime number: a signed exact fraction, or one of the three
/// special values that division by zero can produce.
#[derive(Clone, Copy, Debug, PartialEq)]
pub enum Number {
    Finite { num: i64, den: i64 },
    PosInfinity,
    NegInfinity,
    NotANumber,
}

/// The greatest common divisor, by Euclid's rule.
pub open spec fn gcd(a: nat, b: nat) -> nat
    decreases b,
{
    if b == 0 {
        a
    } else {
        gcd(b, a % b)
    }
}

/// The magnitude of an integer.
pub open spec fn mag(n: int) -> nat {
    if n < 0 {
        (-n) as nat
    } else {
        n as nat
    }
}

impl Number {
    /// A finite number keeps a positive denominator and a numerator
    /// whose magnitude stays within `i64::MAX`.
    pub open spec fn wf(self) -> bool {
        match self {
            Number::Finite { num, den } => 1 <= den && num > i64::MIN,
            _ => true,
        }
    }

    pub open spec fn spec_is_zero(self) -> bool {
        match self {
            Number::Finite { num, den } => num == 0,
            _ => false,
        }
    }

    /// Whether the number is the fraction zero.
    pub fn is_zero(&self) -> (r: bool)
        ensures
            r == self.spec_is_zero(),
    {
        match self {
            Number::Finite { num, den } => *num == 0,
            _ => false,
        }
    }
}

proof fn lemma_gcd_divides(a: nat, b: nat)
    requires
        b >= 1,
    ensures
        1 <= gcd(a, b),
        a % gcd(a, b) == 0,
        b % gcd(a, b) == 0,
    decreases b,
{
    let r = a % b;
    if r == 0 {
        assert(gcd(a, b) == gcd(b, 0));
        assert(gcd(b, 0) == b);
        lemma_mod_self_0(b as int);
    } else {
        lemma_gcd_divides(b, r);
        let g = gcd(b, r);
        assert(gcd(a, b) == g);
        lemma_fundamental_div_mod(a as int, b as int);
        lemma_fundamental_div_mod(b as int, g as int);
        lemma_fundamental_div_mod(r as int, g as int);
        let q = a as int / b as int;
        let bq = b as int / g as int;
        let rq = r as int / g as int;
        assert(a as int == (bq * q + rq) * g as int) by (nonlinear_arith)
            requires
                a as int == b as int * q + r,
                b as int == g as int * bq,
                r as int == g as int * rq,
        ;
        lemma_fundamental_div_mod_converse(a as int, g as int, bq * q + rq, 0);
    }
}

/// If g divides d exactly and d is positive, the quotient is positive
/// and multiplying it back recovers d.
proof fn lemma_exact_div_pos(d: nat, g: nat)
    requires
        1 <= g,
        1 <= d,
        d % g == 0,
    ensures
        1 <= d / g,
        (d / g) * g == d,
{
    lemma_fundamental_div_mod(d as int, g as int);
    let q = d as int / g as int;
    assert(d as int == g as int * q);
    assert(q * g as int == d as int) by (nonlinear_arith)
        requires
            d as int == g as int * q,
    ;
    if q < 1 {
        assert(g as int * q <= 0) by (nonlinear_arith)
            requires
                q <= 0,
                g >= 1,
        ;
    }
}

/// Builds the reduced fraction of the given sign and magnitudes, when
/// it fits; the reduction divides both parts by their greatest common
/// divisor.
pub open spec fn rat_make_mag(neg: bool, n: nat, d: nat) -> Option<Number> {
    let g = gcd(n, d);
    let rn = n / g;
    let rd = d / g;
    if rn <= i64::MAX && rd <= i64::MAX {
        Some(
            Number::Finite {
                num: (if neg {
                    -(rn as int)
                } else {
                    rn as int
                }) as i64,
                den: rd as i64,
            },
        )
    } else {
        None
    }
}

/// The reduced fraction n/d for a signed numerator and positive denominator.
pub open spec fn rat_make(n: int, d: int) -> Option<Number> {
    rat_make_mag(n < 0, mag(n), d as nat)
}

fn gcd_exec(a0: u128, b0: u128) -> (g: u128)
    requires
        b0 >= 1,
    ensures
        g == gcd(a0 as nat, b0 as nat),
{
    let mut a = a0;
    let mut b = b0;
    while b != 0
        invariant
            gcd(a as nat, b as nat) == gcd(a0 as nat, b0 as nat),
        decreases b,
    {
        let t = a % b;
        proof {
            assert(gcd(a as nat, b as nat) == gcd(b as nat, (a % b) as nat));
        }
        a = b;
        b = t;
    }
    a
}

fn make_rational(neg: bool, n: u128, d: u128) -> (r: Option<Number>)
    requires
        1 <= d,
    ensures
        r == rat_make_mag(neg, n as nat, d as nat),
        r matches Some(x) ==> x.wf() && x is Finite,
{
    let g = gcd_exec(n, d);
    proof {
        lemma_gcd_divides(n as nat, d as nat);
    }
    let rn = n / g;
    let rd = d / g;
    proof {
        lemma_exact_div_pos(d as nat, g as nat);
    }
    if rn <= 9223372036854775807u128 && rd <= 9223372036854775807u128 {
        let num_mag = rn as i64;
        let num = if neg {
            -num_mag
        } else {
            num_mag
        };
        Some(Number::Finite { num, den: rd as i64 })
    } else {
        None
    }
}

/// The sum, with not-a-number and the infinities combined as their
/// arithmetic demands; `None` reports a fraction too large to hold.
pub open spec fn add_spec(a: Number, b: Number) -> Option<Number> {
    match (a, b) {
        (Number::NotANumber, _) => Some(Number::NotANumber),
        (_, Number::NotANumber) => Some(Number::NotANumber),
        (Number::PosInfinity, Number::NegInfinity) => Some(Number::NotANumber),
        (Number::NegInfinity, Number::PosInfinity) => Some(Number::NotANumber),
        (Number::PosInfinity, _) => Some(Number::PosInfinity),
        (_, Number::PosInfinity) => Some(Number::PosInfinity),
        (Number::NegInfinity, _) => Some(Number::NegInfinity),
        (_, Number::NegInfinity) => Some(Number::NegInfinity),
        (Number::Finite { num: n1, den: d1 }, Number::Finite { num: n2, den: d2 }) => rat_make(
            n1 * d2 + n2 * d1,
            d1 * d2,
        ),
    }
}

pub open spec fn sub_spec(a: Number, b: Number) -> Option<Number> {
    match (a, b) {
        (Number::NotANumber, _) => Some(Number::NotANumber),
        (_, Number::NotANumber) => Some(Number::NotANumber),
        (Number::PosInfinity, Number::PosInfinity) => Some(Number::NotANumber),
        (Number::NegInfinity, Number::NegInfinity) => Some(Number::NotANumber),
        (Number::PosInfinity, _) => Some(Number::PosInfinity),
        (Number::NegInfinity, _) => Some(Number::NegInfinity),
        (_, Number::PosInfinity) => Some(Number::NegInfinity),
        (_, Number::NegInfinity) => Some(Number::PosInfinity),
        (Number::Finite { num: n1, den: d1 }, Number::Finite { num: n2, den: d2 }) => rat_make(
            n1 * d2 - n2 * d1,
            d1 * d2,
        ),
    }
}

pub open spec fn spec_sign(a: Number) -> int {
    match a {
        Number::Finite { num, den } => if num > 0 {
            1
        } else if num < 0 {
            -1
        } else {
            0
        },
        Number::PosInfinity => 1,
        Number::NegInfinity => -1,
        Number::NotANumber => 0,
    }
}

pub open spec fn mul_spec(a: Number, b: Number) -> Option<Number> {
    match (a, b) {
        (Number::NotANumber, _) => Some(Number::NotANumber),
        (_, Number::NotANumber) => Some(Number::NotANumber),
        (Number::Finite { num: n1, den: d1 }, Number::Finite { num: n2, den: d2 }) => rat_make_mag(
            (n1 < 0) != (n2 < 0),
            mag(n1 as int) * mag(n2 as int),
            (d1 * d2) as nat,
        ),
        _ => if spec_sign(a) * spec_sign(b) == 0 {
            Some(Number::NotANumber)
        } else if spec_sign(a) * spec_sign(b) > 0 {
            Some(Number::PosInfinity)
        } else {
            Some(Number::NegInfinity)
        },
    }
}

pub open spec fn div_spec(a: Number, b: Number) -> Option<Number> {
    match (a, b) {
        (Number::NotANumber, _) => Some(Number::NotANumber),
        (_, Number::NotANumber) => Some(Number::NotANumber),
        (Number::Finite { num: n1, den: d1 }, Number::Finite { num: n2, den: d2 }) => if n2 == 0 {
            if n1 == 0 {
                Some(Number::NotANumber)
            } else if n1 > 0 {
                Some(Number::PosInfinity)
            } else {
                Some(Number::NegInfinity)
            }
        } else {
            rat_make_mag((n1 < 0) != (n2 < 0), mag(n1 as int) * (d2 as nat), (d1 as nat) * mag(n2 as int))
        },
        (Number::Finite { num: n1, den: d1 }, _) => Some(Number::Finite { num: 0, den: 1 }),
        (_, Number::Finite { num: n2, den: d2 }) => if (spec_sign(a) > 0) == (n2 >= 0) {
            Some(Number::PosInfinity)
        } else {
            Some(Number::NegInfinity)
        },
        _ => Some(Number::NotANumber),
    }
}

pub open spec fn neg_spec(a: Number) -> Number {
    match a {
        Number::Finite { num, den } => Number::Finite { num: (-(num as int)) as i64, den },
        Number::PosInfinity => Number::NegInfinity,
        Number::NegInfinity => Number::PosInfinity,
        Number::NotANumber => Number::NotANumber,
    }
}

/// Strict order; not-a-number compares false against everything.
pub open spec fn lt_spec(a: Number, b: Number) -> bool {
    match (a, b) {
        (Number::NotANumber, _) => false,
        (_, Number::NotANumber) => false,
        (Number::NegInfinity, Number::NegInfinity) => false,
        (Number::NegInfinity, _) => true,
        (_, Number::NegInfinity) => false,
        (Number::PosInfinity, _) => false,
        (_, Number::PosInfinity) => true,
        (Number::Finite { num: n1, den: d1 }, Number::Finite { num: n2, den: d2 }) => n1 * d2 < n2
            * d1,
    }
}

pub open spec fn le_spec(a: Number, b: Number) -> bool {
    match (a, b) {
        (Number::NotANumber, _) => false,
        (_, Number::NotANumber) => false,
        (Number::NegInfinity, _) => true,
        (_, Number::NegInfinity) => false,
        (_, Number::PosInfinity) => true,
        (Number::PosInfinity, _) => false,
        (Number::Finite { num: n1, den: d1 }, Number::Finite { num: n2, den: d2 }) => n1 * d2 <= n2
            * d1,
    }
}

/// Equality of numeric values; not-a-number equals nothing, itself included.
pub open spec fn eq_spec(a: Number, b: Number) -> bool {
    match (a, b) {
        (Number::NotANumber, _) => false,
        (_, Number::NotANumber) => false,
        (Number::PosInfinity, Number::PosInfinity) => true,
        (Number::NegInfinity, Number::NegInfinity) => true,
        (Number::Finite { num: n1, den: d1 }, Number::Finite { num: n2, den: d2 }) => n1 * d2 == n2
            * d1,
        _ => false,
    }
}

proof fn lemma_mul_bounds(x: int, y: int, a: int, b: int)
    by (nonlinear_arith)
    requires
        -a <= x <= a,
        0 <= y <= b,
        0 <= a,
        0 <= b,
    ensures
        -(a * b) <= x * y <= a * b,
{
}

impl Number {
    /// Converts a signed 128-bit value and positive denominator into the
    /// reduced fraction, when it fits.
    fn from_parts(n: i128, d: u128) -> (r: Option<Number>)
        requires
            1 <= d,
            n > i128::MIN,
        ensures
            r == rat_make(n as int, d as int),
            r matches Some(x) ==> x.wf() && x is Finite,
    {
        let neg = n < 0;
        let m: u128 = if n < 0 {
            (-n) as u128
        } else {
            n as u128
        };
        make_rational(neg, m, d)
    }

    /// The sum; `None` reports a fraction too large to hold.
    pub fn add(&self, other: &Number) -> (r: Option<Number>)
        requires
            self.wf(),
            other.wf(),
        ensures
            r == add_spec(*self, *other),
            r matches Some(x) ==> x.wf(),
    {
        match (self, other) {
            (Number::NotANumber, _) => Some(Number::NotANumber),
            (_, Number::NotANumber) => Some(Number::NotANumber),
            (Number::PosInfinity, Number::NegInfinity) => Some(Number::NotANumber),
            (Number::NegInfinity, Number::PosInfinity) => Some(Number::NotANumber),
            (Number::PosInfinity, _) => Some(Number::PosInfinity),
            (_, Number::PosInfinity) => Some(Number::PosInfinity),
            (Number::NegInfinity, _) => Some(Number::NegInfinity),
            (_, Number::NegInfinity) => Some(Number::NegInfinity),
            (Number::Finite { num: n1, den: d1 }, Number::Finite { num: n2, den: d2 }) => {
                proof {
                    lemma_mul_bounds(*n1 as int, *d2 as int, i64::MAX as int, i64::MAX as int);
                    lemma_mul_bounds(*n2 as int, *d1 as int, i64::MAX as int, i64::MAX as int);
                    lemma_mul_bounds(*d1 as int, *d2 as int, i64::MAX as int, i64::MAX as int);
                    assert((*d1 as int) * (*d2 as int) >= 1) by (nonlinear_arith)
                        requires
                            *d1 >= 1,
                            *d2 >= 1,
                    ;
                }
                let t: i128 = (*n1 as i128) * (*d2 as i128) + (*n2 as i128) * (*d1 as i128);
                let d: i128 = (*d1 as i128) * (*d2 as i128);
                Number::from_parts(t, d as u128)
            },
        }
    }

    /// The difference; `None` reports a fraction too large to hold.
    pub fn sub(&self, other: &Number) -> (r: Option<Number>)
        requires
            self.wf(),
            other.wf(),
        ensures
            r == sub_spec(*self, *other),
            r matches Some(x) ==> x.wf(),
    {
        match (self, other) {
            (Number::NotANumber, _) => Some(Number::NotANumber),
            (_, Number::NotANumber) => Some(Number::NotANumber),
            (Number::PosInfinity, Number::PosInfinity) => Some(Number::NotANumber),
            (Number::NegInfinity, Number::NegInfinity) => Some(Number::NotANumber),
            (Number::PosInfinity, _) => Some(Number::PosInfinity),
            (Number::NegInfinity, _) => Some(Number::NegInfinity),
            (_, Number::PosInfinity) => Some(Number::NegInfinity),
            (_, Number::NegInfinity) => Some(Number::PosInfinity),
            (Number::Finite { num: n1, den: d1 }, Number::Finite { num: n2, den: d2 }) => {
                proof {
                    lemma_mul_bounds(*n1 as int, *d2 as int, i64::MAX as int, i64::MAX as int);
                    lemma_mul_bounds(*n2 as int, *d1 as int, i64::MAX as int, i64::MAX as int);
                    lemma_mul_bounds(*d1 as int, *d2 as int, i64::MAX as int, i64::MAX as int);
                    assert((*d1 as int) * (*d2 as int) >= 1) by (nonlinear_arith)
                        requires
                            *d1 >= 1,
                            *d2 >= 1,
                    ;
                }
                let t: i128 = (*n1 as i128) * (*d2 as i128) - (*n2 as i128) * (*d1 as i128);
                let d: i128 = (*d1 as i128) * (*d2 as i128);
                Number::from_parts(t, d as u128)
            },
        }
    }

    /// The product; `None` reports a fraction too large to hold.
    pub fn mul(&self, other: &Number) -> (r: Option<Number>)
        requires
            self.wf(),
            other.wf(),
        ensures
            r == mul_spec(*self, *other),
            r matches Some(x) ==> x.wf(),
    {
        match (self, other) {
            (Number::NotANumber, _) => Some(Number::NotANumber),
            (_, Number::NotANumber) => Some(Number::NotANumber),
            (Number::Finite { num: n1, den: d1 }, Number::Finite { num: n2, den: d2 }) => {
                let neg = (*n1 < 0) != (*n2 < 0);
                let m1: u128 = if *n1 < 0 {
                    (-(*n1 as i128)) as u128
                } else {
                    *n1 as u128
                };
                let m2: u128 = if *n2 < 0 {
                    (-(*n2 as i128)) as u128
                } else {
                    *n2 as u128
                };
                proof {
                    lemma_mul_bounds(m1 as int, m2 as int, i64::MAX as int, i64::MAX as int);
                    lemma_mul_bounds(*d1 as int, *d2 as int, i64::MAX as int, i64::MAX as int);
                    assert((*d1 as int) * (*d2 as int) >= 1) by (nonlinear_arith)
                        requires
                            *d1 >= 1,
                            *d2 >= 1,
                    ;
                }
                make_rational(neg, m1 * m2, (*d1 as u128) * (*d2 as u128))
            },
            _ => {
                let sa = self.sign_exec();
                let sb = other.sign_exec();
                if sa * sb == 0 {
                    Some(Number::NotANumber)
                } else if sa * sb > 0 {
                    Some(Number::PosInfinity)
                } else {
                    Some(Number::NegInfinity)
                }
            },
        }
    }

    /// The quotient; a division by the zero fraction yields the signed
    /// infinity or not-a-number, silently.
    pub fn div(&self, other: &Number) -> (r: Option<Number>)
        requires
            self.wf(),
            other.wf(),
        ensures
            r == div_spec(*self, *other),
            r matches Some(x) ==> x.wf(),
    {
        match (self, other) {
            (Number::NotANumber, _) => Some(Number::NotANumber),
            (_, Number::NotANumber) => Some(Number::NotANumber),
            (Number::Finite { num: n1, den: d1 }, Number::Finite { num: n2, den: d2 }) => {
                if *n2 == 0 {
                    if *n1 == 0 {
                        Some(Number::NotANumber)
                    } else if *n1 > 0 {
                        Some(Number::PosInfinity)
                    } else {
                        Some(Number::NegInfinity)
                    }
                } else {
                    let neg = (*n1 < 0) != (*n2 < 0);
                    let m1: u128 = if *n1 < 0 {
                        (-(*n1 as i128)) as u128
                    } else {
                        *n1 as u128
                    };
                    let m2: u128 = if *n2 < 0 {
                        (-(*n2 as i128)) as u128
                    } else {
                        *n2 as u128
                    };
                    proof {
                        lemma_mul_bounds(m1 as int, *d2 as int, i64::MAX as int, i64::MAX as int);
                        lemma_mul_bounds(*d1 as int, m2 as int, i64::MAX as int, i64::MAX as int);
                        assert((*d1 as int) * (m2 as int) >= 1) by (nonlinear_arith)
                            requires
                                *d1 >= 1,
                                m2 >= 1,
                        ;
                    }
                    make_rational(neg, m1 * (*d2 as u128), (*d1 as u128) * m2)
                }
            },
            (Number::Finite { num: n1, den: d1 }, _) => Some(Number::Finite { num: 0, den: 1 }),
            (_, Number::Finite { num: n2, den: d2 }) => {
                let pos = matches!(self, Number::PosInfinity);
                if pos == (*n2 >= 0) {
                    Some(Number::PosInfinity)
                } else {
                    Some(Number::NegInfinity)
                }
            },
            _ => Some(Number::NotANumber),
        }
    }

    /// The negation.
    pub fn neg(&self) -> (r: Number)
        requires
            self.wf(),
        ensures
            r == neg_spec(*self),
            r.wf(),
    {
        match self {
            Number::Finite { num, den } => Number::Finite { num: -*num, den: *den },
            Number::PosInfinity => Number::NegInfinity,
            Number::NegInfinity => Number::PosInfinity,
            Number::NotANumber => Number::NotANumber,
        }
    }

    fn sign_exec(&self) -> (s: i8)
        ensures
            s as int == spec_sign(*self),
    {
        match self {
            Number::Finite { num, den } => if *num > 0 {
                1
            } else if *num < 0 {
                -1
            } else {
                0
            },
            Number::PosInfinity => 1,
            Number::NegInfinity => -1,
            Number::NotANumber => 0,
        }
    }

    /// Strict less-than on numeric values.
    pub fn lt(&self, other: &Number) -> (r: bool)
        requires
            self.wf(),
            other.wf(),
        ensures
            r == lt_spec(*self, *other),
    {
        match (self, other) {
            (Number::NotANumber, _) => false,
            (_, Number::NotANumber) => false,
            (Number::NegInfinity, Number::NegInfinity) => false,
            (Number::NegInfinity, _) => true,
            (_, Number::NegInfinity) => false,
            (Number::PosInfinity, _) => false,
            (_, Number::PosInfinity) => true,
            (Number::Finite { num: n1, den: d1 }, Number::Finite { num: n2, den: d2 }) => {
                proof {
                    lemma_mul_bounds(*n1 as int, *d2 as int, i64::MAX as int, i64::MAX as int);
                    lemma_mul_bounds(*n2 as int, *d1 as int, i64::MAX as int, i64::MAX as int);
                }
                (*n1 as i128) * (*d2 as i128) < (*n2 as i128) * (*d1 as i128)
            },
        }
    }

    /// Less-than-or-equal on numeric values.
    pub fn le(&self, other: &Number) -> (r: bool)
        requires
            self.wf(),
            other.wf(),
        ensures
            r == le_spec(*self, *other),
    {
        match (self, other) {
            (Number::NotANumber, _) => false,
            (_, Number::NotANumber) => false,
            (Number::NegInfinity, _) => true,
            (_, Number::NegInfinity) => false,
            (_, Number::PosInfinity) => true,
            (Number::PosInfinity, _) => false,
            (Number::Finite { num: n1, den: d1 }, Number::Finite { num: n2, den: d2 }) => {
                proof {
                    lemma_mul_bounds(*n1 as int, *d2 as int, i64::MAX as int, i64::MAX as int);
                    lemma_mul_bounds(*n2 as int, *d1 as int, i64::MAX as int, i64::MAX as int);
                }
                (*n1 as i128) * (*d2 as i128) <= (*n2 as i128) * (*d1 as i128)
            },
        }
    }

    /// Equality of numeric values; not-a-number equals nothing.
    pub fn same_value(&self, other: &Number) -> (r: bool)
        requires
            self.wf(),
            other.wf(),
        ensures
            r == eq_spec(*self, *other),
    {
        match (self, other) {
            (Number::NotANumber, _) => false,
            (_, Number::NotANumber) => false,
            (Number::PosInfinity, Number::PosInfinity) => true,
            (Number::NegInfinity, Number::NegInfinity) => true,
            (Number::Finite { num: n1, den: d1 }, Number::Finite { num: n2, den: d2 }) => {
                proof {
                    lemma_mul_bounds(*n1 as int, *d2 as int, i64::MAX as int, i64::MAX as int);
                    lemma_mul_bounds(*n2 as int, *d1 as int, i64::MAX as int, i64::MAX as int);
                }
                (*n1 as i128) * (*d2 as i128) == (*n2 as i128) * (*d1 as i128)
            },
            _ => false,
        }
    }
}

/// The largest accumulator that can still take one more decimal digit.
pub const DIGIT_CAP: u128 = (u128::MAX - 9) / 10;

pub open spec fn digit_val(c: char) -> int {
    if c == '0' {
        0
    } else if c == '1' {
        1
    } else if c == '2' {
        2
    } else if c == '3' {
        3
    } else if c == '4' {
        4
    } else if c == '5' {
        5
    } else if c == '6' {
        6
    } else if c == '7' {
        7
    } else if c == '8' {
        8
    } else if c == '9' {
        9
    } else {
        -1
    }
}

/// Accumulates decimal digits of the integer part from position `i` on,
/// stopping at the first non-digit; `None` reports an overflowing run.
pub open spec fn scan_int(s: Seq<char>, i: int, acc: nat) -> Option<(nat, int)>
    decreases s.len() - i,
{
    if i < 0 || i >= s.len() || !crate::text::is_digit_char(s[i]) {
        Some((acc, i))
    } else if acc > DIGIT_CAP {
        None
    } else {
        scan_int(s, i + 1, (acc * 10 + digit_val(s[i])) as nat)
    }
}

/// Accumulates fraction digits, carrying the growing power-of-ten
/// denominator along; `None` reports an overflowing run.
pub open spec fn scan_frac(s: Seq<char>, i: int, acc: nat, den: nat) -> Option<(nat, nat, int)>
    decreases s.len() - i,
{
    if i < 0 || i >= s.len() || !crate::text::is_digit_char(s[i]) {
        Some((acc, den, i))
    } else if acc > DIGIT_CAP || den > DIGIT_CAP {
        None
    } else {
        scan_frac(s, i + 1, (acc * 10 + digit_val(s[i])) as nat, den * 10)
    }
}

/// The number denoted by a literal of the form digits, optionally
/// followed by a point and more digits; anything else is `None`, as is
/// a literal too large to hold.
pub open spec fn from_decimal_spec(s: Seq<char>) -> Option<Number> {
    match scan_int(s, 0, 0) {
        None => None,
        Some((m, i)) => {
            if i == 0 {
                None
            } else if i == s.len() {
                rat_make_mag(false, m, 1)
            } else if s[i] != '.' {
                None
            } else {
                match scan_frac(s, i + 1, m, 1) {
                    None => None,
                    Some((m2, den, j)) => {
                        if j == i + 1 || j != s.len() {
                            None
                        } else {
                            rat_make_mag(false, m2, den)
                        }
                    },
                }
            }
        },
    }
}

fn digit_val_exec(c: char) -> (d: i8)
    ensures
        d as int == digit_val(c),
{
    if c == '0' {
        0
    } else if c == '1' {
        1
    } else if c == '2' {
        2
    } else if c == '3' {
        3
    } else if c == '4' {
        4
    } else if c == '5' {
        5
    } else if c == '6' {
        6
    } else if c == '7' {
        7
    } else if c == '8' {
        8
    } else if c == '9' {
        9
    } else {
        -1
    }
}

fn is_digit_at(s: &str, i: usize) -> (r: bool)
    requires
        i < s@.len(),
    ensures
        r == crate::text::is_digit_char(s@[i as int]),
{
    let c = s.get_char(i);
    '0' <= c && c <= '9'
}

impl Number {
    /// Reads a number literal (digits, optionally a point and digits).
    pub fn from_decimal_str(s: &str) -> (r: Option<Number>)
        ensures
            r == from_decimal_spec(s@),
            r matches Some(x) ==> x.wf() && x is Finite,
    {
        let len = s.unicode_len();
        let mut i: usize = 0;
        let mut mant: u128 = 0;
        while i < len && is_digit_at(s, i)
            invariant
                len == s@.len(),
                i <= len,
                scan_int(s@, 0, 0) == scan_int(s@, i as int, mant as nat),
            decreases len - i,
        {
            if mant > DIGIT_CAP {
                proof {
                    assert(scan_int(s@, i as int, mant as nat) == None::<(nat, int)>);
                }
                return None;
            }
            let c = s.get_char(i);
            let d = digit_val_exec(c);
            mant = mant * 10 + (d as u128);
            i = i + 1;
        }
        proof {
            assert(scan_int(s@, i as int, mant as nat) == Some((mant as nat, i as int)));
        }
        if i == 0 {
            return None;
        }
        if i == len {
            return make_rational(false, mant, 1);
        }
        if s.get_char(i) != '.' {
            return None;
        }
        let frac_start = i + 1;
        let ghost mant0: nat = mant as nat;
        let mut j: usize = frac_start;
        let mut den: u128 = 1;
        while j < len && is_digit_at(s, j)
            invariant
                len == s@.len(),
                frac_start <= j <= len,
                frac_start == i + 1,
                1 <= i < len,
                1 <= den,
                scan_int(s@, 0, 0) == Some((mant0, i as int)),
                s@[i as int] == '.',
                scan_frac(s@, frac_start as int, mant0, 1) == scan_frac(
                    s@,
                    j as int,
                    mant as nat,
                    den as nat,
                ),
            decreases len - j,
        {
            if mant > DIGIT_CAP || den > DIGIT_CAP {
                proof {
                    assert(scan_frac(s@, j as int, mant as nat, den as nat) == None::<
                        (nat, nat, int),
                    >);
                }
                return None;
            }
            let c = s.get_char(j);
            let d = digit_val_exec(c);
            mant = mant * 10 + (d as u128);
            den = den * 10;
            j = j + 1;
        }
        proof {
            assert(scan_frac(s@, j as int, mant as nat, den as nat) == Some(
                (mant as nat, den as nat, j as int),
            ));
        }
        if j == frac_start {
            return None;
        }
        if j != len {
            return None;
        }
        make_rational(false, mant, den)
    }
}


/// Searches for the smallest power of ten that makes the numerator
/// magnitude exactly divisible by the denominator, so that the value
/// has a finite decimal expansion; the search is bounded.
pub open spec fn find_scale(den: nat, acc: nat, k: nat) -> Option<(nat, nat)>
    decreases 100 - k,
{
    if den == 0 {
        None
    } else if acc % den == 0 {
        Some((acc, k))
    } else if k >= 100 || acc > u128::MAX / 10 {
        None
    } else {
        find_scale(den, acc * 10, k + 1)
    }
}

/// Drops trailing zero digits of the expansion, one per remaining
/// fractional place.
pub open spec fn strip_zeros(q: nat, k: nat) -> (nat, nat)
    decreases k,
{
    if k == 0 || q % 10 != 0 {
        (q, k)
    } else {
        strip_zeros(q / 10, (k - 1) as nat)
    }
}

pub open spec fn pad_zeros(n: nat) -> Seq<char>
    decreases n,
{
    if n == 0 {
        Seq::empty()
    } else {
        pad_zeros((n - 1) as nat).push('0')
    }
}

/// The canonical text of a finite fraction: a minus sign for negative
/// values, then the decimal expansion with no trailing fractional
/// zeros when one exists, else the two parts split by a solidus.
pub open spec fn number_text(num: int, den: nat) -> Seq<char> {
    let sign: Seq<char> = if num < 0 {
        seq!['-']
    } else {
        Seq::empty()
    };
    match find_scale(den, mag(num), 0) {
        Some((acc, k)) => {
            let q = acc / den;
            let (q2, k2) = strip_zeros(q, k);
            let ds = crate::text::dec_digits(q2);
            let body: Seq<char> = if k2 == 0 {
                ds
            } else if ds.len() > k2 {
                ds.subrange(0, ds.len() - k2) + seq!['.'] + ds.subrange(
                    ds.len() - k2,
                    ds.len() as int,
                )
            } else {
                seq!['0', '.'] + pad_zeros((k2 - ds.len()) as nat) + ds
            };
            sign + body
        },
        None => sign + crate::text::dec_digits(mag(num)) + seq!['/'] + crate::text::dec_digits(den),
    }
}

/// The displayed text of a number.
pub open spec fn display_spec(n: Number) -> Seq<char> {
    match n {
        Number::Finite { num, den } => number_text(num as int, den as nat),
        Number::PosInfinity => seq!['i', 'n', 'f'],
        Number::NegInfinity => seq!['-', 'i', 'n', 'f'],
        Number::NotANumber => seq!['N', 'a', 'N'],
    }
}

impl Number {
    /// Renders the number: the exact decimal expansion where one
    /// exists, with no trailing fractional zeros.
    pub fn display(&self) -> (r: String)
        requires
            self.wf(),
        ensures
            r@ == display_spec(*self),
    {
        match self {
            Number::PosInfinity => {
                let v: Vec<char> = vec!['i', 'n', 'f'];
                proof {
                    assert(v@ =~= display_spec(*self));
                }
                crate::text::chars_to_string(&v)
            },
            Number::NegInfinity => {
                let v: Vec<char> = vec!['-', 'i', 'n', 'f'];
                proof {
                    assert(v@ =~= display_spec(*self));
                }
                crate::text::chars_to_string(&v)
            },
            Number::NotANumber => {
                let v: Vec<char> = vec!['N', 'a', 'N'];
                proof {
                    assert(v@ =~= display_spec(*self));
                }
                crate::text::chars_to_string(&v)
            },
            Number::Finite { num, den } => {
                let neg = *num < 0;
                let m: u128 = if *num < 0 {
                    (-(*num as i128)) as u128
                } else {
                    *num as u128
                };
                let denu = *den as u128;
                let mut acc: u128 = m;
                let mut k: usize = 0;
                while acc % denu != 0 && k < 100 && acc <= u128::MAX / 10
                    invariant
                        1 <= denu,
                        k <= 100,
                        find_scale(denu as nat, m as nat, 0) == find_scale(
                            denu as nat,
                            acc as nat,
                            k as nat,
                        ),
                    decreases 100 - k,
                {
                    acc = acc * 10;
                    k = k + 1;
                }
                let mut out: Vec<char> = Vec::new();
                if neg {
                    out.push('-');
                }
                let ghost sign: Seq<char> = if neg {
                    seq!['-']
                } else {
                    Seq::empty()
                };
                proof {
                    assert(out@ =~= sign);
                }
                if acc % denu == 0 {
                    proof {
                        assert(find_scale(denu as nat, acc as nat, k as nat) == Some(
                            (acc as nat, k as nat),
                        ));
                    }
                    let mut q = acc / denu;
                    let ghost q0: nat = q as nat;
                    let ghost k0: nat = k as nat;
                    while k > 0 && q % 10 == 0
                        invariant
                            strip_zeros(q0, k0) == strip_zeros(q as nat, k as nat),
                        decreases k,
                    {
                        q = q / 10;
                        k = k - 1;
                    }
                    proof {
                        assert(strip_zeros(q as nat, k as nat) == (q as nat, k as nat));
                    }
                    let ds = crate::text::digits_of(q);
                    if k == 0 {
                        crate::text::push_chars(&mut out, &ds);
                    } else if ds.len() > k {
                        let split = ds.len() - k;
                        let mut t: usize = 0;
                        while t < split
                            invariant
                                split <= ds@.len(),
                                t <= split,
                                out@ == sign + ds@.subrange(0, t as int),
                            decreases split - t,
                        {
                            out.push(ds[t]);
                            proof {
                                assert(out@ =~= sign + ds@.subrange(0, t + 1 as int));
                            }
                            t = t + 1;
                        }
                        out.push('.');
                        proof {
                            assert(out@ =~= sign + ds@.subrange(0, split as int) + seq!['.']);
                        }
                        let ghost mid: Seq<char> = out@;
                        while t < ds.len()
                            invariant
                                split <= t <= ds@.len(),
                                out@ == mid + ds@.subrange(split as int, t as int),
                                mid == sign + ds@.subrange(0, split as int) + seq!['.'],
                                split <= ds@.len(),
                            decreases ds@.len() - t,
                        {
                            out.push(ds[t]);
                            proof {
                                assert(out@ =~= mid + ds@.subrange(split as int, t + 1 as int));
                            }
                            t = t + 1;
                        }
                        proof {
                            assert(out@ =~= sign + (ds@.subrange(0, split as int) + seq!['.']
                                + ds@.subrange(split as int, ds@.len() as int)));
                        }
                    } else {
                        out.push('0');
                        out.push('.');
                        let pad = k - ds.len();
                        let ghost base: Seq<char> = out@;
                        let mut z: usize = 0;
                        while z < pad
                            invariant
                                z <= pad,
                                out@ == base + pad_zeros(z as nat),
                            decreases pad - z,
                        {
                            out.push('0');
                            proof {
                                assert(out@ =~= base + pad_zeros((z + 1) as nat));
                            }
                            z = z + 1;
                        }
                        crate::text::push_chars(&mut out, &ds);
                        proof {
                            assert(out@ =~= sign + (seq!['0', '.'] + pad_zeros(pad as nat)
                                + ds@));
                        }
                    }
                    proof {
                        assert(out@ =~= display_spec(*self));
                    }
                    crate::text::chars_to_string(&out)
                } else {
                    let dm = crate::text::digits_of(m);
                    crate::text::push_chars(&mut out, &dm);
                    out.push('/');
                    let dd = crate::text::digits_of(denu);
                    crate::text::push_chars(&mut out, &dd);
                    proof {
                        assert(out@ =~= display_spec(*self));
                    }
                    crate::text::chars_to_string(&out)
                }
            },
        }
    }
}

/// A whole number displays as its plain digit string: no decimal
/// point and no trailing zero fraction ever appear.
pub proof fn lemma_display_integral(num: i64, den: i64)
    requires
        den == 1,
        num > i64::MIN,
    ensures
        display_spec(Number::Finite { num, den }) == (if num < 0 {
            seq!['-']
        } else {
            Seq::<char>::empty()
        }) + crate::text::dec_digits(mag(num as int)),
{
    let m = mag(num as int);
    assert(m % 1 == 0);
    assert(find_scale(1, m, 0) == Some((m, 0nat)));
    assert(m / 1 == m);
    assert(strip_zeros(m, 0) == (m, 0nat));
}

} // verus!
