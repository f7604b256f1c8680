use crate::rounding::{
    at_midpoint, ceil_div, floor_div, lemma_neg_divmod, lemma_neg_parity, lemma_round_val_in_range,
    lemma_sel_between, naive_round, round_sel, round_val, RoundingMode,
};
use rust_decimal::MathematicalOps;
use vstd::prelude::*;

verus! {

/// Number of decimal places carried by every `Scalar` value.
pub const SCALE: u32 = 20;

/// Mantissa of the value one: `10^SCALE`.
pub const UNIT: i128 = 100_000_000_000_000_000_000;

/// Largest mantissa a `Scalar` may carry: `10^28`, i.e. values up to `10^8`.
pub const MANTISSA_LIMIT: i128 = 10_000_000_000_000_000_000_000_000_000;

/// A fixed-point decimal scalar: the value is `mantissa / 10^SCALE`.
///
/// Every operation saturates at `MANTISSA_LIMIT` instead of overflowing, so
/// all arithmetic is total and deterministic. Contracts describe results at
/// the mantissa level: a spec value `v: int` stands for the number
/// `v / 10^SCALE`.
#[derive(Clone, Copy, Debug, PartialEq, Eq, Structural)]
pub struct Scalar {
    m: i128,
}

/// Whether a mantissa is within the representable range.
pub open spec fn in_range(v: int) -> bool {
    -(MANTISSA_LIMIT as int) <= v <= MANTISSA_LIMIT as int
}

/// Saturate a mantissa into the representable range.
pub open spec fn clamp_v(v: int) -> int {
    if v > MANTISSA_LIMIT as int {
        MANTISSA_LIMIT as int
    } else if v < -(MANTISSA_LIMIT as int) {
        -(MANTISSA_LIMIT as int)
    } else {
        v
    }
}

/// Truncating division (rounds toward zero), for a nonzero divisor.
pub open spec fn tdiv(x: int, d: int) -> int
    recommends
        d != 0,
{
    let q = abs_i(x) / abs_i(d);
    if (x < 0) <==> (d < 0) {
        q
    } else {
        -q
    }
}

/// Absolute value of a spec integer.
pub open spec fn abs_i(x: int) -> int {
    if x < 0 {
        -x
    } else {
        x
    }
}

/// Saturating addition of two mantissas.
pub open spec fn add_v(a: int, b: int) -> int {
    clamp_v(a + b)
}

/// Saturating subtraction of two mantissas.
pub open spec fn sub_v(a: int, b: int) -> int {
    clamp_v(a - b)
}

/// Negation of a mantissa.
pub open spec fn neg_v(a: int) -> int {
    -a
}

/// Saturating fixed-point product: the exact product truncated toward zero
/// at `SCALE` decimal places, then clamped.
pub open spec fn mul_v(a: int, b: int) -> int {
    clamp_v(tdiv(a * b, UNIT as int))
}

/// Total fixed-point quotient: `a / b` truncated toward zero at `SCALE`
/// decimal places, clamped; division by zero saturates with the sign of `a`.
pub open spec fn div_v(a: int, b: int) -> int {
    if b == 0 {
        if a < 0 {
            -(MANTISSA_LIMIT as int)
        } else {
            MANTISSA_LIMIT as int
        }
    } else {
        clamp_v(tdiv(a * UNIT as int, b))
    }
}

/// Absolute value at the mantissa level.
pub open spec fn abs_v(a: int) -> int {
    abs_i(a)
}

/// Smaller of two mantissas.
pub open spec fn min_v(a: int, b: int) -> int {
    if a < b {
        a
    } else {
        b
    }
}

/// Larger of two mantissas.
pub open spec fn max_v(a: int, b: int) -> int {
    if a > b {
        a
    } else {
        b
    }
}

/// The mantissa denoting the integer `n`, saturated.
pub open spec fn from_int_v(n: int) -> int {
    clamp_v(n * UNIT as int)
}

/// The mantissas of a sequence of scalars.
pub open spec fn views(s: Seq<Scalar>) -> Seq<int> {
    s.map_values(|x: Scalar| x@)
}

/// The mantissas of a sequence of scalar pairs.
pub open spec fn views_pairs(s: Seq<(Scalar, Scalar)>) -> Seq<(int, int)> {
    s.map_values(|p: (Scalar, Scalar)| (p.0@, p.1@))
}

/// The mantissa and day offset of a sequence of dated cash flows.
pub open spec fn views_dated(s: Seq<(Scalar, i32)>) -> Seq<(int, int)> {
    s.map_values(|p: (Scalar, i32)| (p.0@, p.1 as int))
}

/// The mantissa of an optional scalar, defaulting to zero.
pub open spec fn opt_v(o: Option<Scalar>) -> int {
    match o {
        Some(x) => x@,
        None => 0,
    }
}

/// An optional flag, defaulting to false.
pub open spec fn opt_flag(o: Option<bool>) -> bool {
    match o {
        Some(b) => b,
        None => false,
    }
}

impl View for Scalar {
    type V = int;

    closed spec fn view(&self) -> int {
        self.m as int
    }
}

impl Scalar {
    #[verifier::type_invariant]
    spec fn inv(self) -> bool {
        in_range(self.m as int)
    }

    /// The value zero.
    pub fn zero() -> (r: Scalar)
        ensures
            r@ == 0,
    {
        Scalar { m: 0 }
    }

    /// The value one.
    pub fn one() -> (r: Scalar)
        ensures
            r@ == UNIT as int,
    {
        Scalar { m: UNIT }
    }

    /// The value two.
    pub fn two() -> (r: Scalar)
        ensures
            r@ == 2 * UNIT as int,
    {
        Scalar { m: 2 * UNIT }
    }

    /// The largest representable value.
    pub fn max_value() -> (r: Scalar)
        ensures
            r@ == MANTISSA_LIMIT as int,
    {
        Scalar { m: MANTISSA_LIMIT }
    }

    /// Build a value from an integer mantissa and a number of decimal places:
    /// the result is `mantissa / 10^scale`.
    pub fn from_parts(mantissa: i64, scale: u32) -> (r: Scalar)
        requires
            scale <= SCALE,
            abs_i(mantissa as int) * pow10((SCALE - scale) as nat) <= MANTISSA_LIMIT as int,
        ensures
            r@ == mantissa as int * pow10((SCALE - scale) as nat),
    {
        let f = pow10_exec(SCALE - scale);
        proof {
            pow10_positive((SCALE - scale) as nat);
            pow10_le_limit((SCALE - scale) as nat);
            let a = mantissa as int;
            let p = pow10((SCALE - scale) as nat);
            assert((abs_i(a) * p == abs_i(a * p)) && (abs_i(a * p) <= MANTISSA_LIMIT as int ==> {
                &&& a * p <= MANTISSA_LIMIT as int
                &&& -(MANTISSA_LIMIT as int) <= a * p
            })) by (nonlinear_arith)
                requires
                    p >= 1,
            ;
        }
        Scalar { m: (mantissa as i128) * (f as i128) }
    }

    /// True when the value is exactly zero.
    pub fn is_zero(&self) -> (r: bool)
        ensures
            r == (self@ == 0),
    {
        self.m == 0
    }

    /// Saturating addition.
    pub fn add(self, other: Scalar) -> (r: Scalar)
        ensures
            r@ == add_v(self@, other@),
    {
        proof {
            use_type_invariant(self);
            use_type_invariant(other);
        }
        Scalar { m: clamp_exec(self.m + other.m) }
    }

    /// Saturating subtraction.
    pub fn sub(self, other: Scalar) -> (r: Scalar)
        ensures
            r@ == sub_v(self@, other@),
    {
        proof {
            use_type_invariant(self);
            use_type_invariant(other);
        }
        Scalar { m: clamp_exec(self.m - other.m) }
    }

    /// Negation.
    pub fn neg(self) -> (r: Scalar)
        ensures
            r@ == neg_v(self@),
    {
        proof {
            use_type_invariant(self);
        }
        Scalar { m: -self.m }
    }

    /// Absolute value.
    pub fn abs(&self) -> (r: Scalar)
        ensures
            r@ == abs_v(self@),
    {
        proof {
            use_type_invariant(*self);
        }
        if self.m < 0 {
            Scalar { m: -self.m }
        } else {
            Scalar { m: self.m }
        }
    }

    /// Smaller of two values.
    pub fn min(self, other: Scalar) -> (r: Scalar)
        ensures
            r@ == min_v(self@, other@),
    {
        if self.m < other.m {
            self
        } else {
            other
        }
    }

    /// Larger of two values.
    pub fn max(self, other: Scalar) -> (r: Scalar)
        ensures
            r@ == max_v(self@, other@),
    {
        if self.m > other.m {
            self
        } else {
            other
        }
    }

    /// Strictly-less comparison.
    pub fn lt(&self, other: &Scalar) -> (r: bool)
        ensures
            r == (self@ < other@),
    {
        self.m < other.m
    }

    /// Less-or-equal comparison.
    pub fn le(&self, other: &Scalar) -> (r: bool)
        ensures
            r == (self@ <= other@),
    {
        self.m <= other.m
    }

    /// Strictly-greater comparison.
    pub fn gt(&self, other: &Scalar) -> (r: bool)
        ensures
            r == (self@ > other@),
    {
        self.m > other.m
    }

    /// The value of an unsigned count, saturated.
    pub fn from_usize(n: usize) -> (r: Scalar)
        ensures
            r@ == from_int_v(n as int),
    {
        if n > 100_000_000 {
            Scalar { m: MANTISSA_LIMIT }
        } else {
            Scalar { m: (n as i128) * UNIT }
        }
    }

    /// The raw mantissa: the value is `mantissa / 10^SCALE`.
    pub fn mantissa(&self) -> (r: i128)
        ensures
            r as int == self@,
    {
        self.m
    }

    /// Build a value directly from a mantissa at the working scale,
    /// saturated into the representable range.
    pub fn from_mantissa(m: i128) -> (r: Scalar)
        ensures
            r@ == clamp_v(m as int),
    {
        Scalar { m: clamp_exec(m) }
    }

    /// The value of a wide unsigned count, saturated.
    pub(crate) fn from_u128(n: u128) -> (r: Scalar)
        ensures
            r@ == from_int_v(n as int),
    {
        if n > 100_000_000 {
            Scalar { m: MANTISSA_LIMIT }
        } else {
            Scalar { m: (n as i128) * UNIT }
        }
    }

    /// The value of a 16-bit count.
    pub fn from_u16(n: u16) -> (r: Scalar)
        ensures
            r@ == from_int_v(n as int),
    {
        Scalar { m: (n as i128) * UNIT }
    }

    /// The value of a 32-bit signed integer, saturated.
    pub fn from_i32(n: i32) -> (r: Scalar)
        ensures
            r@ == from_int_v(n as int),
    {
        if n > 100_000_000 {
            Scalar { m: MANTISSA_LIMIT }
        } else if n < -100_000_000 {
            Scalar { m: -MANTISSA_LIMIT }
        } else {
            Scalar { m: (n as i128) * UNIT }
        }
    }

    /// Real-exponent power, computed by `rust_decimal` behind the trusted
    /// `powd_parts` wrapper; overflow saturates at the largest value.
    pub fn powf(self, n: Scalar) -> (r: Scalar)
        ensures
            r@ == pow_val(self@, n@),
    {
        proof {
            use_type_invariant(self);
            use_type_invariant(n);
        }
        match powd_parts(self.m, n.m) {
            Some((m, s)) => rescale_to_unit(m, s),
            None => Scalar::max_value(),
        }
    }
}

impl Scalar {
    /// Round to `dp` decimal places under the given mode.
    ///
    /// Midpoints are exact in this representation, so the tie-break
    /// `epsilon` (needed where a binary encoding blurs `.5` boundaries) is
    /// accepted for interface uniformity but never consulted.
    #[allow(unused_variables)]
    pub fn round_with_mode(&self, dp: u32, mode: RoundingMode, epsilon: Scalar) -> (r: Scalar)
        ensures
            r@ == round_val(self@, dp as nat, mode),
    {
        proof {
            use_type_invariant(*self);
        }
        if dp >= SCALE {
            return *self;
        }
        let f = pow10_exec(SCALE - dp);
        let neg = self.m < 0;
        let mag = mag_of(self.m);
        let q = mag / f;
        let r = mag % f;
        let is_mid = 2 * r == f;
        let ghost v = self@;
        let ghost fi = f as int;
        proof {
            vstd::arithmetic::div_mod::lemma_fundamental_div_mod(mag as int, fi);
            crate::rounding::pow10_mono_ge_ten((SCALE - dp) as nat);
            if neg {
                lemma_neg_divmod(mag as int, fi, q as int, r as int);
            }
            lemma_neg_parity(q as int);
        }
        let qi = q as i128;
        let fl: i128 = if !neg {
            qi
        } else if r == 0 {
            -qi
        } else {
            -qi - 1
        };
        let ce: i128 = if !neg {
            if r == 0 {
                qi
            } else {
                qi + 1
            }
        } else {
            -qi
        };
        let fl_even: bool = if !neg || r == 0 {
            q % 2 == 0
        } else {
            q % 2 == 1
        };
        let naive: i128 = if !neg {
            if 2 * r >= f {
                qi + 1
            } else {
                qi
            }
        } else {
            if r == 0 {
                -qi
            } else if f <= 2 * r {
                -qi - 1
            } else {
                -qi
            }
        };
        proof {
            assert(fl == floor_div(v, fi));
            assert(ce == ceil_div(v, fi));
            assert(is_mid == at_midpoint(v, fi));
            assert(naive == naive_round(v, fi));
            assert(fl_even == (floor_div(v, fi) % 2 == 0));
        }
        let sel: i128 = match mode {
            RoundingMode::HalfToEven => if !is_mid {
                naive
            } else if fl_even {
                fl
            } else {
                ce
            },
            RoundingMode::HalfAwayFromZero => if !is_mid {
                naive
            } else if self.m > 0 {
                ce
            } else {
                fl
            },
            RoundingMode::HalfTowardZero => if !is_mid {
                naive
            } else if self.m > 0 {
                fl
            } else {
                ce
            },
            RoundingMode::TowardZero => if self.m > 0 {
                fl
            } else {
                ce
            },
            RoundingMode::AwayFromZero => if self.m > 0 {
                ce
            } else {
                fl
            },
            RoundingMode::ToNegativeInfinity => fl,
            RoundingMode::ToInfinity => ce,
        };
        proof {
            assert(sel == round_sel(v, fi, mode));
            lemma_sel_between(v, fi, mode);
            lemma_round_val_in_range(v, dp as nat, mode);
            assert(round_val(v, dp as nat, mode) == sel * fi);
            assert(abs_i(sel * fi) <= MANTISSA_LIMIT as int);
        }
        Scalar { m: sel * (f as i128) }
    }

    /// Saturating fixed-point multiplication.
    pub fn mul(self, other: Scalar) -> (r: Scalar)
        ensures
            r@ == mul_v(self@, other@),
    {
        proof {
            use_type_invariant(self);
            use_type_invariant(other);
        }
        let neg = (self.m < 0) != (other.m < 0);
        let ma = mag_of(self.m);
        let mb = mag_of(other.m);
        let mag = mul_mag(ma, mb);
        let magc = if mag > LIMIT_MAG {
            LIMIT_MAG
        } else {
            mag
        };
        proof {
            let a = self@;
            let b = other@;
            let u = UNIT as int;
            assert((abs_i(a * b) == abs_i(a) * abs_i(b)) && ((a < 0) != (b < 0) && a * b != 0 ==> a
                * b < 0) && ((a < 0) == (b < 0) ==> a * b >= 0)) by (nonlinear_arith);
            vstd::arithmetic::div_mod::lemma_div_pos_is_pos(abs_i(a * b), u);
            if a * b >= 0 {
                assert(tdiv(a * b, u) == mag as int);
            } else {
                assert(tdiv(a * b, u) == -(mag as int));
            }
        }
        if neg {
            Scalar { m: -(magc as i128) }
        } else {
            Scalar { m: magc as i128 }
        }
    }

    /// Total fixed-point division; a zero divisor saturates with the sign of
    /// the dividend.
    pub fn div(self, other: Scalar) -> (r: Scalar)
        ensures
            r@ == div_v(self@, other@),
    {
        proof {
            use_type_invariant(self);
            use_type_invariant(other);
        }
        if other.m == 0 {
            if self.m < 0 {
                return Scalar { m: -MANTISSA_LIMIT };
            } else {
                return Scalar { m: MANTISSA_LIMIT };
            }
        }
        let neg = (self.m < 0) != (other.m < 0);
        let ma = mag_of(self.m);
        let mb = mag_of(other.m);
        let mag = div_mag(ma, mb);
        proof {
            let a = self@;
            let b = other@;
            let u = UNIT as int;
            assert((abs_i(a * u) == abs_i(a) * u) && ((a < 0) != (b < 0) && a * u != 0 && b != 0
                ==> ((a * u < 0) <==> !(b < 0))) && ((a < 0) == (b < 0) ==> ((a * u < 0) <==> (b
                < 0)) || a * u == 0)) by (nonlinear_arith)
                requires
                    u > 0,
            ;
            vstd::arithmetic::div_mod::lemma_div_pos_is_pos(abs_i(a * u), abs_i(b));
            if (a < 0) == (b < 0) {
                assert(tdiv(a * u, b) == abs_i(a) * u / abs_i(b));
            } else {
                assert(tdiv(a * u, b) == -(abs_i(a) * u / abs_i(b)));
            }
        }
        if neg {
            Scalar { m: -(mag as i128) }
        } else {
            Scalar { m: mag as i128 }
        }
    }
}

/// Largest mantissa a `rust_decimal` value can carry: `2^96 - 1`.
const MAX96: i128 = 79_228_162_514_264_337_593_543_950_335;

/// What `rust_decimal`'s `checked_powd` returns for two operands given as
/// scale-`SCALE` mantissas: the `(mantissa, scale)` pair of the resulting
/// decimal, or `None` when the power overflows. The result is a pure
/// function of the operands.
pub uninterp spec fn pow_parts(base: int, exponent: int) -> Option<(int, nat)>;

/// Relies on `rust_decimal`: `Decimal::from_i128_with_scale` builds the
/// decimal `m * 10^-s` (its documented panics are excluded by `requires`),
/// `checked_powd` computes the power or reports overflow as `None`, and
/// `mantissa`/`scale` read the parts back. A decimal's scale is at most 28
/// and its mantissa fits in 96 bits.
#[verifier::external_body]
fn powd_parts(bm: i128, em: i128) -> (r: Option<(i128, u32)>)
    requires
        in_range(bm as int),
        in_range(em as int),
    ensures
        match r {
            Some(p) => pow_parts(bm as int, em as int) == Some((p.0 as int, p.1 as nat)) && p.1
                <= 28 && -MAX96 <= p.0 <= MAX96,
            None => pow_parts(bm as int, em as int) is None,
        },
        em == 0 ==> r == Some((1i128, 0u32)),
{
    let b = rust_decimal::Decimal::from_i128_with_scale(bm, SCALE);
    let e = rust_decimal::Decimal::from_i128_with_scale(em, SCALE);
    b.checked_powd(e).map(|d| (d.mantissa(), d.scale()))
}

/// The mantissa denoted by a decimal `(mantissa, scale)` pair brought to the
/// working scale: extra digits are truncated toward zero, missing digits are
/// appended, and out-of-range magnitudes saturate.
pub open spec fn rescaled_v(m: int, s: nat) -> int {
    if s >= SCALE {
        clamp_v(tdiv(m, pow10((s - SCALE) as nat)))
    } else {
        clamp_v(m * pow10((SCALE - s) as nat))
    }
}

/// The mantissa of a power result: overflow saturates at the largest value.
pub open spec fn pow_val(b: int, e: int) -> int {
    match pow_parts(b, e) {
        Some(p) => rescaled_v(p.0, p.1),
        None => MANTISSA_LIMIT as int,
    }
}

/// Bring a decimal `(mantissa, scale)` pair to the working scale.
fn rescale_to_unit(m: i128, s: u32) -> (r: Scalar)
    requires
        s <= 28,
        -MAX96 <= m && m <= MAX96,
    ensures
        r@ == rescaled_v(m as int, s as nat),
{
    let neg = m < 0;
    let mag: u128 = if m < 0 {
        (-m) as u128
    } else {
        m as u128
    };
    if s >= SCALE {
        let f = pow10_exec(s - SCALE);
        let q = mag / f;
        let qc = if q > LIMIT_MAG {
            LIMIT_MAG
        } else {
            q
        };
        proof {
            let mi = m as int;
            let fi = f as int;
            vstd::arithmetic::div_mod::lemma_div_pos_is_pos(mag as int, fi);
            assert(abs_i(mi) == mag as int);
            assert(tdiv(mi, fi) == if mi < 0 {
                -(q as int)
            } else {
                q as int
            });
        }
        if neg {
            Scalar { m: -(qc as i128) }
        } else {
            Scalar { m: qc as i128 }
        }
    } else {
        let k = SCALE - s;
        let f = pow10_exec(k);
        proof {
            crate::rounding::pow10_adds((28 - k) as nat, k as nat);
            crate::rounding::pow10_28_is_limit();
            pow10_positive((28 - k) as nat);
            pow10_le_limit((28 - k) as nat);
            let c = pow10((28 - k) as nat);
            let fi = f as int;
            vstd::arithmetic::div_mod::lemma_div_multiples_vanish(c, fi);
            assert(fi * c == c * fi) by (nonlinear_arith);
            assert(c * fi == MANTISSA_LIMIT as int);
            assert(LIMIT_MAG as int / fi == c);
        }
        let lim_over_f = LIMIT_MAG / f;
        let ghost c = pow10((28 - k) as nat);
        let ghost fi = f as int;
        let ghost mi = m as int;
        if mag > lim_over_f {
            proof {
                assert(mag as int * fi > c * fi) by (nonlinear_arith)
                    requires
                        mag as int > c,
                        fi > 0,
                ;
                assert(mi * fi == if mi < 0 {
                    -(mag as int * fi)
                } else {
                    mag as int * fi
                }) by (nonlinear_arith)
                    requires
                        mag as int == abs_i(mi),
                        fi > 0,
                ;
            }
            if neg {
                Scalar { m: -MANTISSA_LIMIT }
            } else {
                Scalar { m: MANTISSA_LIMIT }
            }
        } else {
            proof {
                assert(mag as int * fi <= c * fi) by (nonlinear_arith)
                    requires
                        mag as int <= c,
                        fi > 0,
                ;
                assert(mag as int * fi >= 0) by (nonlinear_arith)
                    requires
                        mag as int >= 0,
                        fi > 0,
                ;
                assert(mi * fi == if mi < 0 {
                    -(mag as int * fi)
                } else {
                    mag as int * fi
                }) by (nonlinear_arith)
                    requires
                        mag as int == abs_i(mi),
                        fi > 0,
                ;
            }
            let prod = mag * f;
            if neg {
                Scalar { m: -(prod as i128) }
            } else {
                Scalar { m: prod as i128 }
            }
        }
    }
}

/// `10^10`, the digit-split radix used by the wide arithmetic helpers.
const E10: u128 = 10_000_000_000;

/// `10^20` as an unsigned word: the mantissa of one.
const E20: u128 = 100_000_000_000_000_000_000;

/// The mantissa limit as an unsigned word.
const LIMIT_MAG: u128 = 10_000_000_000_000_000_000_000_000_000;

/// Magnitude of an in-range mantissa.
fn mag_of(m: i128) -> (r: u128)
    requires
        in_range(m as int),
    ensures
        r as int == abs_i(m as int),
        r <= LIMIT_MAG,
{
    if m < 0 {
        (-m) as u128
    } else {
        m as u128
    }
}

/// `(a * b) / 10^SCALE` on magnitudes, computed without overflowing by
/// splitting each factor at `10^10`.
#[verifier::rlimit(60)]
#[verifier::spinoff_prover]
fn mul_mag(a: u128, b: u128) -> (r: u128)
    requires
        a <= LIMIT_MAG,
        b <= LIMIT_MAG,
    ensures
        r as int == (a as int * b as int) / (UNIT as int),
{
    let h1 = a / E10;
    let l1 = a % E10;
    let h2 = b / E10;
    let l2 = b % E10;
    proof {
        assert(a as int / E10 as int <= LIMIT_MAG as int / E10 as int) by {
            vstd::arithmetic::div_mod::lemma_div_is_ordered(a as int, LIMIT_MAG as int, E10 as int);
        }
        assert((h1 as int) * (h2 as int) <= 1_000_000_000_000_000_000_000_000_000_000_000_000int
            && (h1 as int) * (l2 as int) <= 10_000_000_000_000_000_000_000_000_000int && (l1 as int)
            * (h2 as int) <= 10_000_000_000_000_000_000_000_000_000int && (l1 as int) * (l2 as int)
            < 100_000_000_000_000_000_000u128 as int) by (nonlinear_arith)
            requires
                h1 as int <= 1_000_000_000_000_000_000int,
                h2 as int <= 1_000_000_000_000_000_000int,
                (l1 as int) < 10_000_000_000int,
                (l2 as int) < 10_000_000_000int,
                0 <= h1 as int,
                0 <= h2 as int,
                0 <= l1 as int,
                0 <= l2 as int,
        ;
    }
    let hh = h1 * h2;
    let mid = h1 * l2 + l1 * h2;
    let low = l1 * l2;
    let qm = mid / E10;
    let rm = mid % E10;
    let rml = rm * E10 + low;
    let qlow = rml / E20;
    let res = hh + qm + qlow;
    proof {
        let ia = a as int;
        let ib = b as int;
        let t = E10 as int;
        let u = UNIT as int;
        let rlow = rml as int % u;
        vstd::arithmetic::div_mod::lemma_fundamental_div_mod(ia, t);
        vstd::arithmetic::div_mod::lemma_fundamental_div_mod(ib, t);
        vstd::arithmetic::div_mod::lemma_fundamental_div_mod(mid as int, t);
        vstd::arithmetic::div_mod::lemma_fundamental_div_mod(rml as int, u);
        let ih1 = h1 as int;
        let il1 = l1 as int;
        let ih2 = h2 as int;
        let il2 = l2 as int;
        let a1 = t * ih1;
        let b1 = t * ih2;
        assert(ia == a1 + il1);
        assert(ib == b1 + il2);
        assert((a1 + il1) * (b1 + il2) == a1 * b1 + a1 * il2 + il1 * b1 + il1 * il2)
            by (nonlinear_arith);
        assert(a1 * b1 == (ih1 * ih2) * (t * t)) by (nonlinear_arith)
            requires
                a1 == t * ih1,
                b1 == t * ih2,
        ;
        assert(a1 * il2 == (ih1 * il2) * t) by (nonlinear_arith)
            requires
                a1 == t * ih1,
        ;
        assert(il1 * b1 == (il1 * ih2) * t) by (nonlinear_arith)
            requires
                b1 == t * ih2,
        ;
        assert((ih1 * il2) * t + (il1 * ih2) * t == (ih1 * il2 + il1 * ih2) * t)
            by (nonlinear_arith);
        assert(ia * ib == (hh as int) * u + (mid as int) * t + low as int);
        assert((mid as int) * t == (qm as int) * u + (rm as int) * t) by (nonlinear_arith)
            requires
                mid as int == t * (qm as int) + rm as int,
                u == t * t,
        ;
        assert((hh as int) * u + (qm as int) * u + u * (qlow as int) == (hh as int + qm as int
            + qlow as int) * u) by (nonlinear_arith);
        assert(ia * ib == (hh as int + qm as int + qlow as int) * u + rlow);
        vstd::arithmetic::div_mod::lemma_fundamental_div_mod_converse_div(
            ia * ib,
            u,
            hh as int + qm as int + qlow as int,
            rlow,
        );
    }
    res
}

/// `clamp(a * 10^SCALE / b)` on magnitudes, by long division in chunks of
/// `10^10`.
#[verifier::rlimit(60)]
#[verifier::spinoff_prover]
fn div_mag(a: u128, b: u128) -> (r: u128)
    requires
        1 <= b,
        a <= LIMIT_MAG,
        b <= LIMIT_MAG,
    ensures
        r as int == clamp_v((a as int * UNIT as int) / (b as int)),
{
    let q0 = a / b;
    let r0 = a % b;
    proof {
        vstd::arithmetic::div_mod::lemma_fundamental_div_mod(a as int, b as int);
    }
    if q0 >= 100_000_000 {
        proof {
            let ia = a as int;
            let ib = b as int;
            let u = UNIT as int;
            assert(ia * u >= (q0 as int * ib) * u) by (nonlinear_arith)
                requires
                    ia == ib * (q0 as int) + (r0 as int),
                    r0 as int >= 0,
                    u > 0,
            ;
            assert((q0 as int * ib) * u == (q0 as int * u) * ib) by (nonlinear_arith);
            vstd::arithmetic::div_mod::lemma_div_multiples_vanish(q0 as int * u, ib);
            vstd::arithmetic::div_mod::lemma_div_is_ordered((q0 as int * u) * ib, ia * u, ib);
            assert(q0 as int * u >= MANTISSA_LIMIT as int) by (nonlinear_arith)
                requires
                    q0 as int >= 100_000_000,
                    u == UNIT as int,
            ;
        }
        return LIMIT_MAG;
    }
    let t1 = r0 * E10;
    let q1 = t1 / b;
    let r1 = t1 % b;
    let t2 = r1 * E10;
    let q2 = t2 / b;
    proof {
        let ib = b as int;
        let t = E10 as int;
        assert(r0 as int * t < 170_000_000_000_000_000_000_000_000_000_000_000_000int && (q1 as int)
            < t && r1 as int * t < 170_000_000_000_000_000_000_000_000_000_000_000_000int && (
        q2 as int) < t) by (nonlinear_arith)
            requires
                0 <= r0 as int,
                (r0 as int) < ib,
                0 <= r1 as int,
                (r1 as int) < ib,
                ib <= LIMIT_MAG as int,
                t == E10 as int,
                q1 as int == (r0 as int * t) / ib,
                q2 as int == (r1 as int * t) / ib,
                1 <= ib,
        ;
    }
    let res = q0 * E20 + q1 * E10 + q2;
    proof {
        let ia = a as int;
        let ib = b as int;
        let t = E10 as int;
        let u = UNIT as int;
        let r2 = t2 as int % ib;
        vstd::arithmetic::div_mod::lemma_fundamental_div_mod(t1 as int, ib);
        vstd::arithmetic::div_mod::lemma_fundamental_div_mod(t2 as int, ib);
        assert(ia * u == (res as int) * ib + r2) by (nonlinear_arith)
            requires
                ia == ib * (q0 as int) + r0 as int,
                t1 as int == r0 as int * t,
                t1 as int == ib * (q1 as int) + r1 as int,
                t2 as int == r1 as int * t,
                t2 as int == ib * (q2 as int) + r2,
                res as int == (q0 as int) * u + (q1 as int) * t + q2 as int,
                u == t * t,
        ;
        assert((res as int) * ib == ib * (res as int)) by (nonlinear_arith);
        vstd::arithmetic::div_mod::lemma_fundamental_div_mod_converse_div(
            ia * u,
            ib,
            res as int,
            r2,
        );
    }
    res
}

/// Two scalars are the same value exactly when their mantissas agree.
pub proof fn lemma_view_injective(a: Scalar, b: Scalar)
    ensures
        a == b <==> a@ == b@,
{
    if a@ == b@ {
        assert(a.m == b.m);
    }
}

/// Saturate an in-bounds intermediate mantissa.
fn clamp_exec(v: i128) -> (r: i128)
    ensures
        r as int == clamp_v(v as int),
{
    if v > MANTISSA_LIMIT {
        MANTISSA_LIMIT
    } else if v < -MANTISSA_LIMIT {
        -MANTISSA_LIMIT
    } else {
        v
    }
}

/// `10^k` as a spec integer.
pub open spec fn pow10(k: nat) -> int
    decreases k,
{
    if k == 0 {
        1
    } else {
        10 * pow10((k - 1) as nat)
    }
}

/// `10^k` is positive.
pub proof fn pow10_positive(k: nat)
    ensures
        pow10(k) >= 1,
    decreases k,
{
    if k > 0 {
        pow10_positive((k - 1) as nat);
    }
}

/// `10^k` computed at runtime, for `k` up to `SCALE`.
pub fn pow10_exec(k: u32) -> (r: u128)
    requires
        k <= SCALE,
    ensures
        r as int == pow10(k as nat),
        r >= 1,
        r <= 100_000_000_000_000_000_000u128,
{
    proof {
        pow10_mono(k as nat, SCALE as nat);
        assert(pow10(SCALE as nat) == 100_000_000_000_000_000_000int) by {
            reveal_with_fuel(pow10, 21);
        }
    }
    let mut r: u128 = 1;
    let mut i: u32 = 0;
    while i < k
        invariant
            i <= k,
            k <= SCALE,
            r as int == pow10(i as nat),
            1 <= r,
        decreases k - i,
    {
        proof {
            pow10_le_limit(k as nat);
            pow10_mono((i + 1) as nat, k as nat);
            pow10_positive(i as nat);
        }
        r = r * 10;
        i = i + 1;
    }
    r
}

/// `10^k` is monotone in `k`.
pub proof fn pow10_mono(a: nat, b: nat)
    requires
        a <= b,
    ensures
        pow10(a) <= pow10(b),
    decreases b,
{
    if a < b {
        pow10_mono(a, (b - 1) as nat);
        pow10_positive((b - 1) as nat);
    }
}

/// `10^k` stays within the mantissa limit for `k` up to `SCALE + 8`.
pub proof fn pow10_le_limit(k: nat)
    requires
        k <= SCALE + 8,
    ensures
        pow10(k) <= MANTISSA_LIMIT as int,
{
    pow10_mono(k, (SCALE + 8) as nat);
    assert(pow10((SCALE + 8) as nat) == MANTISSA_LIMIT as int) by {
        reveal_with_fuel(pow10, 29);
    }
}

} // verus!
