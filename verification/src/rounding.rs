use crate::scalar::{abs_i, pow10, pow10_positive, MANTISSA_LIMIT, SCALE};
use vstd::prelude::*;

verus! {

/// Rounding policies for `Scalar::round_with_mode`.
#[derive(Clone, Copy, PartialEq, Eq, Structural, Debug)]
pub enum RoundingMode {
    /// "Bankers rounding": a tie goes to the nearest even number, anything
    /// else rounds as usual. E.g. 2.5 becomes 2, 3.5 becomes 4.
    HalfToEven,
    /// A tie rounds away from zero (the usual schoolbook rounding).
    /// E.g. 2.5 becomes 3, -2.5 becomes -3.
    HalfAwayFromZero,
    /// A tie rounds toward zero. E.g. 2.5 becomes 2, -2.5 becomes -2.
    HalfTowardZero,
    /// Round toward zero. E.g. 2.7 becomes 2, -2.7 becomes -2.
    TowardZero,
    /// Round away from zero. E.g. 2.3 becomes 3, -2.3 becomes -3.
    AwayFromZero,
    /// Round toward negative infinity. E.g. 2.7 becomes 2, -2.3 becomes -3.
    ToNegativeInfinity,
    /// Round toward positive infinity. E.g. 2.3 becomes 3, -2.7 becomes -2.
    ToInfinity,
}

/// Floor of `v / f` (Euclidean division rounds toward negative infinity for
/// a positive divisor).
pub open spec fn floor_div(v: int, f: int) -> int {
    v / f
}

/// Ceiling of `v / f`.
pub open spec fn ceil_div(v: int, f: int) -> int {
    if v % f == 0 {
        v / f
    } else {
        v / f + 1
    }
}

/// Whether `v / f` lies exactly on a `.5` boundary. The fixed-point
/// representation has exact midpoints, so no epsilon is involved.
pub open spec fn at_midpoint(v: int, f: int) -> bool {
    2 * (v % f) == f
}

/// Schoolbook rounding of `v / f`: the nearer integer, with a tie going away
/// from zero.
pub open spec fn naive_round(v: int, f: int) -> int {
    if v >= 0 {
        if 2 * (v % f) >= f {
            v / f + 1
        } else {
            v / f
        }
    } else {
        if v % f == 0 {
            v / f
        } else if 2 * (v % f) <= f {
            v / f
        } else {
            v / f + 1
        }
    }
}

/// The integer selected by a rounding mode for the scaled value `v / f`:
/// away from a midpoint the three half-modes agree with the naive round,
/// while at a midpoint each applies its own tie-break; the directed modes
/// never look at the midpoint at all.
pub open spec fn round_sel(v: int, f: int, mode: RoundingMode) -> int {
    let fl = floor_div(v, f);
    let ce = ceil_div(v, f);
    match mode {
        RoundingMode::HalfToEven => if !at_midpoint(v, f) {
            naive_round(v, f)
        } else if fl % 2 == 0 {
            fl
        } else {
            ce
        },
        RoundingMode::HalfAwayFromZero => if !at_midpoint(v, f) {
            naive_round(v, f)
        } else if v > 0 {
            ce
        } else {
            fl
        },
        RoundingMode::HalfTowardZero => if !at_midpoint(v, f) {
            naive_round(v, f)
        } else if v > 0 {
            fl
        } else {
            ce
        },
        RoundingMode::TowardZero => if v > 0 {
            fl
        } else {
            ce
        },
        RoundingMode::AwayFromZero => if v > 0 {
            ce
        } else {
            fl
        },
        RoundingMode::ToNegativeInfinity => fl,
        RoundingMode::ToInfinity => ce,
    }
}

/// The mantissa of a value rounded to `dp` decimal places under `mode`.
/// Asking for at least `SCALE` places leaves the value unchanged.
pub open spec fn round_val(v: int, dp: nat, mode: RoundingMode) -> int {
    if dp >= SCALE {
        v
    } else {
        round_sel(v, pow10((SCALE - dp) as nat), mode) * pow10((SCALE - dp) as nat)
    }
}

/// `10^(a + b) == 10^a * 10^b`.
pub proof fn pow10_adds(a: nat, b: nat)
    ensures
        pow10(a + b) == pow10(a) * pow10(b),
    decreases a,
{
    if a == 0 {
    } else {
        pow10_adds((a - 1) as nat, b);
        let x = pow10((a - 1) as nat);
        let y = pow10(b);
        assert(pow10(a + b) == 10 * pow10(((a + b) - 1) as nat));
        assert(((a + b) - 1) as nat == (a - 1) as nat + b);
        assert(10 * (x * y) == (10 * x) * y) by (nonlinear_arith);
    }
}

/// The Euclidean quotient and remainder of `-mag` by `f`, in terms of those
/// of `mag`.
pub proof fn lemma_neg_divmod(mag: int, f: int, q: int, r: int)
    requires
        f > 0,
        mag >= 0,
        mag == f * q + r,
        0 <= r < f,
    ensures
        (-mag) / f == (if r == 0 {
            -q
        } else {
            -q - 1
        }),
        (-mag) % f == (if r == 0 {
            0int
        } else {
            f - r
        }),
        mag / f == q,
        mag % f == r,
{
    assert(q * f == f * q) by (nonlinear_arith);
    vstd::arithmetic::div_mod::lemma_fundamental_div_mod_converse_div(mag, f, q, r);
    vstd::arithmetic::div_mod::lemma_fundamental_div_mod_converse_mod(mag, f, q, r);
    if r == 0 {
        assert(-mag == (-q) * f + 0) by (nonlinear_arith)
            requires
                mag == q * f + r,
                r == 0,
        ;
        vstd::arithmetic::div_mod::lemma_fundamental_div_mod_converse_div(-mag, f, -q, 0);
        vstd::arithmetic::div_mod::lemma_fundamental_div_mod_converse_mod(-mag, f, -q, 0);
    } else {
        assert(-mag == (-q - 1) * f + (f - r)) by (nonlinear_arith)
            requires
                mag == q * f + r,
        ;
        vstd::arithmetic::div_mod::lemma_fundamental_div_mod_converse_div(-mag, f, -q - 1, f - r);
        vstd::arithmetic::div_mod::lemma_fundamental_div_mod_converse_mod(-mag, f, -q - 1, f - r);
    }
}

/// The parity of `-q` matches the parity of `q`, and `-q - 1` flips it.
pub proof fn lemma_neg_parity(q: int)
    requires
        q >= 0,
    ensures
        ((-q) % 2 == 0) <==> (q % 2 == 0),
        ((-q - 1) % 2 == 0) <==> (q % 2 == 1),
{
    let h = q / 2;
    let p = q % 2;
    vstd::arithmetic::div_mod::lemma_fundamental_div_mod(q, 2);
    if p == 0 {
        assert(-q == (-h) * 2 + 0) by (nonlinear_arith)
            requires
                q == 2 * h,
        ;
        vstd::arithmetic::div_mod::lemma_fundamental_div_mod_converse_mod(-q, 2, -h, 0);
        assert(-q - 1 == (-h - 1) * 2 + 1) by (nonlinear_arith)
            requires
                q == 2 * h,
        ;
        vstd::arithmetic::div_mod::lemma_fundamental_div_mod_converse_mod(-q - 1, 2, -h - 1, 1);
    } else {
        assert(-q == (-h - 1) * 2 + 1) by (nonlinear_arith)
            requires
                q == 2 * h + 1,
        ;
        vstd::arithmetic::div_mod::lemma_fundamental_div_mod_converse_mod(-q, 2, -h - 1, 1);
        assert(-q - 1 == (-h - 1) * 2 + 0) by (nonlinear_arith)
            requires
                q == 2 * h + 1,
        ;
        vstd::arithmetic::div_mod::lemma_fundamental_div_mod_converse_mod(-q - 1, 2, -h - 1, 0);
    }
}

/// Away from a `.5` boundary every tie-breaking mode collapses to the naive
/// round, and each directed mode to its floor/ceiling selection: the seven
/// modes only ever differ at exact midpoints.
pub proof fn lemma_non_midpoint_agreement(v: int, dp: nat)
    requires
        dp < SCALE,
        !at_midpoint(v, pow10((SCALE - dp) as nat)),
    ensures
        round_val(v, dp, RoundingMode::HalfToEven) == naive_round(
            v,
            pow10((SCALE - dp) as nat),
        ) * pow10((SCALE - dp) as nat),
        round_val(v, dp, RoundingMode::HalfAwayFromZero) == round_val(
            v,
            dp,
            RoundingMode::HalfToEven,
        ),
        round_val(v, dp, RoundingMode::HalfTowardZero) == round_val(
            v,
            dp,
            RoundingMode::HalfToEven,
        ),
        round_val(v, dp, RoundingMode::ToNegativeInfinity) == floor_div(
            v,
            pow10((SCALE - dp) as nat),
        ) * pow10((SCALE - dp) as nat),
        round_val(v, dp, RoundingMode::ToInfinity) == ceil_div(v, pow10((SCALE - dp) as nat))
            * pow10((SCALE - dp) as nat),
{
}

/// Rounding is idempotent: rounding an already-rounded value at the same
/// `dp` and mode returns it unchanged.
pub proof fn lemma_round_idempotent(v: int, dp: nat, mode: RoundingMode)
    ensures
        round_val(round_val(v, dp, mode), dp, mode) == round_val(v, dp, mode),
{
    if dp < SCALE {
        let f = pow10((SCALE - dp) as nat);
        let k = (SCALE - dp) as nat;
        pow10_positive(k);
        pow10_mono_ge_ten(k);
        let sel = round_sel(v, f, mode);
        let w = sel * f;
        vstd::arithmetic::div_mod::lemma_fundamental_div_mod_converse_div(w, f, sel, 0);
        vstd::arithmetic::div_mod::lemma_fundamental_div_mod_converse_mod(w, f, sel, 0);
        assert(w % f == 0);
        assert(!at_midpoint(w, f));
        assert(naive_round(w, f) == sel);
        assert(floor_div(w, f) == sel);
        assert(ceil_div(w, f) == sel);
        assert(round_sel(w, f, mode) == sel);
    }
}

/// `10^k >= 10` for `k >= 1`.
pub proof fn pow10_mono_ge_ten(k: nat)
    requires
        k >= 1,
    ensures
        pow10(k) >= 10,
{
    pow10_positive((k - 1) as nat);
}

/// The selected integer always lies between the floor and the ceiling of the
/// scaled value.
pub proof fn lemma_sel_between(v: int, f: int, mode: RoundingMode)
    requires
        f > 0,
    ensures
        floor_div(v, f) <= round_sel(v, f, mode) <= ceil_div(v, f),
        ceil_div(v, f) <= floor_div(v, f) + 1,
{
    vstd::arithmetic::div_mod::lemma_fundamental_div_mod(v, f);
}

/// Rounding keeps a value within the representable range: the result is at
/// most one rounding step beyond the input, and never exceeds a limit that
/// is a whole multiple of the rounding factor.
pub proof fn lemma_round_val_in_range(v: int, dp: nat, mode: RoundingMode)
    requires
        abs_i(v) <= MANTISSA_LIMIT as int,
    ensures
        abs_i(round_val(v, dp, mode)) <= MANTISSA_LIMIT as int,
{
    if dp < SCALE {
        let k = (SCALE - dp) as nat;
        let f = pow10(k);
        pow10_positive(k);
        let c = pow10((28 - k) as nat);
        pow10_positive((28 - k) as nat);
        pow10_adds((28 - k) as nat, k);
        pow10_28_is_limit();
        assert(MANTISSA_LIMIT as int == c * f);
        let fl = floor_div(v, f);
        let ce = ceil_div(v, f);
        lemma_sel_between(v, f, mode);
        // The floor stays at or above -limit.
        assert((-c) * f == -(c * f)) by (nonlinear_arith);
        vstd::arithmetic::div_mod::lemma_div_is_ordered(-(c * f), v, f);
        vstd::arithmetic::div_mod::lemma_div_multiples_vanish(-c, f);
        assert(fl >= -c);
        // The ceiling stays at or below limit.
        if v % f == 0 {
            vstd::arithmetic::div_mod::lemma_div_is_ordered(v, c * f, f);
            vstd::arithmetic::div_mod::lemma_div_multiples_vanish(c, f);
            assert(ce <= c);
        } else {
            vstd::arithmetic::div_mod::lemma_fundamental_div_mod(v, f);
            assert(v < c * f) by {
                vstd::arithmetic::div_mod::lemma_mod_multiples_basic(c, f);
            }
            assert(c * f - 1 == (c - 1) * f + (f - 1)) by (nonlinear_arith);
            vstd::arithmetic::div_mod::lemma_fundamental_div_mod_converse_div(
                c * f - 1,
                f,
                c - 1,
                f - 1,
            );
            vstd::arithmetic::div_mod::lemma_div_is_ordered(v, c * f - 1, f);
            assert(ce <= c);
        }
        let sel = round_sel(v, f, mode);
        assert((-c) <= sel <= c ==> -(c * f) <= sel * f <= c * f) by (nonlinear_arith)
            requires
                f > 0,
        ;
    }
}

/// `10^28` is exactly the mantissa limit.
pub proof fn pow10_28_is_limit()
    ensures
        pow10(28) == MANTISSA_LIMIT as int,
{
    assert(pow10(28) == MANTISSA_LIMIT as int) by {
        reveal_with_fuel(pow10, 29);
    }
}

} // verus!
