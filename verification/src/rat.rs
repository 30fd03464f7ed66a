use vstd::prelude::*;
use vstd::arithmetic::div_mod::{
    lemma_div_basics_4, lemma_div_basics_5, lemma_fundamental_div_mod,
    lemma_fundamental_div_mod_converse,
};

verus! {

/// Ghost model of a rational number: the value `n / d`.
pub struct Qr {
    pub n: int,
    pub d: int,
}

/// A rational is meaningful only when its denominator is nonzero.
pub open spec fn q_wf(q: Qr) -> bool {
    q.d != 0
}

/// Equality of rational values by cross multiplication.
pub open spec fn qeq(a: Qr, b: Qr) -> bool {
    a.n * b.d == b.n * a.d
}

/// Order on rational values; meaningful when both denominators are positive.
pub open spec fn q_le(a: Qr, b: Qr) -> bool {
    a.n * b.d <= b.n * a.d
}

pub open spec fn qadd(a: Qr, b: Qr) -> Qr {
    Qr { n: a.n * b.d + b.n * a.d, d: a.d * b.d }
}

pub open spec fn qsub(a: Qr, b: Qr) -> Qr {
    Qr { n: a.n * b.d - b.n * a.d, d: a.d * b.d }
}

pub open spec fn qmul(a: Qr, b: Qr) -> Qr {
    Qr { n: a.n * b.n, d: a.d * b.d }
}

pub open spec fn qdiv(a: Qr, b: Qr) -> Qr {
    Qr { n: a.n * b.d, d: a.d * b.n }
}

/// The rational with integer value `k`.
pub open spec fn q_int(k: int) -> Qr {
    Qr { n: k, d: 1 }
}

/// Grid denominator: persistent view-state values are integer multiples of `1 / GRID`.
pub const GRID: i64 = 1024;

/// The rational value of a grid amount `n`, namely `n / GRID`.
pub open spec fn grid_q(n: int) -> Qr {
    Qr { n: n, d: GRID as int }
}

/// Executable rational number. The invariant `wf` keeps the denominator positive.
#[derive(Clone, Copy, Debug, PartialEq, Eq, Structural)]
pub struct Rat {
    pub num: i128,
    pub den: i128,
}

impl View for Rat {
    type V = Qr;

    open spec fn view(&self) -> Qr {
        Qr { n: self.num as int, d: self.den as int }
    }
}

impl Rat {
    pub open spec fn wf(self) -> bool {
        self.den > 0
    }

    /// Builds the rational `num / den`.
    pub fn new(num: i128, den: i128) -> (r: Rat)
        requires
            den > 0,
        ensures
            r.wf(),
            r.num == num,
            r.den == den,
    {
        Rat { num, den }
    }

    /// Builds the rational with integer value `k`.
    pub fn from_int(k: i64) -> (r: Rat)
        ensures
            r.wf(),
            r@ == q_int(k as int),
    {
        Rat { num: k as i128, den: 1 }
    }
}

/// Numerator magnitude bound for pixel-space inputs (pointer and rectangle coordinates).
pub const PX_NUM_MAX: i128 = 2097152;

/// Grid-numerator magnitude bound for persistent view-state values.
pub const VAL_GRID_MAX: i64 = 8589934592;

/// Numerator magnitude bound for value-space endpoints handed to the transform.
pub const END_NUM_MAX: i128 = 17179869184;

/// Numerator magnitude bound for the point argument of the transform.
pub const MID_NUM_MAX: i128 = 68719476736;

/// Denominator bound for endpoint arguments.
pub const DEN_MAX: i128 = 1024;

/// Denominator bound for the point argument of the transform.
pub const MID_DEN_MAX: i128 = 4096;

/// Bound under which cross multiplication for comparisons cannot overflow.
pub const CMP_MAX: i128 = 4611686018427387904;

/// Bound under which rounding to the grid cannot overflow.
pub const ROUND_MAX: i128 = 1298074214633706907132624082305024;

pub open spec fn num_within(r: Rat, b: int) -> bool {
    -b <= r.num <= b
}

pub open spec fn den_within(r: Rat, b: int) -> bool {
    0 < r.den <= b
}

/// Pixel-space input: pointer position or rectangle coordinate.
pub open spec fn px_ok(r: Rat) -> bool {
    num_within(r, PX_NUM_MAX as int) && den_within(r, DEN_MAX as int)
}

/// Value-space endpoint handed to the transform.
pub open spec fn val_ok(r: Rat) -> bool {
    num_within(r, END_NUM_MAX as int) && den_within(r, DEN_MAX as int)
}

/// Point argument of the transform (covers tick values and endpoints alike).
pub open spec fn mid_ok(r: Rat) -> bool {
    num_within(r, MID_NUM_MAX as int) && den_within(r, MID_DEN_MAX as int)
}

/// Magnitude bound of a product from magnitude bounds of the factors.
pub proof fn lemma_mul_fits(a: int, b: int, ba: int, bb: int) by (nonlinear_arith)
    requires
        -ba <= a <= ba,
        -bb <= b <= bb,
        0 <= ba,
        0 <= bb,
    ensures
        -(ba * bb) <= a * b <= ba * bb,
{
}

/// The product of two positive integers is positive.
pub proof fn lemma_mul_pos(a: int, b: int) by (nonlinear_arith)
    requires
        a > 0,
        b > 0,
    ensures
        a * b > 0,
{
}

/// The product of two nonzero integers is nonzero.
pub proof fn lemma_mul_nonzero(a: int, b: int) by (nonlinear_arith)
    requires
        a != 0,
        b != 0,
    ensures
        a * b != 0,
{
}

/// Rational equality is transitive when the middle denominator is nonzero.
pub proof fn lemma_qeq_trans(a: Qr, b: Qr, c: Qr) by (nonlinear_arith)
    requires
        q_wf(b),
        qeq(a, b),
        qeq(b, c),
    ensures
        qeq(a, c),
{
}

/// Adding a value and then subtracting the addend gives back the value.
pub proof fn lemma_qsub_qadd(a: Qr, t: Qr) by (nonlinear_arith)
    requires
        q_wf(a),
        q_wf(t),
    ensures
        qeq(qsub(qadd(a, t), a), t),
{
}

/// Subtracting a value and then adding it back gives the original value.
pub proof fn lemma_qadd_qsub(a: Qr, b: Qr) by (nonlinear_arith)
    requires
        q_wf(a),
        q_wf(b),
    ensures
        qeq(qadd(b, qsub(a, b)), a),
{
}

/// Dividing by a nonzero value and multiplying by it again is the identity.
pub proof fn lemma_qmul_qdiv_cancel(m: Qr, w: Qr) by (nonlinear_arith)
    requires
        q_wf(m),
        q_wf(w),
        w.n != 0,
    ensures
        qeq(qmul(qdiv(m, w), w), m),
{
}

/// Multiplying by a nonzero value and dividing by it again is the identity.
pub proof fn lemma_qdiv_qmul_cancel(u: Qr, v: Qr) by (nonlinear_arith)
    requires
        q_wf(u),
        q_wf(v),
        v.n != 0,
    ensures
        qeq(qdiv(qmul(u, v), v), u),
{
}

/// Multiplication respects rational equality in its left argument.
pub proof fn lemma_qmul_congr(a: Qr, a2: Qr, b: Qr) by (nonlinear_arith)
    requires
        qeq(a, a2),
    ensures
        qeq(qmul(a, b), qmul(a2, b)),
{
}

/// Division respects rational equality in its left argument.
pub proof fn lemma_qdiv_congr(a: Qr, a2: Qr, w: Qr) by (nonlinear_arith)
    requires
        qeq(a, a2),
    ensures
        qeq(qdiv(a, w), qdiv(a2, w)),
{
}

/// Addition respects rational equality in its right argument.
#[verifier::rlimit(100)]
pub proof fn lemma_qadd_congr(a: Qr, t: Qr, t2: Qr) by (nonlinear_arith)
    requires
        q_wf(a),
        qeq(t, t2),
    ensures
        qeq(qadd(a, t), qadd(a, t2)),
{
}

/// Multiplication respects rational equality in its right argument.
pub proof fn lemma_qmul_congr_r(a: Qr, b: Qr, b2: Qr) by (nonlinear_arith)
    requires
        qeq(b, b2),
    ensures
        qeq(qmul(a, b), qmul(a, b2)),
{
}

/// The representation of a rational with the denominator made positive.
pub open spec fn q_norm(q: Qr) -> Qr {
    if q.d < 0 {
        Qr { n: -q.n, d: -q.d }
    } else {
        q
    }
}

/// Normalizing the sign of the denominator keeps the rational value.
pub proof fn lemma_q_norm_qeq(q: Qr)
    requires
        q.d != 0,
    ensures
        q_norm(q).d > 0,
        qeq(q_norm(q), q),
        qeq(q, q_norm(q)),
{
    if q.d < 0 {
        assert((-q.n) * q.d == q.n * (-q.d)) by (nonlinear_arith);
    }
}

/// Comparison of two rationals by cross multiplication.
pub fn rat_le(a: &Rat, b: &Rat) -> (r: bool)
    requires
        a.wf(),
        b.wf(),
        num_within(*a, CMP_MAX as int),
        den_within(*a, CMP_MAX as int),
        num_within(*b, CMP_MAX as int),
        den_within(*b, CMP_MAX as int),
    ensures
        r == q_le(a@, b@),
{
    proof {
        lemma_mul_fits(a.num as int, b.den as int, CMP_MAX as int, CMP_MAX as int);
        lemma_mul_fits(b.num as int, a.den as int, CMP_MAX as int, CMP_MAX as int);
    }
    a.num * b.den <= b.num * a.den
}

/// Equality test of two rational values by cross multiplication.
pub fn rat_eq_val(a: &Rat, b: &Rat) -> (r: bool)
    requires
        a.wf(),
        b.wf(),
        num_within(*a, CMP_MAX as int),
        den_within(*a, CMP_MAX as int),
        num_within(*b, CMP_MAX as int),
        den_within(*b, CMP_MAX as int),
    ensures
        r == qeq(a@, b@),
{
    proof {
        lemma_mul_fits(a.num as int, b.den as int, CMP_MAX as int, CMP_MAX as int);
        lemma_mul_fits(b.num as int, a.den as int, CMP_MAX as int, CMP_MAX as int);
    }
    a.num * b.den == b.num * a.den
}

/// The nearest grid amount to a rational value, ties rounded away from zero.
pub open spec fn spec_grid_round(q: Qr) -> int {
    if q.n >= 0 {
        (2 * q.n * (GRID as int) + q.d) / (2 * q.d)
    } else {
        -((2 * (-q.n) * (GRID as int) + q.d) / (2 * q.d))
    }
}

/// Rounds a rational value to the nearest grid amount, ties away from zero.
pub fn grid_round(r: &Rat) -> (g: i128)
    requires
        r.wf(),
        num_within(*r, ROUND_MAX as int),
        r.den <= ROUND_MAX,
    ensures
        g == spec_grid_round(r@),
        -(3000 * ROUND_MAX) <= g <= 3000 * ROUND_MAX,
{
    let n: i128 = r.num;
    let d: i128 = r.den;
    if n >= 0 {
        let num2: i128 = 2 * n * 1024 + d;
        let den2: i128 = 2 * d;
        proof {
            lemma_div_basics_4(num2 as int, den2 as int);
            lemma_div_basics_5(num2 as int, den2 as int);
        }
        let q: u128 = (num2 as u128) / (den2 as u128);
        q as i128
    } else {
        let m: i128 = -n;
        let num2: i128 = 2 * m * 1024 + d;
        let den2: i128 = 2 * d;
        proof {
            lemma_div_basics_4(num2 as int, den2 as int);
            lemma_div_basics_5(num2 as int, den2 as int);
        }
        let q: u128 = (num2 as u128) / (den2 as u128);
        -(q as i128)
    }
}

/// Equal nonnegative fractions with positive denominators have equal quotients.
pub proof fn lemma_div_congruent(a: int, b: int, a2: int, b2: int)
    requires
        b > 0,
        b2 > 0,
        a >= 0,
        a2 >= 0,
        a * b2 == a2 * b,
    ensures
        a / b == a2 / b2,
{
    let k = a / b;
    let r = a % b;
    lemma_fundamental_div_mod(a, b);
    lemma_div_basics_4(a, b);
    assert(a == b * k + r);
    assert(0 <= r < b);
    assert((b * k + r) * b2 == a2 * b);
    assert(b * (k * b2) + r * b2 == a2 * b) by (nonlinear_arith)
        requires
            (b * k + r) * b2 == a2 * b,
    ;
    let s = a2 - k * b2;
    assert(b * s == r * b2) by (nonlinear_arith)
        requires
            b * (k * b2) + r * b2 == a2 * b,
            s == a2 - k * b2,
    ;
    assert(0 <= s < b2) by (nonlinear_arith)
        requires
            b * s == r * b2,
            0 <= r < b,
            b > 0,
            b2 > 0,
    ;
    assert(a2 == k * b2 + s);
    lemma_fundamental_div_mod_converse(a2, b2, k, s);
}

/// Rounding to the grid depends only on the rational value, not its representation.
pub proof fn lemma_grid_round_congruent(a: Qr, b: Qr)
    requires
        a.d > 0,
        b.d > 0,
        qeq(a, b),
    ensures
        spec_grid_round(a) == spec_grid_round(b),
{
    assert(a.n >= 0 <==> b.n >= 0) by (nonlinear_arith)
        requires
            a.n * b.d == b.n * a.d,
            a.d > 0,
            b.d > 0,
    ;
    if a.n >= 0 {
        assert((2 * a.n * (GRID as int) + a.d) * (2 * b.d) == (2 * b.n * (GRID as int) + b.d) * (
        2 * a.d)) by (nonlinear_arith)
            requires
                a.n * b.d == b.n * a.d,
        ;
        lemma_div_congruent(
            2 * a.n * (GRID as int) + a.d,
            2 * a.d,
            2 * b.n * (GRID as int) + b.d,
            2 * b.d,
        );
    } else {
        assert((2 * (-a.n) * (GRID as int) + a.d) * (2 * b.d) == (2 * (-b.n) * (GRID as int) + b.d)
            * (2 * a.d)) by (nonlinear_arith)
            requires
                a.n * b.d == b.n * a.d,
        ;
        lemma_div_congruent(
            2 * (-a.n) * (GRID as int) + a.d,
            2 * a.d,
            2 * (-b.n) * (GRID as int) + b.d,
            2 * b.d,
        );
    }
}

} // verus!
