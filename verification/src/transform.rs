use vstd::prelude::*;
use crate::rat::{
    Qr, Rat, q_wf, qeq, qadd, qsub, qmul, qdiv, q_int, val_ok, mid_ok,
    lemma_mul_fits, lemma_mul_pos, lemma_mul_nonzero, lemma_qeq_trans, lemma_qsub_qadd,
    lemma_qadd_qsub, lemma_qmul_qdiv_cancel, lemma_qdiv_qmul_cancel, lemma_qmul_congr,
    lemma_qdiv_congr, lemma_qadd_congr, END_NUM_MAX, MID_NUM_MAX, DEN_MAX, MID_DEN_MAX,
};

verus! {

/// The midpoint of the two range endpoints.
pub open spec fn spec_midpoint(r0: Qr, r1: Qr) -> Qr {
    qdiv(qadd(r0, r1), q_int(2))
}

/// Linear remap of `x` from the domain `(d0, d1)` onto the range `(r0, r1)`.
/// A degenerate domain maps everything to the midpoint of the range.
pub open spec fn spec_remap(x: Qr, d0: Qr, d1: Qr, r0: Qr, r1: Qr) -> Qr {
    if qeq(d0, d1) {
        spec_midpoint(r0, r1)
    } else {
        qadd(r0, qdiv(qmul(qsub(x, d0), qsub(r1, r0)), qsub(d1, d0)))
    }
}

/// Maps `x` from the domain `(d0, d1)` onto the range `(r0, r1)` by the linear
/// transform `r0 + (x - d0) * (r1 - r0) / (d1 - d0)`. When the domain is
/// degenerate the result is the midpoint of the range, so the result always
/// has a positive denominator: no division by zero can occur.
pub fn remap(x: &Rat, d0: &Rat, d1: &Rat, r0: &Rat, r1: &Rat) -> (res: Rat)
    requires
        mid_ok(*x),
        val_ok(*d0),
        val_ok(*d1),
        val_ok(*r0),
        val_ok(*r1),
    ensures
        res.wf(),
        qeq(res@, spec_remap(x@, d0@, d1@, r0@, r1@)),
{
    proof {
        lemma_mul_fits(d0.num as int, d1.den as int, END_NUM_MAX as int, DEN_MAX as int);
        lemma_mul_fits(d1.num as int, d0.den as int, END_NUM_MAX as int, DEN_MAX as int);
    }
    let dc0: i128 = d0.num * d1.den;
    let dc1: i128 = d1.num * d0.den;
    if dc0 == dc1 {
        // Degenerate domain: return the midpoint of the range.
        proof {
            lemma_mul_fits(r0.num as int, r1.den as int, END_NUM_MAX as int, DEN_MAX as int);
            lemma_mul_fits(r1.num as int, r0.den as int, END_NUM_MAX as int, DEN_MAX as int);
            lemma_mul_fits(r0.den as int, r1.den as int, DEN_MAX as int, DEN_MAX as int);
            lemma_mul_pos(r0.den as int, r1.den as int);
        }
        let mn: i128 = (r0.num * r1.den + r1.num * r0.den) * 1;
        let md: i128 = (r0.den * r1.den) * 2;
        let res = Rat { num: mn, den: md };
        proof {
            let s = spec_remap(x@, d0@, d1@, r0@, r1@);
            assert(qeq(d0@, d1@));
            assert(s == spec_midpoint(r0@, r1@));
            assert(res@.n == s.n && res@.d == s.d);
            assert(qeq(res@, s));
        }
        res
    } else {
        proof {
            lemma_mul_fits(x.num as int, d0.den as int, MID_NUM_MAX as int, DEN_MAX as int);
            lemma_mul_fits(d0.num as int, x.den as int, END_NUM_MAX as int, MID_DEN_MAX as int);
            lemma_mul_fits(x.den as int, d0.den as int, MID_DEN_MAX as int, DEN_MAX as int);
            lemma_mul_pos(x.den as int, d0.den as int);
            lemma_mul_fits(r1.num as int, r0.den as int, END_NUM_MAX as int, DEN_MAX as int);
            lemma_mul_fits(r0.num as int, r1.den as int, END_NUM_MAX as int, DEN_MAX as int);
            lemma_mul_fits(r1.den as int, r0.den as int, DEN_MAX as int, DEN_MAX as int);
            lemma_mul_pos(r1.den as int, r0.den as int);
            lemma_mul_fits(d1.den as int, d0.den as int, DEN_MAX as int, DEN_MAX as int);
            lemma_mul_pos(d1.den as int, d0.den as int);
        }
        let a: i128 = x.num * d0.den - d0.num * x.den;
        let b: i128 = x.den * d0.den;
        let c: i128 = r1.num * r0.den - r0.num * r1.den;
        let dd: i128 = r1.den * r0.den;
        let e: i128 = dc1 - dc0;
        let f: i128 = d1.den * d0.den;
        proof {
            lemma_mul_fits(a as int, c as int, 0x800000000000i128 as int, 0x200000000000i128 as int);
            lemma_mul_fits(b as int, dd as int, 0x400000i128 as int, 0x100000i128 as int);
            lemma_mul_pos(b as int, dd as int);
        }
        let tn: i128 = a * c;
        let td: i128 = b * dd;
        proof {
            lemma_mul_fits(tn as int, f as int, 0x100000000000000000000000i128 as int,
                0x100000i128 as int);
            lemma_mul_fits(td as int, e as int, 0x40000000000i128 as int,
                0x200000000000i128 as int);
            lemma_mul_nonzero(td as int, e as int);
        }
        let un: i128 = tn * f;
        let ud: i128 = td * e;
        proof {
            lemma_mul_fits(r0.num as int, ud as int, END_NUM_MAX as int,
                0x8000000000000000000000i128 as int);
            lemma_mul_fits(un as int, r0.den as int, 0x10000000000000000000000000000i128 as int,
                DEN_MAX as int);
            lemma_mul_fits(r0.den as int, ud as int, DEN_MAX as int,
                0x8000000000000000000000i128 as int);
            lemma_mul_nonzero(r0.den as int, ud as int);
        }
        let vn: i128 = r0.num * ud + un * r0.den;
        let vd: i128 = r0.den * ud;
        proof {
            let s = spec_remap(x@, d0@, d1@, r0@, r1@);
            assert(!qeq(d0@, d1@));
            assert(s == qadd(r0@, qdiv(qmul(qsub(x@, d0@), qsub(r1@, r0@)), qsub(d1@, d0@))));
            assert(vn as int == s.n && vd as int == s.d);
        }
        if vd < 0 {
            let res = Rat { num: -vn, den: -vd };
            proof {
                let s = spec_remap(x@, d0@, d1@, r0@, r1@);
                assert((-(vn as int)) * (vd as int) == (vn as int) * (-(vd as int)))
                    by (nonlinear_arith);
                assert(res@.n * s.d == s.n * res@.d);
            }
            res
        } else {
            Rat { num: vn, den: vd }
        }
    }
}

/// Law: mapping a point through the transform and back through the inverse
/// transform (domain and range swapped) returns the original value, for every
/// non-degenerate domain and range.
pub proof fn lemma_remap_round_trip(x: Qr, d0: Qr, d1: Qr, r0: Qr, r1: Qr)
    requires
        q_wf(x),
        q_wf(d0),
        q_wf(d1),
        q_wf(r0),
        q_wf(r1),
        !qeq(d0, d1),
        !qeq(r0, r1),
    ensures
        qeq(spec_remap(spec_remap(x, d0, d1, r0, r1), r0, r1, d0, d1), x),
{
    let u = qsub(x, d0);
    let v = qsub(r1, r0);
    let w = qsub(d1, d0);
    let m = qmul(u, v);
    let t = qdiv(m, w);
    let y = qadd(r0, t);
    assert(w.n != 0);
    assert(v.n != 0);
    lemma_mul_nonzero(x.d, d0.d);
    lemma_mul_nonzero(r1.d, r0.d);
    lemma_mul_nonzero(d1.d, d0.d);
    lemma_mul_nonzero(u.d, v.d);
    lemma_mul_nonzero(m.d, w.n);
    lemma_mul_nonzero(r0.d, t.d);
    // The outer application is non-degenerate because the range is.
    let u2 = qsub(y, r0);
    let m2 = qmul(u2, w);
    let t2 = qdiv(m2, v);
    let x2 = qadd(d0, t2);
    assert(spec_remap(y, r0, r1, d0, d1) == x2);
    lemma_mul_nonzero(y.d, r0.d);
    lemma_mul_nonzero(u2.d, w.d);
    lemma_mul_nonzero(m2.d, v.n);
    lemma_qsub_qadd(r0, t);
    // qeq(u2, t)
    lemma_qmul_congr(u2, t, w);
    // qeq(qmul(u2, w), qmul(t, w))
    lemma_qmul_qdiv_cancel(m, w);
    // qeq(qmul(t, w), m)
    lemma_mul_nonzero(t.d, w.d);
    lemma_qeq_trans(m2, qmul(t, w), m);
    lemma_qdiv_congr(m2, m, v);
    // qeq(t2, qdiv(m, v))
    lemma_qdiv_qmul_cancel(u, v);
    // qeq(qdiv(m, v), u)
    lemma_mul_nonzero(m.d, v.n);
    lemma_qeq_trans(t2, qdiv(m, v), u);
    lemma_qadd_congr(d0, t2, u);
    // qeq(x2, qadd(d0, u))
    lemma_qadd_qsub(x, d0);
    // qeq(qadd(d0, u), x)
    lemma_mul_nonzero(d0.d, t2.d);
    lemma_mul_nonzero(d0.d, u.d);
    lemma_qeq_trans(x2, qadd(d0, u), x);
}

/// Law: with a degenerate domain the transform yields the midpoint of the
/// range, whatever the point being mapped.
pub proof fn lemma_remap_degenerate(x: Qr, d0: Qr, d1: Qr, r0: Qr, r1: Qr)
    requires
        qeq(d0, d1),
    ensures
        spec_remap(x, d0, d1, r0, r1) == spec_midpoint(r0, r1),
{
}

} // verus!
