use vstd::prelude::*;
use crate::rat::{
    Qr, Rat, qeq, qsub, qmul, qdiv, q_int, q_le, q_norm, grid_q, spec_grid_round, grid_round,
    px_ok, num_within, den_within, lemma_mul_fits, lemma_mul_pos, lemma_mul_nonzero,
    lemma_qeq_trans, lemma_qmul_congr, lemma_qmul_congr_r, lemma_q_norm_qeq,
    lemma_grid_round_congruent, rat_le, GRID, VAL_GRID_MAX, PX_NUM_MAX, DEN_MAX, ROUND_MAX,
};
use crate::geom::{Pos, Rect, pos_ok, spec_contains, contains, cmp_ok};
use crate::ticks::grid_ok;
use vstd::arithmetic::div_mod::lemma_fundamental_div_mod_converse;

verus! {

/// Per-plot persistent state: the visible vertical range as grid amounts, and
/// the pointer position of the previous frame while a drag is in progress.
#[derive(Clone, Copy, Debug)]
pub struct Memory {
    pub last_pos: Option<Pos>,
    pub ys: i64,
    pub ye: i64,
}

impl Memory {
    pub open spec fn wf(self) -> bool {
        &&& grid_ok(self.ys)
        &&& grid_ok(self.ye)
        &&& match self.last_pos {
            Some(p) => pos_ok(p),
            None => true,
        }
    }
}

impl Default for Memory {
    /// Fresh state: range from -100 to 100, no drag in progress.
    fn default() -> (m: Memory)
        ensures
            m.wf(),
            m.ys == -100 * GRID,
            m.ye == 100 * GRID,
            m.last_pos is None,
    {
        Memory { last_pos: None, ys: -100 * GRID, ye: 100 * GRID }
    }
}

/// The data-space amount by which the visible range shifts when the pointer
/// moves from screen height `p0y` to `p1y`: the pixel difference scaled by
/// the data amount each pixel stands for under the current view. A degenerate
/// screen rectangle gives a zero shift.
pub open spec fn spec_pan_delta(p0y: Qr, p1y: Qr, ct: Qr, cb: Qr, ys: int, ye: int) -> Qr {
    if qeq(ct, cb) {
        q_int(0)
    } else {
        qdiv(qmul(qsub(p0y, p1y), qsub(grid_q(ys), grid_q(ye))), qsub(cb, ct))
    }
}


/// Computes the pan shift for one frame as an executable rational, with the
/// denominator already made positive.
pub fn pan_delta(p0y: &Rat, p1y: &Rat, ct: &Rat, cb: &Rat, ys: i64, ye: i64) -> (d: Rat)
    requires
        px_ok(*p0y),
        px_ok(*p1y),
        px_ok(*ct),
        px_ok(*cb),
        grid_ok(ys),
        grid_ok(ye),
    ensures
        d.wf(),
        d@ == q_norm(spec_pan_delta(p0y@, p1y@, ct@, cb@, ys as int, ye as int)),
        num_within(d, ROUND_MAX as int),
        d.den <= ROUND_MAX,
{
    proof {
        lemma_mul_fits(ct.num as int, cb.den as int, PX_NUM_MAX as int, DEN_MAX as int);
        lemma_mul_fits(cb.num as int, ct.den as int, PX_NUM_MAX as int, DEN_MAX as int);
    }
    let c0: i128 = ct.num * cb.den;
    let c1: i128 = cb.num * ct.den;
    if c0 == c1 {
        Rat { num: 0, den: 1 }
    } else {
        proof {
            lemma_mul_fits(p0y.num as int, p1y.den as int, PX_NUM_MAX as int, DEN_MAX as int);
            lemma_mul_fits(p1y.num as int, p0y.den as int, PX_NUM_MAX as int, DEN_MAX as int);
            lemma_mul_fits(p0y.den as int, p1y.den as int, DEN_MAX as int, DEN_MAX as int);
            lemma_mul_pos(p0y.den as int, p1y.den as int);
        }
        let an: i128 = p0y.num * p1y.den - p1y.num * p0y.den;
        let ad: i128 = p0y.den * p1y.den;
        let gn: i128 = (ys as i128) * 1024 - (ye as i128) * 1024;
        let gd: i128 = 1024 * 1024;
        proof {
            lemma_mul_fits(an as int, gn as int, 0x800000000i128 as int, 0x100000000000i128 as int);
            lemma_mul_fits(ad as int, gd as int, 0x100000i128 as int, 0x100000i128 as int);
            lemma_mul_pos(ad as int, gd as int);
        }
        let mn: i128 = an * gn;
        let md: i128 = ad * gd;
        let wn: i128 = c1 - c0;
        proof {
            lemma_mul_fits(cb.den as int, ct.den as int, DEN_MAX as int, DEN_MAX as int);
            lemma_mul_pos(cb.den as int, ct.den as int);
        }
        let wd: i128 = cb.den * ct.den;
        proof {
            lemma_mul_fits(mn as int, wd as int, 0x100000000000000000000i128 as int,
                0x100000i128 as int);
            lemma_mul_fits(md as int, wn as int, 0x10000000000i128 as int,
                0x800000000i128 as int);
            lemma_mul_nonzero(md as int, wn as int);
        }
        let dn: i128 = mn * wd;
        let dd: i128 = md * wn;
        if dd < 0 {
            Rat { num: -dn, den: -dd }
        } else {
            Rat { num: dn, den: dd }
        }
    }
}

/// Whether shifting both ends of the range by `dq` stays within machine bounds.
pub open spec fn shift_ok(ys: int, ye: int, dq: int) -> bool {
    &&& -VAL_GRID_MAX <= ys + dq <= VAL_GRID_MAX
    &&& -VAL_GRID_MAX <= ye + dq <= VAL_GRID_MAX
}

/// The view state after one pan step, as `(y_start, y_end, last pointer)`.
/// With no pressed pointer the drag anchor is cleared; with a pressed pointer
/// and an anchor from the previous frame, both ends of the range shift by the
/// rounded pan delta (unless that would leave machine bounds), and the anchor
/// becomes the current pointer.
pub open spec fn spec_pan(
    ys: int,
    ye: int,
    last: Option<Pos>,
    drag: Option<Pos>,
    ct: Qr,
    cb: Qr,
) -> (int, int, Option<Pos>) {
    match drag {
        None => (ys, ye, None),
        Some(p1) => match last {
            None => (ys, ye, Some(p1)),
            Some(p0) => {
                let dq = spec_grid_round(q_norm(spec_pan_delta(p0.y@, p1.y@, ct, cb, ys, ye)));
                if shift_ok(ys, ye, dq) {
                    (ys + dq, ye + dq, Some(p1))
                } else {
                    (ys, ye, Some(p1))
                }
            },
        },
    }
}

impl Memory {
    /// One pan step. Both ends of the range move by the same amount, so the
    /// width of the visible range never changes.
    pub fn apply_pan(&mut self, drag: &Option<Pos>, ct: &Rat, cb: &Rat)
        requires
            old(self).wf(),
            px_ok(*ct),
            px_ok(*cb),
            match *drag {
                Some(p) => pos_ok(p),
                None => true,
            },
        ensures
            final(self).wf(),
            ({
                let (ys2, ye2, lp2) = spec_pan(
                    old(self).ys as int,
                    old(self).ye as int,
                    old(self).last_pos,
                    *drag,
                    ct@,
                    cb@,
                );
                final(self).ys as int == ys2 && final(self).ye as int == ye2
                    && final(self).last_pos == lp2
            }),
            final(self).ye as int - final(self).ys as int
                == old(self).ye as int - old(self).ys as int,
            final(self).ys as int - old(self).ys as int
                == final(self).ye as int - old(self).ye as int,
    {
        match drag {
            None => {
                self.last_pos = None;
            },
            Some(p1) => {
                match self.last_pos {
                    None => {},
                    Some(p0) => {
                        let delta = pan_delta(&p0.y, &p1.y, ct, cb, self.ys, self.ye);
                        let dq: i128 = grid_round(&delta);
                        let lim: i128 = VAL_GRID_MAX as i128;
                        let nys: i128 = self.ys as i128 + dq;
                        let nye: i128 = self.ye as i128 + dq;
                        if -lim <= nys && nys <= lim && -lim <= nye && nye <= lim {
                            self.ys = nys as i64;
                            self.ye = nye as i64;
                        }
                    },
                }
                self.last_pos = Some(*p1);
            },
        }
    }
}

/// The zoom factor derived from a scroll amount `s`: `-s / 100`.
pub open spec fn spec_zoom_f(s: Qr) -> Qr {
    Qr { n: -s.n, d: 100 * s.d }
}

/// The fraction of the rectangle height between its bottom `cb` and the
/// pointer height `py`, zero at the bottom edge and one at the top edge `ct`.
pub open spec fn spec_bd(py: Qr, ct: Qr, cb: Qr) -> Qr {
    qdiv(qsub(cb, py), qsub(cb, ct))
}

/// The width of the visible range, from grid amounts.
pub open spec fn spec_range_q(ys: int, ye: int) -> Qr {
    Qr { n: ye - ys, d: GRID as int }
}

/// The data-space amount taken off the start of the range by one zoom step.
pub open spec fn spec_zoom_da(s: Qr, bd: Qr, ys: int, ye: int) -> Qr {
    qmul(qmul(spec_zoom_f(s), bd), spec_range_q(ys, ye))
}

/// The data-space amount added to the end of the range by one zoom step.
pub open spec fn spec_zoom_db(s: Qr, bd: Qr, ys: int, ye: int) -> Qr {
    qmul(qmul(spec_zoom_f(s), qsub(q_int(1), bd)), spec_range_q(ys, ye))
}

/// The scroll amount limited to the interval from -10 to 10.
pub open spec fn spec_clamp10(s: Qr) -> Qr {
    if q_le(q_int(10), s) {
        q_int(10)
    } else if q_le(s, q_int(-10)) {
        q_int(-10)
    } else {
        s
    }
}

/// Limits the scroll amount to the interval from -10 to 10.
pub fn clamp10(s: &Rat) -> (r: Rat)
    requires
        px_ok(*s),
    ensures
        r@ == spec_clamp10(s@),
        px_ok(r),
{
    let ten = Rat { num: 10, den: 1 };
    let mten = Rat { num: -10, den: 1 };
    if rat_le(&ten, s) {
        ten
    } else if rat_le(s, &mten) {
        mten
    } else {
        *s
    }
}

/// Whether a zoom step applies: the pointer hovers inside the rectangle, the
/// scroll amount is nonzero, and the rectangle has a nonzero height.
pub open spec fn zoom_applies(hover: Option<Pos>, scroll: Qr, rect: Rect) -> bool {
    match hover {
        None => false,
        Some(p) => spec_contains(rect, p) && scroll.n != 0 && !qeq(rect.min.y@, rect.max.y@),
    }
}

/// Whether the zoomed range stays within machine bounds.
pub open spec fn zoom_ok(ys: int, ye: int, da: int, db: int) -> bool {
    &&& -VAL_GRID_MAX <= ys - da <= VAL_GRID_MAX
    &&& -VAL_GRID_MAX <= ye + db <= VAL_GRID_MAX
}

/// The view state after one zoom step, as `(y_start, y_end)`. The start moves
/// by the rounded amount `f * bd * r` and the end by the rounded amount
/// `f * (1 - bd) * r`, where `f` is the zoom factor of the clamped scroll
/// amount, `bd` the pointer's fractional height from the bottom, and `r` the
/// range width: the edge nearer the pointer moves less.
pub open spec fn spec_zoom(
    ys: int,
    ye: int,
    hover: Option<Pos>,
    scroll: Qr,
    rect: Rect,
) -> (int, int) {
    if !zoom_applies(hover, scroll, rect) {
        (ys, ye)
    } else {
        let p = hover->0;
        let sc = spec_clamp10(scroll);
        let bd = spec_bd(p.y@, rect.min.y@, rect.max.y@);
        let da = spec_grid_round(q_norm(spec_zoom_da(sc, bd, ys, ye)));
        let db = spec_grid_round(q_norm(spec_zoom_db(sc, bd, ys, ye)));
        if zoom_ok(ys, ye, da, db) {
            (ys - da, ye + db)
        } else {
            (ys, ye)
        }
    }
}

impl Memory {
    /// One zoom step: scrolling rescales the visible range about the pointer.
    pub fn apply_zoom(&mut self, hover: &Option<Pos>, scroll: &Rat, rect: &Rect)
        requires
            old(self).wf(),
            px_ok(*scroll),
            px_ok(rect.min.y),
            px_ok(rect.max.y),
            cmp_ok(rect.min.x),
            cmp_ok(rect.max.x),
            match *hover {
                Some(p) => pos_ok(p),
                None => true,
            },
        ensures
            final(self).wf(),
            final(self).last_pos == old(self).last_pos,
            ({
                let (ys2, ye2) = spec_zoom(
                    old(self).ys as int,
                    old(self).ye as int,
                    *hover,
                    scroll@,
                    *rect,
                );
                final(self).ys as int == ys2 && final(self).ye as int == ye2
            }),
    {
        match hover {
            None => {},
            Some(p) => {
                let inside = contains(rect, p);
                if inside && scroll.num != 0 {
                    proof {
                        lemma_mul_fits(rect.min.y.num as int, rect.max.y.den as int,
                            PX_NUM_MAX as int, DEN_MAX as int);
                        lemma_mul_fits(rect.max.y.num as int, rect.min.y.den as int,
                            PX_NUM_MAX as int, DEN_MAX as int);
                    }
                    let h0: i128 = rect.min.y.num * rect.max.y.den;
                    let h1: i128 = rect.max.y.num * rect.min.y.den;
                    if h0 != h1 {
                        let sc = clamp10(scroll);
                        let fnum: i128 = -sc.num;
                        let fden: i128 = 100 * sc.den;
                        let cb = rect.max.y;
                        let ct = rect.min.y;
                        proof {
                            lemma_mul_fits(cb.num as int, p.y.den as int, PX_NUM_MAX as int,
                                DEN_MAX as int);
                            lemma_mul_fits(p.y.num as int, cb.den as int, PX_NUM_MAX as int,
                                DEN_MAX as int);
                            lemma_mul_fits(cb.den as int, p.y.den as int, DEN_MAX as int,
                                DEN_MAX as int);
                            lemma_mul_pos(cb.den as int, p.y.den as int);
                            lemma_mul_fits(cb.den as int, ct.den as int, DEN_MAX as int,
                                DEN_MAX as int);
                            lemma_mul_pos(cb.den as int, ct.den as int);
                        }
                        let tn: i128 = cb.num * p.y.den - p.y.num * cb.den;
                        let td: i128 = cb.den * p.y.den;
                        let hn: i128 = h1 - h0;
                        let hd: i128 = cb.den * ct.den;
                        proof {
                            lemma_mul_fits(tn as int, hd as int, 0x100000000i128 as int,
                                0x100000i128 as int);
                            lemma_mul_fits(td as int, hn as int, 0x100000i128 as int,
                                0x100000000i128 as int);
                            lemma_mul_nonzero(td as int, hn as int);
                        }
                        let bdn: i128 = tn * hd;
                        let bdd: i128 = td * hn;
                        proof {
                            lemma_mul_fits(fnum as int, bdn as int, PX_NUM_MAX as int,
                                0x10000000000000i128 as int);
                            lemma_mul_fits(fden as int, bdd as int, 0x20000i128 as int,
                                0x10000000000000i128 as int);
                            lemma_mul_nonzero(fden as int, bdd as int);
                        }
                        let fbn: i128 = fnum * bdn;
                        let fbd: i128 = fden * bdd;
                        let rn: i128 = self.ye as i128 - self.ys as i128;
                        let rd: i128 = 1024;
                        proof {
                            lemma_mul_fits(fbn as int, rn as int,
                                0x4000000000000000000i128 as int, 0x400000000i128 as int);
                            lemma_mul_fits(fbd as int, rn as int,
                                0x400000000000000000i128 as int, 0x400000000i128 as int);
                            lemma_mul_nonzero(fbd as int, 1024int);
                        }
                        let dan: i128 = fbn * rn;
                        let dad: i128 = fbd * rd;
                        let on: i128 = 1 * bdd - bdn * 1;
                        let od: i128 = 1 * bdd;
                        proof {
                            lemma_mul_fits(fnum as int, on as int, PX_NUM_MAX as int,
                                0x20000000000000i128 as int);
                            lemma_mul_fits(fden as int, od as int, 0x20000i128 as int,
                                0x10000000000000i128 as int);
                            lemma_mul_nonzero(fden as int, od as int);
                        }
                        let fon: i128 = fnum * on;
                        let fod: i128 = fden * od;
                        proof {
                            lemma_mul_fits(fon as int, rn as int,
                                0x8000000000000000000i128 as int, 0x400000000i128 as int);
                            lemma_mul_fits(fod as int, rn as int,
                                0x400000000000000000i128 as int, 0x400000000i128 as int);
                            lemma_mul_nonzero(fod as int, 1024int);
                        }
                        let dbn: i128 = fon * rn;
                        let dbd: i128 = fod * rd;
                        let da = if dad < 0 {
                            Rat { num: -dan, den: -dad }
                        } else {
                            Rat { num: dan, den: dad }
                        };
                        let db = if dbd < 0 {
                            Rat { num: -dbn, den: -dbd }
                        } else {
                            Rat { num: dbn, den: dbd }
                        };
                        let dag: i128 = grid_round(&da);
                        let dbg: i128 = grid_round(&db);
                        let lim: i128 = VAL_GRID_MAX as i128;
                        let nys: i128 = self.ys as i128 - dag;
                        let nye: i128 = self.ye as i128 + dbg;
                        if -lim <= nys && nys <= lim && -lim <= nye && nye <= lim {
                            self.ys = nys as i64;
                            self.ye = nye as i64;
                        }
                    }
                }
            },
        }
    }
}

/// Law: with the pointer exactly at the vertical midpoint of the rectangle,
/// one zoom step moves both ends of the range by the same rounded amount, in
/// opposite directions.
pub proof fn lemma_zoom_midpoint_symmetric(s: Qr, bd: Qr, ys: int, ye: int)
    requires
        s.d > 0,
        bd.d > 0,
        qeq(bd, Qr { n: 1, d: 2 }),
    ensures
        spec_grid_round(q_norm(spec_zoom_da(s, bd, ys, ye))) == spec_grid_round(
            q_norm(spec_zoom_db(s, bd, ys, ye)),
        ),
{
    let f = spec_zoom_f(s);
    let r = spec_range_q(ys, ye);
    let ob = qsub(q_int(1), bd);
    assert(qeq(bd, ob)) by (nonlinear_arith)
        requires
            bd.n * 2 == bd.d,
            ob == (Qr { n: 1 * bd.d - bd.n * 1, d: 1 * bd.d }),
    ;
    lemma_qmul_congr_r(f, bd, ob);
    lemma_qmul_congr(qmul(f, bd), qmul(f, ob), r);
    let da = spec_zoom_da(s, bd, ys, ye);
    let db = spec_zoom_db(s, bd, ys, ye);
    assert(qeq(da, db));
    lemma_mul_pos(f.d, bd.d);
    lemma_mul_pos(f.d * bd.d, GRID as int);
    lemma_mul_pos(f.d, 1 * bd.d);
    lemma_mul_pos(f.d * (1 * bd.d), GRID as int);
    assert(q_norm(da) == da);
    assert(q_norm(db) == db);
    lemma_grid_round_congruent(da, db);
}

/// Law: with the pointer exactly at the bottom edge of the rectangle (zero
/// fractional height), one zoom step leaves the start of the range unchanged,
/// and the end absorbs the whole rounded range change `f * r`.
pub proof fn lemma_zoom_bottom_edge(s: Qr, bd: Qr, ys: int, ye: int)
    requires
        s.d > 0,
        bd.d != 0,
        bd.n == 0,
    ensures
        spec_grid_round(q_norm(spec_zoom_da(s, bd, ys, ye))) == 0,
        spec_grid_round(q_norm(spec_zoom_db(s, bd, ys, ye))) == spec_grid_round(
            q_norm(qmul(spec_zoom_f(s), spec_range_q(ys, ye))),
        ),
{
    let f = spec_zoom_f(s);
    let r = spec_range_q(ys, ye);
    let da = spec_zoom_da(s, bd, ys, ye);
    let db = spec_zoom_db(s, bd, ys, ye);
    let ob = qsub(q_int(1), bd);
    // The start: the amount is zero, and zero rounds to zero.
    lemma_mul_nonzero(f.d, bd.d);
    lemma_mul_nonzero(f.d * bd.d, GRID as int);
    assert((f.n * bd.n) * (spec_range_q(ys, ye).n) == 0) by (nonlinear_arith)
        requires
            bd.n == 0,
    ;
    assert(da.n == 0);
    assert(q_norm(da).n == 0 && q_norm(da).d > 0);
    let d0 = q_norm(da).d;
    lemma_fundamental_div_mod_converse(d0, 2 * d0, 0, d0);
    assert(spec_grid_round(q_norm(da)) == 0);
    // The end: one minus a zero fraction is one, so the amount is f * r.
    assert(qeq(ob, q_int(1)));
    lemma_qmul_congr_r(f, ob, q_int(1));
    assert(qeq(qmul(f, q_int(1)), f));
    lemma_mul_nonzero(f.d, ob.d);
    lemma_qeq_trans(qmul(f, ob), qmul(f, q_int(1)), f);
    lemma_qmul_congr(qmul(f, ob), f, r);
    // Both sides of the congruence, normalized.
    lemma_mul_nonzero(f.d * ob.d, GRID as int);
    lemma_mul_nonzero(f.d, GRID as int);
    lemma_q_norm_qeq(db);
    lemma_q_norm_qeq(qmul(f, r));
    lemma_qeq_trans(q_norm(db), db, qmul(f, r));
    lemma_qeq_trans(q_norm(db), qmul(f, r), q_norm(qmul(f, r)));
    lemma_grid_round_congruent(q_norm(db), q_norm(qmul(f, r)));
}

} // verus!
