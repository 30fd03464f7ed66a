use vstd::prelude::*;
use crate::rat::{
    Qr, Rat, qeq, q_int, grid_q, px_ok, val_ok, num_within, den_within, spec_grid_round,
    grid_round, GRID, VAL_GRID_MAX, PX_NUM_MAX, END_NUM_MAX, DEN_MAX, ROUND_MAX,
};
use crate::geom::{Pos, Rect, pos_ok, rect_ok};
use crate::ticks::{calc_tick4, spec_tick, grid_ok};
use crate::transform::{remap, spec_remap};
use crate::view::{Memory, spec_pan, spec_zoom};

verus! {

/// The registry: one persistent `Memory` per plot label. The two columns
/// always have the same length and labels never repeat.
pub struct PlotCtx {
    pub labels: Vec<String>,
    pub mems: Vec<Memory>,
}

impl PlotCtx {
    pub open spec fn wf(self) -> bool {
        &&& self.labels@.len() == self.mems@.len()
        &&& forall|i: int, j: int|
            0 <= i < j < self.labels@.len() ==> self.labels@[i]@ != self.labels@[j]@
        &&& forall|i: int| 0 <= i < self.mems@.len() ==> (#[trigger] self.mems@[i]).wf()
    }

    /// An empty registry.
    pub fn new() -> (ctx: PlotCtx)
        ensures
            ctx.wf(),
            ctx.labels@.len() == 0,
    {
        PlotCtx { labels: Vec::new(), mems: Vec::new() }
    }
}

/// The fresh state a label starts from: range -100 to 100, no drag.
pub open spec fn spec_default_mem() -> Memory {
    Memory { last_pos: None, ys: -102400i64, ye: 102400i64 }
}

/// An explicit vertical range asked for by the caller for this frame.
#[derive(Clone, Copy, Debug)]
pub struct YRange {
    pub start: Rat,
    pub end: Rat,
}

/// One frame's plot request: which registry entry it works on, the desired
/// canvas size, the sample-index domain, and whether to draw tick labels.
pub struct Plot {
    pub idx: usize,
    pub width: Rat,
    pub height: Rat,
    pub samples: usize,
    pub show_yticks: bool,
    pub y_over: Option<YRange>,
}

impl PlotCtx {
    /// Looks the label up, creating a fresh entry on first use, and returns
    /// the plot request bound to that entry. Existing entries are never moved
    /// or changed, so distinct labels keep fully independent state.
    pub fn plot(&mut self, label: String, width: Rat, height: Rat, samples: usize,
        show_yticks: bool) -> (p: Plot)
        requires
            old(self).wf(),
        ensures
            final(self).wf(),
            final(self).labels@.len() == final(self).mems@.len(),
            p.idx < final(self).labels@.len(),
            final(self).labels@[p.idx as int]@ == label@,
            p.width == width,
            p.height == height,
            p.samples == samples,
            p.show_yticks == show_yticks,
            p.y_over is None,
            old(self).labels@.len() <= final(self).labels@.len() <= old(self).labels@.len() + 1,
            forall|j: int|
                0 <= j < old(self).labels@.len() ==> final(self).labels@[j] == old(
                    self,
                ).labels@[j] && final(self).mems@[j] == old(self).mems@[j],
            final(self).labels@.len() == old(self).labels@.len() + 1 ==> p.idx == old(
                self,
            ).labels@.len() && final(self).mems@[p.idx as int] == spec_default_mem(),
            final(self).labels@.len() == old(self).labels@.len() ==> p.idx < old(
                self,
            ).labels@.len(),
    {
        let mut i: usize = 0;
        let n: usize = self.labels.len();
        while i < n
            invariant
                n == self.labels@.len(),
                i <= n,
                self.wf(),
                forall|j: int| 0 <= j < i ==> self.labels@[j]@ != label@,
            decreases n - i,
        {
            if self.labels[i] == label {
                return Plot {
                    idx: i,
                    width,
                    height,
                    samples,
                    show_yticks,
                    y_over: None,
                };
            }
            i = i + 1;
        }
        self.labels.push(label);
        self.mems.push(Memory { last_pos: None, ys: -100 * GRID, ye: 100 * GRID });
        Plot { idx: n, width, height, samples, show_yticks, y_over: None }
    }
}

/// Law: in a well-formed registry, entries with different labels are
/// different entries, so changing the state under one label can never touch
/// the state under another.
pub proof fn lemma_registry_isolation(ctx: PlotCtx, i: int, j: int)
    requires
        ctx.wf(),
        0 <= i < ctx.labels@.len(),
        0 <= j < ctx.labels@.len(),
        ctx.labels@[i]@ != ctx.labels@[j]@,
    ensures
        i != j,
{
}

/// One tick mark: where it sits on screen and the value it stands for.
pub struct TickMark {
    pub x: Rat,
    pub y: Rat,
    pub value: Rat,
}

/// Everything one frame reads from the surroundings: the allocated rectangle,
/// the pressed-pointer position, the hovering-pointer position, and the
/// vertical scroll amount.
pub struct FrameInput {
    pub rect: Rect,
    pub drag: Option<Pos>,
    pub hover: Option<Pos>,
    pub scroll: Rat,
}

/// Everything one frame asks to be drawn: the plotting rectangle outline, the
/// tick marks, and the polyline through the mapped sample points.
pub struct FrameOutput {
    pub plot_rect: Rect,
    pub ticks: Vec<TickMark>,
    pub points: Vec<Pos>,
}

/// Whether the frame inputs are within machine bounds.
pub open spec fn input_ok(inp: FrameInput) -> bool {
    &&& rect_ok(inp.rect)
    &&& px_ok(inp.scroll)
    &&& match inp.drag {
        Some(p) => pos_ok(p),
        None => true,
    }
    &&& match inp.hover {
        Some(p) => pos_ok(p),
        None => true,
    }
}

/// Whether every sample point is within machine bounds.
pub open spec fn data_ok(data: Seq<Pos>) -> bool {
    forall|i: int|
        0 <= i < data.len() ==> val_ok((#[trigger] data[i]).x) && val_ok(data[i].y)
}

/// A grid amount clipped to the machine bounds of the view state.
pub open spec fn clamp_grid(g: int) -> int {
    if g > VAL_GRID_MAX {
        VAL_GRID_MAX as int
    } else if g < -VAL_GRID_MAX {
        -(VAL_GRID_MAX as int)
    } else {
        g
    }
}

/// The grid amount a requested range endpoint becomes: rounded, then clipped.
pub open spec fn to_grid(q: Qr) -> int {
    clamp_grid(spec_grid_round(q))
}

/// The left edge moved right by the forty-pixel tick-label margin.
pub open spec fn spec_shift40(r: Rat) -> Rat {
    Rat { num: (r.num + 40 * r.den) as i128, den: r.den }
}

/// The plotting rectangle: the allocated rectangle, with the left margin
/// taken off when tick labels are drawn.
pub open spec fn spec_plot_rect(rect: Rect, show_yticks: bool) -> Rect {
    if show_yticks {
        Rect { min: Pos { x: spec_shift40(rect.min.x), y: rect.min.y }, max: rect.max }
    } else {
        rect
    }
}

impl Plot {
    /// Asks for this frame's vertical range to be set before drawing, instead
    /// of the persisted one.
    pub fn set_y_range(&mut self, s: Rat, e: Rat)
        ensures
            final(self).y_over == Some(YRange { start: s, end: e }),
            final(self).idx == old(self).idx,
            final(self).width == old(self).width,
            final(self).height == old(self).height,
            final(self).samples == old(self).samples,
            final(self).show_yticks == old(self).show_yticks,
    {
        self.y_over = Some(YRange { start: s, end: e });
    }

    /// Whether a frame with these inputs is within machine bounds.
    pub open spec fn show_valid(self, ctx: PlotCtx, inp: FrameInput, data: Seq<Pos>) -> bool {
        &&& self.idx < ctx.labels@.len()
        &&& input_ok(inp)
        &&& data_ok(data)
        &&& self.samples <= END_NUM_MAX
        &&& match self.y_over {
            Some(r) => val_ok(r.start) && val_ok(r.end),
            None => true,
        }
    }

    /// Runs one frame: applies the requested range, the pan step and the zoom
    /// step to this plot's persistent state, and maps the tick values and the
    /// sample points to screen space. Inputs out of machine bounds leave the
    /// registry unchanged and draw nothing.
    pub fn show(self, ctx: &mut PlotCtx, inp: &FrameInput, data: &Vec<Pos>) -> (out: FrameOutput)
        requires
            old(ctx).wf(),
        ensures
            final(ctx).wf(),
            final(ctx).labels@ == old(ctx).labels@,
            final(ctx).mems@.len() == old(ctx).mems@.len(),
            forall|j: int|
                0 <= j < old(ctx).mems@.len() && j != self.idx as int
                    ==> final(ctx).mems@[j] == old(ctx).mems@[j],
            !self.show_valid(*old(ctx), *inp, data@) ==> final(ctx).mems@ == old(ctx).mems@
                && out.ticks@.len() == 0 && out.points@.len() == 0 && out.plot_rect == inp.rect,
            self.show_valid(*old(ctx), *inp, data@) ==> ({
                let m0 = old(ctx).mems@[self.idx as int];
                let ys0 = match self.y_over {
                    Some(r) => to_grid(r.start@),
                    None => m0.ys as int,
                };
                let ye0 = match self.y_over {
                    Some(r) => to_grid(r.end@),
                    None => m0.ye as int,
                };
                let prect = spec_plot_rect(inp.rect, self.show_yticks);
                let (ys1, ye1, lp1) = spec_pan(
                    ys0,
                    ye0,
                    m0.last_pos,
                    inp.drag,
                    prect.min.y@,
                    prect.max.y@,
                );
                let (ys2, ye2) = spec_zoom(ys1, ye1, inp.hover, inp.scroll@, prect);
                &&& out.plot_rect == prect
                &&& final(ctx).mems@[self.idx as int] == Memory {
                    last_pos: lp1,
                    ys: ys2 as i64,
                    ye: ye2 as i64,
                }
                &&& !self.show_yticks ==> out.ticks@.len() == 0
                &&& self.show_yticks && ys2 == ye2 ==> out.ticks@.len() == 1
                &&& self.show_yticks && ys2 != ye2 ==> out.ticks@.len() == 5 && forall|k: int|
                    0 <= k < 5 ==> (#[trigger] out.ticks@[k]).value@ == spec_tick(ys2, ye2, k)
                        && out.ticks@[k].x == prect.min.x && out.ticks@[k].y.wf() && qeq(
                        out.ticks@[k].y@,
                        spec_remap(
                            spec_tick(ys2, ye2, k),
                            grid_q(ye2),
                            grid_q(ys2),
                            prect.min.y@,
                            prect.max.y@,
                        ),
                    )
                &&& out.points@.len() == data@.len()
                &&& forall|i: int|
                    0 <= i < data@.len() ==> (#[trigger] out.points@[i]).x.wf()
                        && out.points@[i].y.wf() && qeq(
                        out.points@[i].x@,
                        spec_remap(
                            data@[i].x@,
                            q_int(0),
                            q_int(self.samples as int),
                            prect.min.x@,
                            prect.max.x@,
                        ),
                    ) && qeq(
                        out.points@[i].y@,
                        spec_remap(
                            data@[i].y@,
                            grid_q(ye2),
                            grid_q(ys2),
                            prect.min.y@,
                            prect.max.y@,
                        ),
                    )
            }),
    {
        // Validate every input; out-of-bounds frames draw nothing.
        let mut valid: bool = self.idx < ctx.labels.len() && rat_in(&inp.scroll, PX_NUM_MAX)
            && rat_in(&inp.rect.min.x, PX_NUM_MAX) && rat_in(&inp.rect.min.y, PX_NUM_MAX)
            && rat_in(&inp.rect.max.x, PX_NUM_MAX) && rat_in(&inp.rect.max.y, PX_NUM_MAX)
            && self.samples as i128 <= END_NUM_MAX;
        valid = valid && match &inp.drag {
            Some(p) => rat_in(&p.x, PX_NUM_MAX) && rat_in(&p.y, PX_NUM_MAX),
            None => true,
        };
        valid = valid && match &inp.hover {
            Some(p) => rat_in(&p.x, PX_NUM_MAX) && rat_in(&p.y, PX_NUM_MAX),
            None => true,
        };
        valid = valid && match &self.y_over {
            Some(r) => rat_in(&r.start, END_NUM_MAX) && rat_in(&r.end, END_NUM_MAX),
            None => true,
        };
        let mut i: usize = 0;
        let n: usize = data.len();
        let mut dok: bool = true;
        while i < n
            invariant
                n == data@.len(),
                i <= n,
                dok == (forall|j: int|
                    0 <= j < i ==> val_ok((#[trigger] data@[j]).x) && val_ok(data@[j].y)),
            decreases n - i,
        {
            dok = dok && rat_in(&data[i].x, END_NUM_MAX) && rat_in(&data[i].y, END_NUM_MAX);
            i = i + 1;
        }
        valid = valid && dok;
        if !valid {
            proof {
                assert(!self.show_valid(*old(ctx), *inp, data@));
            }
            return FrameOutput { plot_rect: inp.rect, ticks: Vec::new(), points: Vec::new() };
        }
        assert(self.show_valid(*old(ctx), *inp, data@));
        // The plotting rectangle, with the tick-label margin taken off.
        let prect: Rect = if self.show_yticks {
            Rect {
                min: Pos {
                    x: Rat {
                        num: inp.rect.min.x.num + 40 * inp.rect.min.x.den,
                        den: inp.rect.min.x.den,
                    },
                    y: inp.rect.min.y,
                },
                max: inp.rect.max,
            }
        } else {
            inp.rect
        };
        // The requested range, if any, replaces the persisted one.
        let mut mem: Memory = ctx.mems[self.idx];
        match &self.y_over {
            Some(r) => {
                mem.ys = to_grid_amount(&r.start);
                mem.ye = to_grid_amount(&r.end);
            },
            None => {},
        }
        // Pan, then zoom.
        mem.apply_pan(&inp.drag, &prect.min.y, &prect.max.y);
        mem.apply_zoom(&inp.hover, &inp.scroll, &prect);
        ctx.mems[self.idx] = mem;
        // Tick marks from the updated range.
        let mut ticks: Vec<TickMark> = Vec::new();
        let ys_rat = Rat { num: mem.ys as i128, den: GRID as i128 };
        let ye_rat = Rat { num: mem.ye as i128, den: GRID as i128 };
        if self.show_yticks {
            let tvs = calc_tick4(mem.ys, mem.ye);
            let mut k: usize = 0;
            let tn: usize = tvs.len();
            while k < tn
                invariant
                    tn == tvs@.len(),
                    k <= tn,
                    ticks@.len() == k,
                    ys_rat == (Rat { num: mem.ys as i128, den: GRID as i128 }),
                    ye_rat == (Rat { num: mem.ye as i128, den: GRID as i128 }),
                    grid_ok(mem.ys),
                    grid_ok(mem.ye),
                    px_ok(prect.min.y),
                    px_ok(prect.max.y),
                    forall|j: int|
                        0 <= j < tvs@.len() ==> (#[trigger] tvs@[j]).wf() && crate::rat::mid_ok(
                            tvs@[j],
                        ),
                    forall|j: int|
                        0 <= j < k ==> (#[trigger] ticks@[j]).value == tvs@[j]
                            && ticks@[j].x == prect.min.x && ticks@[j].y.wf() && qeq(
                            ticks@[j].y@,
                            spec_remap(
                                tvs@[j]@,
                                grid_q(mem.ye as int),
                                grid_q(mem.ys as int),
                                prect.min.y@,
                                prect.max.y@,
                            ),
                        ),
                decreases tn - k,
            {
                let tv: Rat = tvs[k];
                let ty = remap(&tv, &ye_rat, &ys_rat, &prect.min.y, &prect.max.y);
                ticks.push(TickMark { x: prect.min.x, y: ty, value: tv });
                k = k + 1;
            }
        }
        // The sample polyline, mapped point by point.
        let mut points: Vec<Pos> = Vec::new();
        let x0_rat = Rat { num: 0, den: 1 };
        let x1_rat = Rat { num: self.samples as i128, den: 1 };
        let mut i2: usize = 0;
        while i2 < n
            invariant
                n == data@.len(),
                i2 <= n,
                points@.len() == i2,
                data_ok(data@),
                x0_rat == (Rat { num: 0, den: 1 }),
                x1_rat.num == self.samples as i128,
                x1_rat.den == 1,
                self.samples <= END_NUM_MAX,
                ys_rat == (Rat { num: mem.ys as i128, den: GRID as i128 }),
                ye_rat == (Rat { num: mem.ye as i128, den: GRID as i128 }),
                grid_ok(mem.ys),
                grid_ok(mem.ye),
                px_ok(prect.min.y),
                px_ok(prect.max.y),
                val_ok(prect.min.x),
                val_ok(prect.max.x),
                forall|j: int|
                    0 <= j < i2 ==> (#[trigger] points@[j]).x.wf() && points@[j].y.wf() && qeq(
                        points@[j].x@,
                        spec_remap(
                            data@[j].x@,
                            q_int(0),
                            q_int(self.samples as int),
                            prect.min.x@,
                            prect.max.x@,
                        ),
                    ) && qeq(
                        points@[j].y@,
                        spec_remap(
                            data@[j].y@,
                            grid_q(mem.ye as int),
                            grid_q(mem.ys as int),
                            prect.min.y@,
                            prect.max.y@,
                        ),
                    ),
            decreases n - i2,
        {
            let p: Pos = data[i2];
            let sx = remap(&p.x, &x0_rat, &x1_rat, &prect.min.x, &prect.max.x);
            let sy = remap(&p.y, &ye_rat, &ys_rat, &prect.min.y, &prect.max.y);
            points.push(Pos { x: sx, y: sy });
            i2 = i2 + 1;
        }
        FrameOutput { plot_rect: prect, ticks, points }
    }
}

/// Machine-bound test for one rational: numerator within `nb`, denominator
/// positive and at most the endpoint denominator bound.
pub fn rat_in(r: &Rat, nb: i128) -> (res: bool)
    requires
        0 <= nb,
    ensures
        res == (num_within(*r, nb as int) && den_within(*r, DEN_MAX as int)),
{
    -nb <= r.num && r.num <= nb && 0 < r.den && r.den <= DEN_MAX
}

/// Rounds a requested range endpoint to the grid and clips it to bounds.
pub fn to_grid_amount(r: &Rat) -> (g: i64)
    requires
        r.wf(),
        num_within(*r, ROUND_MAX as int),
        r.den <= ROUND_MAX,
    ensures
        g as int == to_grid(r@),
        grid_ok(g),
{
    let raw: i128 = grid_round(r);
    let lim: i128 = VAL_GRID_MAX as i128;
    if raw > lim {
        VAL_GRID_MAX
    } else if raw < -lim {
        -VAL_GRID_MAX
    } else {
        raw as i64
    }
}

} // verus!
