use eplot::geom::{Pos, Rect};
use eplot::plot::{FrameInput, PlotCtx};
use eplot::rat::Rat;
use eplot::ticks::calc_tick4;
use eplot::transform::remap;
use eplot::view::Memory;

fn rat(num: i128, den: i128) -> Rat {
    Rat { num, den }
}

fn same_value(a: &Rat, b: &Rat) -> bool {
    a.num * b.den == b.num * a.den
}

fn value_of(r: &Rat) -> f64 {
    r.num as f64 / r.den as f64
}

fn pos(x: i128, y: i128) -> Pos {
    Pos { x: rat(x, 1), y: rat(y, 1) }
}

fn screen_rect() -> Rect {
    Rect { min: pos(0, 0), max: pos(400, 300) }
}

fn quiet_input() -> FrameInput {
    FrameInput { rect: screen_rect(), drag: None, hover: None, scroll: rat(0, 1) }
}

#[test]
fn forward_transform_exact_value() {
    let y = remap(&rat(3, 1), &rat(0, 1), &rat(10, 1), &rat(100, 1), &rat(200, 1));
    assert!(y.den > 0);
    assert!(same_value(&y, &rat(130, 1)));
}

#[test]
fn forward_then_inverse_round_trips() {
    let x = rat(7, 2);
    let y = remap(&x, &rat(0, 1), &rat(10, 1), &rat(100, 1), &rat(200, 1));
    let back = remap(&y, &rat(100, 1), &rat(200, 1), &rat(0, 1), &rat(10, 1));
    assert!(back.den > 0);
    assert!(same_value(&back, &x));
}

#[test]
fn round_trip_with_inverted_range() {
    let x = rat(-3, 4);
    let y = remap(&x, &rat(-5, 1), &rat(5, 1), &rat(50, 1), &rat(-50, 1));
    let back = remap(&y, &rat(50, 1), &rat(-50, 1), &rat(-5, 1), &rat(5, 1));
    assert!(same_value(&back, &x));
}

#[test]
fn degenerate_domain_gives_range_midpoint() {
    let y = remap(&rat(5, 1), &rat(7, 1), &rat(7, 1), &rat(10, 1), &rat(20, 1));
    assert!(y.den > 0);
    assert!(same_value(&y, &rat(15, 1)));
}

#[test]
fn ticks_zero_to_hundred() {
    let ticks = calc_tick4(0, 100 * 1024);
    let want = [0i128, 25, 50, 75, 100];
    assert_eq!(ticks.len(), 5);
    for k in 0..5 {
        assert!(same_value(&ticks[k], &rat(want[k], 1)));
    }
}

#[test]
fn ticks_symmetric_range() {
    let ticks = calc_tick4(-100 * 1024, 100 * 1024);
    let want = [-100i128, -50, 0, 50, 100];
    assert_eq!(ticks.len(), 5);
    for k in 0..5 {
        assert!(same_value(&ticks[k], &rat(want[k], 1)));
    }
}

#[test]
fn ticks_degenerate_range_terminates_with_one_value() {
    let ticks = calc_tick4(5 * 1024, 5 * 1024);
    assert_eq!(ticks.len(), 1);
    assert!(same_value(&ticks[0], &rat(5, 1)));
}

#[test]
fn pan_shifts_both_ends_and_keeps_width() {
    let mut m = Memory { last_pos: Some(pos(10, 50)), ys: 0, ye: 100 * 1024 };
    m.apply_pan(&Some(pos(10, 60)), &rat(0, 1), &rat(100, 1));
    // Ten pixels over a hundred-pixel-high rectangle showing a width of 100:
    // both ends shift by exactly ten data units.
    assert_eq!(m.ys, 10 * 1024);
    assert_eq!(m.ye, 110 * 1024);
    assert_eq!(m.ye - m.ys, 100 * 1024);
    assert_eq!(m.last_pos.unwrap().y.num, 60);
}

#[test]
fn pan_without_anchor_only_stores_pointer() {
    let mut m = Memory { last_pos: None, ys: 0, ye: 100 * 1024 };
    m.apply_pan(&Some(pos(10, 60)), &rat(0, 1), &rat(100, 1));
    assert_eq!(m.ys, 0);
    assert_eq!(m.ye, 100 * 1024);
    assert_eq!(m.last_pos.unwrap().y.num, 60);
}

#[test]
fn releasing_the_pointer_clears_the_anchor() {
    let mut m = Memory { last_pos: Some(pos(10, 50)), ys: 0, ye: 100 * 1024 };
    m.apply_pan(&None, &rat(0, 1), &rat(100, 1));
    assert!(m.last_pos.is_none());
    assert_eq!(m.ys, 0);
    assert_eq!(m.ye, 100 * 1024);
}

#[test]
fn zoom_at_midpoint_is_symmetric() {
    let rect = Rect { min: pos(0, 0), max: pos(400, 100) };
    let mut m = Memory { last_pos: None, ys: 0, ye: 100 * 1024 };
    m.apply_zoom(&Some(pos(200, 50)), &rat(10, 1), &rect);
    // f = -0.1, bd = 1/2, r = 100: both ends move in by five data units.
    assert_eq!(m.ys, 5 * 1024);
    assert_eq!(m.ye, 95 * 1024);
    assert_eq!(m.ys - 0, -(m.ye - 100 * 1024));
}

#[test]
fn zoom_at_bottom_edge_keeps_start() {
    let rect = Rect { min: pos(0, 0), max: pos(400, 100) };
    let mut m = Memory { last_pos: None, ys: 0, ye: 100 * 1024 };
    m.apply_zoom(&Some(pos(200, 100)), &rat(10, 1), &rect);
    // bd = 0: the start does not move, the end absorbs the whole change.
    assert_eq!(m.ys, 0);
    assert_eq!(m.ye, 90 * 1024);
}

#[test]
fn zoom_outside_rectangle_is_a_no_op() {
    let rect = Rect { min: pos(0, 0), max: pos(400, 100) };
    let mut m = Memory { last_pos: None, ys: 0, ye: 100 * 1024 };
    m.apply_zoom(&Some(pos(500, 50)), &rat(10, 1), &rect);
    assert_eq!(m.ys, 0);
    assert_eq!(m.ye, 100 * 1024);
}

#[test]
fn scroll_amount_is_clamped() {
    let rect = Rect { min: pos(0, 0), max: pos(400, 100) };
    let mut m = Memory { last_pos: None, ys: 0, ye: 100 * 1024 };
    // A huge scroll acts like ten.
    m.apply_zoom(&Some(pos(200, 50)), &rat(1000000, 1), &rect);
    assert_eq!(m.ys, 5 * 1024);
    assert_eq!(m.ye, 95 * 1024);
}

#[test]
fn registry_keeps_labels_independent() {
    let mut ctx = PlotCtx::new();
    let pa = ctx.plot("alpha".to_string(), rat(400, 1), rat(300, 1), 10, false);
    let pb = ctx.plot("beta".to_string(), rat(400, 1), rat(300, 1), 10, false);
    assert_ne!(pa.idx, pb.idx);
    let before = (ctx.mems[pb.idx].ys, ctx.mems[pb.idx].ye);
    // Drag inside the first plot across two frames.
    let data: Vec<Pos> = (0..10).map(|i| pos(i, i)).collect();
    let mut inp = quiet_input();
    inp.drag = Some(pos(10, 50));
    let p = ctx.plot("alpha".to_string(), rat(400, 1), rat(300, 1), 10, false);
    p.show(&mut ctx, &inp, &data);
    inp.drag = Some(pos(10, 90));
    let p = ctx.plot("alpha".to_string(), rat(400, 1), rat(300, 1), 10, false);
    p.show(&mut ctx, &inp, &data);
    let pa = ctx.plot("alpha".to_string(), rat(400, 1), rat(300, 1), 10, false);
    assert_ne!((ctx.mems[pa.idx].ys, ctx.mems[pa.idx].ye), (-100 * 1024, 100 * 1024));
    assert_eq!((ctx.mems[pb.idx].ys, ctx.mems[pb.idx].ye), before);
}

#[test]
fn same_label_returns_same_entry() {
    let mut ctx = PlotCtx::new();
    let pa = ctx.plot("alpha".to_string(), rat(400, 1), rat(300, 1), 10, false);
    let pb = ctx.plot("alpha".to_string(), rat(400, 1), rat(300, 1), 20, true);
    assert_eq!(pa.idx, pb.idx);
    assert_eq!(ctx.labels.len(), 1);
}

#[test]
fn fresh_entry_has_default_range() {
    let mut ctx = PlotCtx::new();
    let p = ctx.plot("alpha".to_string(), rat(400, 1), rat(300, 1), 10, false);
    assert_eq!(ctx.mems[p.idx].ys, -100 * 1024);
    assert_eq!(ctx.mems[p.idx].ye, 100 * 1024);
    assert!(ctx.mems[p.idx].last_pos.is_none());
}

#[test]
fn set_y_range_overrides_persisted_range() {
    let mut ctx = PlotCtx::new();
    let data: Vec<Pos> = (0..10).map(|i| pos(i, i)).collect();
    let mut p = ctx.plot("alpha".to_string(), rat(400, 1), rat(300, 1), 10, false);
    p.set_y_range(rat(0, 1), rat(50, 1));
    let idx = p.idx;
    p.show(&mut ctx, &quiet_input(), &data);
    assert_eq!(ctx.mems[idx].ys, 0);
    assert_eq!(ctx.mems[idx].ye, 50 * 1024);
}

#[test]
fn full_frame_draws_five_ticks_and_all_points() {
    let mut ctx = PlotCtx::new();
    let data: Vec<Pos> = (0..100).map(|i| pos(i, i - 50)).collect();
    let p = ctx.plot("wave".to_string(), rat(400, 1), rat(300, 1), 100, true);
    let out = p.show(&mut ctx, &quiet_input(), &data);
    // The forty-pixel label margin is taken off the left edge.
    assert_eq!(value_of(&out.plot_rect.min.x), 40.0);
    assert_eq!(value_of(&out.plot_rect.max.x), 400.0);
    assert_eq!(out.ticks.len(), 5);
    assert_eq!(out.points.len(), 100);
    let want = [-100.0f64, -50.0, 0.0, 50.0, 100.0];
    for k in 0..5 {
        assert_eq!(value_of(&out.ticks[k].value), want[k]);
        let ty = value_of(&out.ticks[k].y);
        assert!((0.0..=300.0).contains(&ty));
        assert_eq!(value_of(&out.ticks[k].x), 40.0);
    }
    for sp in &out.points {
        let sx = value_of(&sp.x);
        let sy = value_of(&sp.y);
        assert!((40.0..=400.0).contains(&sx));
        assert!((0.0..=300.0).contains(&sy));
    }
    // Higher data values sit higher on screen (smaller pixel y).
    assert!(value_of(&out.points[99].y) < value_of(&out.points[0].y));
}

#[test]
fn out_of_bounds_frame_draws_nothing_and_changes_nothing() {
    let mut ctx = PlotCtx::new();
    let p = ctx.plot("alpha".to_string(), rat(400, 1), rat(300, 1), 10, true);
    let idx = p.idx;
    let mut inp = quiet_input();
    // A denominator of zero is outside the machine bounds the frame accepts.
    inp.scroll = Rat { num: 1, den: 0 };
    let data: Vec<Pos> = (0..10).map(|i| pos(i, i)).collect();
    let out = p.show(&mut ctx, &inp, &data);
    assert_eq!(out.ticks.len(), 0);
    assert_eq!(out.points.len(), 0);
    assert_eq!(ctx.mems[idx].ys, -100 * 1024);
    assert_eq!(ctx.mems[idx].ye, 100 * 1024);
}
