//! Snapping: the shortest move that brings an edge or the centre of one
//! monitor into line with an edge or the centre of another, or with the origin.

use vstd::prelude::*;
use crate::error::LayoutError;
use crate::fraction::{
    clamp_i32, lemma_chain_below, lemma_rounded_is_near, lemma_rounding_keeps_order,
    lemma_rounding_settles, lemma_same_value_same_rounding, Fraction, Rational,
};
use crate::monitor::{Axis, Monitor};

verus! {

/// The position and the logical size of a rectangle on one axis.
pub open spec fn on_axis(g: (int, int, Rational, Rational), axis: Axis) -> (int, Rational) {
    match axis {
        Axis::Horizontal => (g.0, g.2),
        Axis::Vertical => (g.1, g.3),
    }
}

/// The three lines of a rectangle that can be brought into line with
/// another: its lower edge, its upper edge and its centre, in this order.
pub open spec fn marks_of(p: int, e: Rational) -> Seq<Rational> {
    seq![
        Rational::whole(p),
        e.plus_whole(p),
        Rational { num: e.num + 2 * p * e.den, den: 2 * e.den },
    ]
}

/// The lines of a monitor that snapping brings into line with a target.
pub open spec fn sources(m: Monitor, axis: Axis) -> Seq<Rational> {
    let g = m.spec_geometry().unwrap();
    marks_of(on_axis(g, axis).0, on_axis(g, axis).1)
}

/// The lines that monitor `i` offers as targets: none if it is the selected
/// one, disabled, or has a mode but no position. A monitor without a
/// resolvable mode counts as a point at the origin.
pub open spec fn offered(ms: Seq<Monitor>, selected: int, axis: Axis, i: int) -> Seq<Rational> {
    if i == selected || !ms[i].enabled {
        Seq::empty()
    } else {
        match ms[i].spec_lenient_geometry() {
            Ok(g) => marks_of(on_axis(g, axis).0, on_axis(g, axis).1),
            Err(_) => Seq::empty(),
        }
    }
}

/// The targets that the first `n` monitors give: the origin, then the lines
/// of each monitor in turn.
pub open spec fn targets_upto(ms: Seq<Monitor>, selected: int, axis: Axis, n: int) -> Seq<
    Rational,
>
    decreases n,
{
    if n <= 0 {
        seq![Rational::whole(0)]
    } else {
        targets_upto(ms, selected, axis, n - 1) + offered(ms, selected, axis, n - 1)
    }
}

/// All targets for the selected monitor.
pub open spec fn targets(ms: Seq<Monitor>, selected: int, axis: Axis) -> Seq<Rational> {
    targets_upto(ms, selected, axis, ms.len() as int)
}

/// The displacement that carries source `i` onto target `j`.
pub open spec fn gap(sources: Seq<Rational>, targets: Seq<Rational>, i: int, j: int) -> Rational {
    targets[j].minus(sources[i])
}

/// Whether a displacement goes the requested way by more than a tenth.
pub open spec fn heads(d: Rational, direction: int) -> bool {
    ||| direction < 0 && 10 * d.num < -d.den
    ||| direction > 0 && 10 * d.num > d.den
}

/// Whether `a` is a shorter displacement than `b`.
pub open spec fn nearer(a: Rational, b: Rational) -> bool {
    a.magnitude().less(b.magnitude())
}

/// `(i, j)` is a pair of a source and a target.
pub open spec fn paired(sources: Seq<Rational>, targets: Seq<Rational>, i: int, j: int) -> bool {
    0 <= i < sources.len() && 0 <= j < targets.len()
}

/// The displacement of `(i, j)` goes the requested way, and no displacement
/// that does is shorter.
pub open spec fn is_nearest_pair(
    sources: Seq<Rational>,
    targets: Seq<Rational>,
    direction: int,
    i: int,
    j: int,
) -> bool {
    &&& paired(sources, targets, i, j)
    &&& heads(gap(sources, targets, i, j), direction)
    &&& forall|i2: int, j2: int|
        paired(sources, targets, i2, j2) && heads(
            #[trigger] gap(sources, targets, i2, j2),
            direction,
        ) ==> !nearer(gap(sources, targets, i2, j2), gap(sources, targets, i, j))
}

/// `found` is what snapping gives: nothing where no displacement goes the
/// requested way, else the shortest such displacement, rounded to the nearest
/// whole number and held to the range of `i32`.
pub open spec fn is_snap(
    sources: Seq<Rational>,
    targets: Seq<Rational>,
    direction: int,
    found: Option<i32>,
) -> bool {
    match found {
        None => forall|i: int, j: int|
            paired(sources, targets, i, j) ==> !heads(
                #[trigger] gap(sources, targets, i, j),
                direction,
            ),
        Some(delta) => exists|i: int, j: int|
            is_nearest_pair(sources, targets, direction, i, j) && delta as int == clamp_i32(
                (#[trigger] gap(sources, targets, i, j)).rounded(),
            ),
    }
}

/// What snapping owes for given monitors: a selection past the end of the
/// list and a selected monitor without mode or position are refused; else
/// the sources are the lines of the selected monitor and the targets those
/// of the others.
pub open spec fn snap_result(
    ms: Seq<Monitor>,
    selected: int,
    axis: Axis,
    direction: int,
    r: Result<Option<i32>, LayoutError>,
) -> bool {
    if !(0 <= selected < ms.len()) {
        r == Err::<Option<i32>, LayoutError>(LayoutError::IndexOutOfRange)
    } else {
        match ms[selected].spec_geometry() {
            Err(e) => r == Err::<Option<i32>, LayoutError>(e),
            Ok(_) => r matches Ok(found) && is_snap(
                sources(ms[selected], axis),
                targets(ms, selected, axis),
                direction,
                found,
            ),
        }
    }
}

/// The result of snapping monitor `selected` along `axis`: the one value
/// that meets `snap_result`.
pub open spec fn snap_of(ms: Seq<Monitor>, selected: int, axis: Axis, direction: int) -> Result<
    Option<i32>,
    LayoutError,
> {
    choose|r: Result<Option<i32>, LayoutError>| snap_result(ms, selected, axis, direction, r)
}

/// The targets do not depend on the selected monitor itself.
pub proof fn lemma_targets_ignore_selected(
    ms: Seq<Monitor>,
    selected: int,
    axis: Axis,
    other: Monitor,
)
    requires
        0 <= selected < ms.len(),
    ensures
        targets(ms.update(selected, other), selected, axis) == targets(ms, selected, axis),
{
    lemma_targets_upto_ignore_selected(ms, selected, axis, other, ms.len() as int);
}

proof fn lemma_targets_upto_ignore_selected(
    ms: Seq<Monitor>,
    selected: int,
    axis: Axis,
    other: Monitor,
    n: int,
)
    requires
        0 <= selected < ms.len(),
        0 <= n <= ms.len(),
    ensures
        targets_upto(ms.update(selected, other), selected, axis, n) == targets_upto(
            ms,
            selected,
            axis,
            n,
        ),
    decreases n,
{
    if n > 0 {
        lemma_targets_upto_ignore_selected(ms, selected, axis, other, n - 1);
        let after = ms.update(selected, other);
        assert(offered(after, selected, axis, n - 1) == offered(ms, selected, axis, n - 1));
    }
}

/// Every target has a positive denominator where every scale is positive.
pub proof fn lemma_targets_wf(ms: Seq<Monitor>, selected: int, axis: Axis, n: int)
    requires
        0 <= n <= ms.len(),
        forall|k: int| 0 <= k < ms.len() ==> (#[trigger] ms[k]).spec_scale() > 0,
    ensures
        forall|j: int|
            0 <= j < targets_upto(ms, selected, axis, n).len() ==> (#[trigger] targets_upto(
                ms,
                selected,
                axis,
                n,
            )[j]).wf(),
    decreases n,
{
    if n > 0 {
        lemma_targets_wf(ms, selected, axis, n - 1);
        let m = ms[n - 1];
        assert(m.spec_scale() > 0);
        let more = offered(ms, selected, axis, n - 1);
        let less = targets_upto(ms, selected, axis, n - 1);
        let all = targets_upto(ms, selected, axis, n);
        assert(all == less + more);
        if more.len() > 0 {
            let g = m.spec_lenient_geometry().unwrap();
            let e = on_axis(g, axis).1;
            assert(e.wf());
            assert(more == marks_of(on_axis(g, axis).0, e));
            assert(more[0].wf() && more[1].wf() && more[2].wf());
        }
        assert forall|j: int| 0 <= j < all.len() implies (#[trigger] all[j]).wf() by {
            if j < less.len() {
                assert(all[j] == less[j]);
            } else {
                assert(all[j] == more[j - less.len()]);
            }
        }
    } else {
        assert(targets_upto(ms, selected, axis, n)[0] == Rational::whole(0));
    }
}

/// Moving a rectangle by whole units moves each of its three lines by as much.
pub proof fn lemma_marks_shift(p: int, e: Rational, delta: int, k: int)
    requires
        0 <= k < 3,
    ensures
        marks_of(p + delta, e)[k] == marks_of(p, e)[k].plus_whole(delta),
{
    assert((p + delta) * e.den == p * e.den + delta * e.den) by (nonlinear_arith);
    assert(2 * (p + delta) * e.den == 2 * p * e.den + delta * (2 * e.den)) by (nonlinear_arith);
    let was = marks_of(p, e);
    let now = marks_of(p + delta, e);
    assert(was[0] == Rational::whole(p) && now[0] == Rational::whole(p + delta));
    assert(delta * Rational::whole(p).den == delta) by (nonlinear_arith)
        requires
            Rational::whole(p).den == 1,
    ;
    assert(now[0] == was[0].plus_whole(delta));
    assert(now[1] == was[1].plus_whole(delta));
    assert(now[2] == was[2].plus_whole(delta));
}

/// Moving a source by whole units shortens its displacement to any target
/// by as much.
pub proof fn lemma_gap_shift(s: Rational, t: Rational, delta: int)
    ensures
        t.minus(s.plus_whole(delta)) == t.minus(s).plus_whole(-delta),
{
    assert(t.num * s.den - (s.num + delta * s.den) * t.den == (t.num * s.den - s.num * t.den) + (
    -delta) * (t.den * s.den)) by (nonlinear_arith);
}

/// After a snap, the pair of lines that was brought into line lies within
/// half a unit of each other and asks for no further move the same way:
/// what is left between them either does not go that way by more than a
/// tenth, or rounds to zero.
pub proof fn lemma_snap_settles(
    ms: Seq<Monitor>,
    selected: int,
    axis: Axis,
    direction: int,
    i: int,
    j: int,
)
    requires
        0 <= selected < ms.len(),
        forall|k: int| 0 <= k < ms.len() ==> (#[trigger] ms[k]).spec_scale() > 0,
        ms[selected].spec_geometry() is Ok,
        paired(sources(ms[selected], axis), targets(ms, selected, axis), i, j),
        heads(gap(sources(ms[selected], axis), targets(ms, selected, axis), i, j), direction),
        ms[selected].can_move_along(
            axis,
            gap(sources(ms[selected], axis), targets(ms, selected, axis), i, j).rounded(),
        ),
    ensures
        ({
            let before = gap(sources(ms[selected], axis), targets(ms, selected, axis), i, j);
            let landed = ms[selected].moved_along(axis, before.rounded());
            let after = ms.update(selected, landed);
            let rest = gap(sources(landed, axis), targets(after, selected, axis), i, j);
            &&& landed.spec_geometry() is Ok
            &&& targets(after, selected, axis) == targets(ms, selected, axis)
            &&& rest == before.plus_whole(-before.rounded())
            &&& -rest.den <= 2 * rest.num <= rest.den
            &&& !heads(rest, direction) || rest.rounded() == 0
        }),
{
    let m = ms[selected];
    let src = sources(m, axis);
    let tgt = targets(ms, selected, axis);
    let before = gap(src, tgt, i, j);
    let delta = before.rounded();
    let landed = m.moved_along(axis, delta);
    let after = ms.update(selected, landed);
    lemma_targets_ignore_selected(ms, selected, axis, landed);
    lemma_targets_wf(ms, selected, axis, ms.len() as int);
    let g = m.spec_geometry().unwrap();
    let p = on_axis(g, axis).0;
    let e = on_axis(g, axis).1;
    assert(landed.spec_extent() == m.spec_extent());
    let g2 = landed.spec_geometry().unwrap();
    assert(on_axis(g2, axis) == (p + delta, e));
    lemma_marks_shift(p, e, delta, i);
    lemma_gap_shift(src[i], tgt[j], delta);
    assert(src[i].wf());
    lemma_gap_wf(src, tgt, i, j);
    lemma_rounding_settles(before, direction > 0);
    lemma_rounded_is_near(before);
    assert((-delta) * before.den == -(delta * before.den)) by (nonlinear_arith);
}

/// Two displacements that go the same way and are equally short round to
/// the same move.
pub proof fn lemma_nearest_pairs_agree(
    sources: Seq<Rational>,
    targets: Seq<Rational>,
    direction: int,
    i: int,
    j: int,
    i2: int,
    j2: int,
)
    requires
        forall|k: int| 0 <= k < sources.len() ==> (#[trigger] sources[k]).wf(),
        forall|k: int| 0 <= k < targets.len() ==> (#[trigger] targets[k]).wf(),
        is_nearest_pair(sources, targets, direction, i, j),
        is_nearest_pair(sources, targets, direction, i2, j2),
    ensures
        gap(sources, targets, i, j).rounded() == gap(sources, targets, i2, j2).rounded(),
{
    let a = gap(sources, targets, i, j);
    let b = gap(sources, targets, i2, j2);
    lemma_gap_wf(sources, targets, i, j);
    lemma_gap_wf(sources, targets, i2, j2);
    assert(!nearer(a, b));
    assert(!nearer(b, a));
    assert((-a.num) * b.den == -(a.num * b.den) && (-b.num) * a.den == -(b.num * a.den))
        by (nonlinear_arith);
    assert(a.same(b));
    lemma_same_value_same_rounding(a, b);
}

/// The length of a move.
pub open spec fn length(delta: int) -> int {
    if delta < 0 {
        -delta
    } else {
        delta
    }
}

/// The move that snapping gives goes the requested way, and no displacement
/// that goes that way makes a shorter move.
pub proof fn lemma_snap_is_shortest(
    sources: Seq<Rational>,
    targets: Seq<Rational>,
    direction: int,
    found: i32,
    i: int,
    j: int,
)
    requires
        forall|k: int| 0 <= k < sources.len() ==> (#[trigger] sources[k]).wf(),
        forall|k: int| 0 <= k < targets.len() ==> (#[trigger] targets[k]).wf(),
        is_snap(sources, targets, direction, Some(found)),
        paired(sources, targets, i, j),
        heads(gap(sources, targets, i, j), direction),
    ensures
        direction > 0 ==> found >= 0,
        direction < 0 ==> found <= 0,
        length(found as int) <= length(clamp_i32(gap(sources, targets, i, j).rounded())),
{
    let (bi, bj) = choose|bi: int, bj: int|
        is_nearest_pair(sources, targets, direction, bi, bj) && found as int == clamp_i32(
            (#[trigger] gap(sources, targets, bi, bj)).rounded(),
        );
    let best = gap(sources, targets, bi, bj);
    let other = gap(sources, targets, i, j);
    lemma_gap_wf(sources, targets, bi, bj);
    lemma_gap_wf(sources, targets, i, j);
    assert(!nearer(other, best));
    lemma_rounding_keeps_order(best.magnitude(), other.magnitude());
    assert(best.magnitude().rounded() == length(best.rounded()));
    assert(other.magnitude().rounded() == length(other.rounded()));
}

/// Snapping has one result: any two values that meet `is_snap` are equal.
pub proof fn lemma_snap_is_determined(
    sources: Seq<Rational>,
    targets: Seq<Rational>,
    direction: int,
    one: Option<i32>,
    other: Option<i32>,
)
    requires
        forall|k: int| 0 <= k < sources.len() ==> (#[trigger] sources[k]).wf(),
        forall|k: int| 0 <= k < targets.len() ==> (#[trigger] targets[k]).wf(),
        is_snap(sources, targets, direction, one),
        is_snap(sources, targets, direction, other),
    ensures
        one == other,
{
    match (one, other) {
        (Some(a), Some(b)) => {
            let (i, j) = choose|i: int, j: int|
                is_nearest_pair(sources, targets, direction, i, j) && a as int == clamp_i32(
                    (#[trigger] gap(sources, targets, i, j)).rounded(),
                );
            let (i2, j2) = choose|i: int, j: int|
                is_nearest_pair(sources, targets, direction, i, j) && b as int == clamp_i32(
                    (#[trigger] gap(sources, targets, i, j)).rounded(),
                );
            lemma_nearest_pairs_agree(sources, targets, direction, i, j, i2, j2);
        },
        (Some(a), None) => {
            let (i, j) = choose|i: int, j: int|
                is_nearest_pair(sources, targets, direction, i, j) && a as int == clamp_i32(
                    (#[trigger] gap(sources, targets, i, j)).rounded(),
                );
            assert(heads(gap(sources, targets, i, j), direction));
        },
        (None, Some(b)) => {
            let (i, j) = choose|i: int, j: int|
                is_nearest_pair(sources, targets, direction, i, j) && b as int == clamp_i32(
                    (#[trigger] gap(sources, targets, i, j)).rounded(),
                );
            assert(heads(gap(sources, targets, i, j), direction));
        },
        (None, None) => {},
    }
}

/// A displacement between two lines, wide enough for any two of them.
struct Gap {
    num: i128,
    den: i128,
}

impl View for Gap {
    type V = Rational;

    closed spec fn view(&self) -> Rational {
        Rational { num: self.num as int, den: self.den as int }
    }
}

/// The bounds within which the lines of a monitor lie.
spec fn mark_fits(f: Fraction) -> bool {
    0 < f.den <= 0x2_0000 && -0x8_0000_0000_0000 <= f.num <= 0x8_0000_0000_0000
}

/// The bounds within which the displacements between such lines lie.
spec fn gap_fits(g: Gap) -> bool {
    0 < g.den <= 0x4_0000_0000 && -0x40_0000_0000_0000_0000 <= g.num <= 0x40_0000_0000_0000_0000
}

/// The three lines of a rectangle on one axis.
fn marks(p: i32, e: Fraction) -> (r: Vec<Fraction>)
    requires
        0 < e.den <= u16::MAX,
        -1000 * 0x8000_0000 <= e.num <= 1000 * 0x8000_0000,
    ensures
        r@.len() == 3,
        forall|k: int| 0 <= k < 3 ==> (#[trigger] r@[k])@ == marks_of(p as int, e@)[k],
        forall|k: int| 0 <= k < 3 ==> mark_fits(#[trigger] r@[k]),
{
    let at: i64 = p as i64;
    proof {
        assert(-0x8000_0000 * 0x1_0000 <= (p as int) * (e.den as int) <= 0x8000_0000 * 0x1_0000)
            by (nonlinear_arith)
            requires
                -0x8000_0000 <= p as int <= 0x8000_0000,
                0 < e.den as int <= 0x1_0000,
        ;
    }
    let shift: i64 = at * e.den;
    let mut r: Vec<Fraction> = Vec::new();
    r.push(Fraction { num: at, den: 1 });
    r.push(Fraction { num: e.num + shift, den: e.den });
    r.push(Fraction { num: e.num + 2 * shift, den: 2 * e.den });
    proof {
        assert(2 * (p as int) * (e.den as int) == 2 * ((p as int) * (e.den as int)))
            by (nonlinear_arith);
    }
    r
}

/// The displacement from line `s` to line `t`.
fn gap_between(s: &Fraction, t: &Fraction) -> (g: Gap)
    requires
        mark_fits(*s),
        mark_fits(*t),
    ensures
        g@ == t@.minus(s@),
        gap_fits(g),
{
    let tn: i128 = t.num as i128;
    let td: i128 = t.den as i128;
    let sn: i128 = s.num as i128;
    let sd: i128 = s.den as i128;
    proof {
        assert(-0x8_0000_0000_0000 * 0x2_0000 <= tn * sd <= 0x8_0000_0000_0000 * 0x2_0000)
            by (nonlinear_arith)
            requires
                -0x8_0000_0000_0000 <= tn <= 0x8_0000_0000_0000,
                0 < sd <= 0x2_0000,
        ;
        assert(-0x8_0000_0000_0000 * 0x2_0000 <= sn * td <= 0x8_0000_0000_0000 * 0x2_0000)
            by (nonlinear_arith)
            requires
                -0x8_0000_0000_0000 <= sn <= 0x8_0000_0000_0000,
                0 < td <= 0x2_0000,
        ;
        assert(0 < td * sd <= 0x2_0000 * 0x2_0000) by (nonlinear_arith)
            requires
                0 < td <= 0x2_0000,
                0 < sd <= 0x2_0000,
        ;
    }
    Gap { num: tn * sd - sn * td, den: td * sd }
}

/// Whether the displacement goes the requested way by more than a tenth.
fn goes(g: &Gap, direction: i32) -> (r: bool)
    requires
        gap_fits(*g),
    ensures
        r == heads(g@, direction as int),
{
    (direction < 0 && 10 * g.num < -g.den) || (direction > 0 && 10 * g.num > g.den)
}

/// Whether `a` is shorter than `b`.
fn is_nearer(a: &Gap, b: &Gap) -> (r: bool)
    requires
        gap_fits(*a),
        gap_fits(*b),
    ensures
        r == nearer(a@, b@),
{
    let am: i128 = if a.num < 0 { -a.num } else { a.num };
    let bm: i128 = if b.num < 0 { -b.num } else { b.num };
    proof {
        assert(0 <= am * b.den <= 0x40_0000_0000_0000_0000 * 0x4_0000_0000) by (nonlinear_arith)
            requires
                0 <= am <= 0x40_0000_0000_0000_0000,
                0 < b.den <= 0x4_0000_0000,
        ;
        assert(0 <= bm * a.den <= 0x40_0000_0000_0000_0000 * 0x4_0000_0000) by (nonlinear_arith)
            requires
                0 <= bm <= 0x40_0000_0000_0000_0000,
                0 < a.den <= 0x4_0000_0000,
        ;
    }
    am * b.den < bm * a.den
}

/// The displacement as a whole number of units.
fn round(g: &Gap) -> (r: i32)
    requires
        gap_fits(*g),
    ensures
        r as int == clamp_i32(g@.rounded()),
{
    let m: i128 = if g.num < 0 { -g.num } else { g.num };
    let top: i128 = 2 * m + g.den;
    let bottom: i128 = 2 * g.den;
    let q: i128 = top / bottom;
    proof {
        assert(0 <= q <= top) by (nonlinear_arith)
            requires
                q == top as int / bottom as int,
                top >= 0,
                bottom > 0,
        ;
    }
    let whole: i128 = if g.num < 0 { -q } else { q };
    if whole < -2147483648 {
        -2147483648
    } else if whole > 2147483647 {
        2147483647
    } else {
        whole as i32
    }
}

/// What a list of lines stands for.
spec fn lines(v: Seq<Fraction>) -> Seq<Rational> {
    Seq::new(v.len(), |k: int| v[k]@)
}

/// Whether pair `(i2, j2)` comes before `(i, j)` when sources are walked
/// first and targets within each source.
spec fn walked(i2: int, j2: int, i: int, j: int) -> bool {
    i2 < i || (i2 == i && j2 < j)
}

/// The displacement between two lines has a positive denominator.
proof fn lemma_gap_wf(sources: Seq<Rational>, targets: Seq<Rational>, i: int, j: int)
    requires
        paired(sources, targets, i, j),
        sources[i].wf(),
        targets[j].wf(),
    ensures
        gap(sources, targets, i, j).wf(),
        gap(sources, targets, i, j).magnitude().wf(),
{
    assert(targets[j].den * sources[i].den > 0) by (nonlinear_arith)
        requires
            targets[j].den > 0,
            sources[i].den > 0,
    ;
}

/// The lines that every other enabled monitor offers, after the origin.
fn gather_targets(monitors: &Vec<Monitor>, selected: usize, axis: Axis) -> (r: Vec<Fraction>)
    ensures
        lines(r@) == targets(monitors@, selected as int, axis),
        forall|k: int| 0 <= k < r@.len() ==> mark_fits(#[trigger] r@[k]),
{
    let ghost ms = monitors@;
    let mut found: Vec<Fraction> = Vec::new();
    found.push(Fraction::from_whole(0));
    assert(lines(found@) =~= targets_upto(ms, selected as int, axis, 0));
    let n: usize = monitors.len();
    let mut i: usize = 0;
    while i < n
        invariant
            i <= n,
            n == ms.len(),
            ms == monitors@,
            lines(found@) == targets_upto(ms, selected as int, axis, i as int),
            forall|k: int| 0 <= k < found@.len() ==> mark_fits(#[trigger] found@[k]),
        decreases n - i,
    {
        let m: &Monitor = &monitors[i];
        let ghost before = found@;
        if i != selected && m.enabled {
            match m.get_geometry() {
                Ok((x, y, w, h)) => {
                    let p: i32 = match axis {
                        Axis::Horizontal => x,
                        Axis::Vertical => y,
                    };
                    let e: Fraction = match axis {
                        Axis::Horizontal => w,
                        Axis::Vertical => h,
                    };
                    let three: Vec<Fraction> = marks(p, e);
                    found.push(three[0]);
                    found.push(three[1]);
                    found.push(three[2]);
                    proof {
                        let g = ms[i as int].spec_lenient_geometry().unwrap();
                        assert(on_axis(g, axis) == (p as int, e@));
                        assert(lines(found@) =~= lines(before) + marks_of(p as int, e@));
                    }
                },
                Err(_) => {
                    proof {
                        assert(lines(found@) =~= lines(before) + Seq::<Rational>::empty());
                    }
                },
            }
        } else {
            proof {
                assert(lines(found@) =~= lines(before) + Seq::<Rational>::empty());
            }
        }
        i += 1;
    }
    found
}

/// The shortest displacement from a source to a target that goes the
/// requested way, as a whole number of units.
fn nearest(sources: &Vec<Fraction>, targets: &Vec<Fraction>, direction: i32) -> (r: Option<i32>)
    requires
        forall|k: int| 0 <= k < sources@.len() ==> mark_fits(#[trigger] sources@[k]),
        forall|k: int| 0 <= k < targets@.len() ==> mark_fits(#[trigger] targets@[k]),
    ensures
        is_snap(lines(sources@), lines(targets@), direction as int, r),
{
    let ghost src = lines(sources@);
    let ghost tgt = lines(targets@);
    let ghost way = direction as int;
    let mut best: Option<Gap> = None;
    let ghost mut bi: int = 0;
    let ghost mut bj: int = 0;
    let mut i: usize = 0;
    while i < sources.len()
        invariant
            i <= sources@.len(),
            src == lines(sources@),
            tgt == lines(targets@),
            way == direction as int,
            forall|k: int| 0 <= k < sources@.len() ==> mark_fits(#[trigger] sources@[k]),
            forall|k: int| 0 <= k < targets@.len() ==> mark_fits(#[trigger] targets@[k]),
            best is None ==> forall|i2: int, j2: int|
                paired(src, tgt, i2, j2) && walked(i2, j2, i as int, 0) ==> !heads(
                    #[trigger] gap(src, tgt, i2, j2),
                    way,
                ),
            best matches Some(b) ==> {
                &&& paired(src, tgt, bi, bj)
                &&& b@ == gap(src, tgt, bi, bj)
                &&& gap_fits(b)
                &&& heads(b@, way)
                &&& forall|i2: int, j2: int|
                    paired(src, tgt, i2, j2) && walked(i2, j2, i as int, 0) && heads(
                        #[trigger] gap(src, tgt, i2, j2),
                        way,
                    ) ==> !nearer(gap(src, tgt, i2, j2), b@)
            },
        decreases sources@.len() - i,
    {
        let mut j: usize = 0;
        while j < targets.len()
            invariant
                i < sources@.len(),
                j <= targets@.len(),
                src == lines(sources@),
                tgt == lines(targets@),
                way == direction as int,
                forall|k: int| 0 <= k < sources@.len() ==> mark_fits(#[trigger] sources@[k]),
                forall|k: int| 0 <= k < targets@.len() ==> mark_fits(#[trigger] targets@[k]),
                best is None ==> forall|i2: int, j2: int|
                    paired(src, tgt, i2, j2) && walked(i2, j2, i as int, j as int) ==> !heads(
                        #[trigger] gap(src, tgt, i2, j2),
                        way,
                    ),
                best matches Some(b) ==> {
                    &&& paired(src, tgt, bi, bj)
                    &&& b@ == gap(src, tgt, bi, bj)
                    &&& gap_fits(b)
                    &&& heads(b@, way)
                    &&& forall|i2: int, j2: int|
                        paired(src, tgt, i2, j2) && walked(i2, j2, i as int, j as int) && heads(
                            #[trigger] gap(src, tgt, i2, j2),
                            way,
                        ) ==> !nearer(gap(src, tgt, i2, j2), b@)
                },
            decreases targets@.len() - j,
        {
            let g: Gap = gap_between(&sources[i], &targets[j]);
            let ghost here = gap(src, tgt, i as int, j as int);
            proof {
                assert(g@ == here);
                assert(paired(src, tgt, i as int, j as int));
            }
            if goes(&g, direction) {
                let closer: bool = match &best {
                    None => true,
                    Some(b) => is_nearer(&g, b),
                };
                if closer {
                    proof {
                        let was = best;
                        assert forall|i2: int, j2: int|
                            paired(src, tgt, i2, j2) && walked(i2, j2, i as int, j as int + 1)
                                && heads(#[trigger] gap(src, tgt, i2, j2), way) implies !nearer(
                            gap(src, tgt, i2, j2),
                            here,
                        ) by {
                            let x = gap(src, tgt, i2, j2);
                            if walked(i2, j2, i as int, j as int) {
                                let b = was.unwrap();
                                assert(sources@[i2].den > 0 && targets@[j2].den > 0);
                                assert(sources@[i as int].den > 0 && targets@[j as int].den > 0);
                                assert(sources@[bi].den > 0 && targets@[bj].den > 0);
                                lemma_gap_wf(src, tgt, i2, j2);
                                lemma_gap_wf(src, tgt, i as int, j as int);
                                lemma_gap_wf(src, tgt, bi, bj);
                                lemma_chain_below(
                                    here.magnitude(),
                                    b@.magnitude(),
                                    x.magnitude(),
                                );
                            } else {
                                assert(i2 == i && j2 == j);
                            }
                        }
                        bi = i as int;
                        bj = j as int;
                    }
                    best = Some(g);
                } else {
                    proof {
                        assert forall|i2: int, j2: int|
                            paired(src, tgt, i2, j2) && walked(i2, j2, i as int, j as int + 1)
                                && heads(#[trigger] gap(src, tgt, i2, j2), way) implies !nearer(
                            gap(src, tgt, i2, j2),
                            best.unwrap()@,
                        ) by {
                            if !walked(i2, j2, i as int, j as int) {
                                assert(i2 == i && j2 == j);
                            }
                        }
                    }
                }
            } else {
                proof {
                    assert forall|i2: int, j2: int|
                        paired(src, tgt, i2, j2) && walked(i2, j2, i as int, j as int + 1)
                            && !walked(i2, j2, i as int, j as int) implies !heads(
                        #[trigger] gap(src, tgt, i2, j2),
                        way,
                    ) by {
                        assert(i2 == i && j2 == j);
                    }
                }
            }
            j += 1;
        }
        proof {
            assert forall|i2: int, j2: int|
                paired(src, tgt, i2, j2) && walked(i2, j2, i as int + 1, 0) implies walked(
                i2,
                j2,
                i as int,
                targets@.len() as int,
            ) by {}
        }
        i += 1;
    }
    match best {
        None => {
            proof {
                assert forall|i2: int, j2: int| paired(src, tgt, i2, j2) implies !heads(
                    #[trigger] gap(src, tgt, i2, j2),
                    way,
                ) by {
                    assert(walked(i2, j2, sources@.len() as int, 0));
                }
            }
            None
        },
        Some(b) => {
            let delta: i32 = round(&b);
            proof {
                assert forall|i2: int, j2: int|
                    paired(src, tgt, i2, j2) && heads(
                        #[trigger] gap(src, tgt, i2, j2),
                        way,
                    ) implies !nearer(gap(src, tgt, i2, j2), gap(src, tgt, bi, bj)) by {
                    assert(walked(i2, j2, sources@.len() as int, 0));
                }
                assert(is_nearest_pair(src, tgt, way, bi, bj));
            }
            Some(delta)
        },
    }
}

/// The move that snaps monitor `selected` along `axis`: towards lower
/// coordinates for a negative `direction`, towards higher ones for a positive
/// one. The sources are the lower edge, the upper edge and the centre of the
/// selected monitor; the targets are the origin and the same three lines of
/// every other enabled monitor that has a position. Where several pairs are
/// equally near, they give the same move.
pub fn snap(monitors: &Vec<Monitor>, selected: usize, axis: Axis, direction: i32) -> (r: Result<
    Option<i32>,
    LayoutError,
>)
    ensures
        snap_result(monitors@, selected as int, axis, direction as int, r),
        r == snap_of(monitors@, selected as int, axis, direction as int),
{
    let ghost named = snap_of(monitors@, selected as int, axis, direction as int);
    if selected >= monitors.len() {
        let r = Err(LayoutError::IndexOutOfRange);
        assert(snap_result(monitors@, selected as int, axis, direction as int, r));
        return r;
    }
    match monitors[selected].geometry() {
        Err(e) => {
            let r = Err(e);
            assert(snap_result(monitors@, selected as int, axis, direction as int, r));
            r
        },
        Ok((x, y, w, h)) => {
            let p: i32 = match axis {
                Axis::Horizontal => x,
                Axis::Vertical => y,
            };
            let e: Fraction = match axis {
                Axis::Horizontal => w,
                Axis::Vertical => h,
            };
            let sources: Vec<Fraction> = marks(p, e);
            let targets: Vec<Fraction> = gather_targets(monitors, selected, axis);
            proof {
                let g = monitors@[selected as int].spec_geometry().unwrap();
                assert(on_axis(g, axis) == (p as int, e@));
                assert(lines(sources@) =~= self::sources(monitors@[selected as int], axis));
            }
            let found: Option<i32> = nearest(&sources, &targets, direction);
            let r = Ok(found);
            proof {
                assert(snap_result(monitors@, selected as int, axis, direction as int, r));
                lemma_lines_wf(sources@);
                lemma_lines_wf(targets@);
                lemma_snap_is_determined(
                    lines(sources@),
                    lines(targets@),
                    direction as int,
                    found,
                    named.unwrap(),
                );
            }
            r
        },
    }
}

/// Where every line has a positive denominator, what a list of lines
/// stands for has too.
proof fn lemma_lines_wf(v: Seq<Fraction>)
    requires
        forall|k: int| 0 <= k < v.len() ==> mark_fits(#[trigger] v[k]),
    ensures
        forall|k: int| 0 <= k < lines(v).len() ==> (#[trigger] lines(v)[k]).wf(),
{
    assert forall|k: int| 0 <= k < lines(v).len() implies (#[trigger] lines(v)[k]).wf() by {
        assert(mark_fits(v[k]));
    }
}

} // verus!
