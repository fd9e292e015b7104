//! The viewport that holds every enabled monitor, with a margin around them.

use vstd::prelude::*;
use crate::error::LayoutError;
use crate::fraction::{clamp_i32, lemma_below_chain, Fraction, Rational};
use crate::monitor::{Axis, Monitor};

verus! {

/// The width of the free band kept between the monitors and the viewport's edge.
pub const MARGIN: i64 = 50;

/// The viewport in which the enabled monitors are drawn.
///
/// `x_bounds` and `y_bounds` hold the lower and the upper edge on their axis.
/// `top` is the upper edge as a whole number; `offset_y` is the distance by
/// which a scene that reaches below zero has to be lifted.
#[derive(Clone, Copy, Debug, PartialEq, Eq)]
pub struct MonitorCanvas {
    pub top: i32,
    pub x_bounds: [Fraction; 2],
    pub y_bounds: [Fraction; 2],
    pub offset_y: i32,
}

/// What a viewport stands for.
pub struct CanvasView {
    pub top: int,
    pub left: Rational,
    pub right: Rational,
    pub bottom: Rational,
    pub upper: Rational,
    pub offset_y: int,
}

impl View for MonitorCanvas {
    type V = CanvasView;

    open spec fn view(&self) -> CanvasView {
        CanvasView {
            top: self.top as int,
            left: self.x_bounds[0]@,
            right: self.x_bounds[1]@,
            bottom: self.y_bounds[0]@,
            upper: self.y_bounds[1]@,
            offset_y: self.offset_y as int,
        }
    }
}

/// The smallest box around a set of rectangles: `left` and `bottom` are whole
/// because positions are.
pub struct Hull {
    pub left: int,
    pub right: Rational,
    pub bottom: int,
    pub upper: Rational,
}

/// What keeps an enabled monitor from being placed, if anything.
pub open spec fn defect(m: Monitor) -> Option<LayoutError> {
    match m.spec_geometry() {
        Ok(_) => None,
        Err(e) => Some(e),
    }
}

/// The lower edge of a monitor on an axis: its position there.
pub open spec fn near_of(m: Monitor, axis: Axis) -> int {
    match axis {
        Axis::Horizontal => m.spec_geometry().unwrap().0,
        Axis::Vertical => m.spec_geometry().unwrap().1,
    }
}

/// The upper edge of a monitor on an axis: its position plus its logical size.
pub open spec fn far_of(m: Monitor, axis: Axis) -> Rational {
    match axis {
        Axis::Horizontal => m.spec_geometry().unwrap().2.plus_whole(m.spec_geometry().unwrap().0),
        Axis::Vertical => m.spec_geometry().unwrap().3.plus_whole(m.spec_geometry().unwrap().1),
    }
}

/// `i` is an enabled monitor among the first `n`.
pub open spec fn shown(ms: Seq<Monitor>, n: int, i: int) -> bool {
    0 <= i < n && i < ms.len() && ms[i].enabled
}

/// `i` is the first enabled monitor that cannot be placed.
pub open spec fn is_first_defect(ms: Seq<Monitor>, i: int) -> bool {
    &&& shown(ms, ms.len() as int, i)
    &&& defect(ms[i]) is Some
    &&& forall|j: int| #[trigger] shown(ms, i, j) ==> defect(ms[j]) is None
}

/// The reason for which the first enabled monitor that cannot be placed
/// cannot be placed.
pub open spec fn first_defect(ms: Seq<Monitor>) -> Option<LayoutError> {
    if exists|i: int| is_first_defect(ms, i) {
        defect(ms[choose|i: int| is_first_defect(ms, i)])
    } else {
        None
    }
}

/// No enabled monitor among the first `n` starts lower on the axis than `i`.
pub open spec fn is_nearest(ms: Seq<Monitor>, axis: Axis, n: int, i: int) -> bool {
    &&& shown(ms, n, i)
    &&& forall|j: int| #[trigger] shown(ms, n, j) ==> near_of(ms[i], axis) <= near_of(ms[j], axis)
}

/// Among the first `n`, `i` is the first enabled monitor that reaches
/// furthest up the axis.
pub open spec fn is_first_farthest(ms: Seq<Monitor>, axis: Axis, n: int, i: int) -> bool {
    &&& shown(ms, n, i)
    &&& forall|j: int| #[trigger]
        shown(ms, n, j) ==> !far_of(ms[i], axis).less(far_of(ms[j], axis))
    &&& forall|j: int| #[trigger] shown(ms, i, j) ==> far_of(ms[j], axis).less(far_of(ms[i], axis))
}

/// The lowest start of an enabled monitor on the axis; zero where none is enabled.
pub open spec fn span_near(ms: Seq<Monitor>, axis: Axis) -> int {
    let n = ms.len() as int;
    if exists|i: int| shown(ms, n, i) {
        near_of(ms[choose|i: int| is_nearest(ms, axis, n, i)], axis)
    } else {
        0
    }
}

/// The highest end of an enabled monitor on the axis, as the first monitor
/// that reaches it gives it; zero where none is enabled.
pub open spec fn span_far(ms: Seq<Monitor>, axis: Axis) -> Rational {
    let n = ms.len() as int;
    if exists|i: int| shown(ms, n, i) {
        far_of(ms[choose|i: int| is_first_farthest(ms, axis, n, i)], axis)
    } else {
        Rational::whole(0)
    }
}

/// The smallest box around the enabled monitors; the origin alone where
/// none is enabled.
pub open spec fn hull_of(ms: Seq<Monitor>) -> Hull {
    Hull {
        left: span_near(ms, Axis::Horizontal),
        right: span_far(ms, Axis::Horizontal),
        bottom: span_near(ms, Axis::Vertical),
        upper: span_far(ms, Axis::Vertical),
    }
}

/// The viewport around a box: the box widened by the margin on every side.
pub open spec fn framed(h: Hull) -> CanvasView {
    let bottom = h.bottom - MARGIN;
    let upper = h.upper.plus_whole(MARGIN as int);
    CanvasView {
        top: clamp_i32(upper.truncated()),
        left: Rational::whole(h.left - MARGIN),
        right: h.right.plus_whole(MARGIN as int),
        bottom: Rational::whole(bottom),
        upper,
        offset_y: if bottom < 0 {
            clamp_i32(-bottom)
        } else {
            0
        },
    }
}

/// The viewport of a list of monitors.
pub open spec fn canvas_of(ms: Seq<Monitor>) -> CanvasView {
    framed(hull_of(ms))
}

/// The viewport of a list without an enabled monitor is the margin around
/// the origin.
pub proof fn lemma_empty_canvas(ms: Seq<Monitor>)
    requires
        forall|i: int| 0 <= i < ms.len() ==> !(#[trigger] ms[i]).enabled,
    ensures
        first_defect(ms) is None,
        canvas_of(ms) == (CanvasView {
            top: 50,
            left: Rational::whole(-50),
            right: Rational::whole(50),
            bottom: Rational::whole(-50),
            upper: Rational::whole(50),
            offset_y: 50,
        }),
{
    let n = ms.len() as int;
    assert forall|i: int| !shown(ms, n, i) by {
        if 0 <= i < n {
            assert(!ms[i].enabled);
        }
    }
    assert forall|i: int| !is_first_defect(ms, i) by {
        assert(!shown(ms, n, i));
    }
    let upper = Rational::whole(0).plus_whole(MARGIN as int);
    assert(upper == Rational::whole(50));
    assert(upper.truncated() == 50);
    assert(hull_of(ms).left == 0 && hull_of(ms).bottom == 0);
    assert(hull_of(ms).upper == Rational::whole(0));
}

/// Where one of the first `n` monitors is enabled, one of them starts lowest
/// on the axis and one is the first to reach furthest.
proof fn lemma_extremes_exist(ms: Seq<Monitor>, axis: Axis, n: int)
    requires
        0 <= n <= ms.len(),
        exists|i: int| shown(ms, n, i),
        forall|j: int| #[trigger] shown(ms, n, j) ==> far_of(ms[j], axis).wf(),
    ensures
        exists|i: int| is_nearest(ms, axis, n, i),
        exists|i: int| is_first_farthest(ms, axis, n, i),
    decreases n,
{
    let last = n - 1;
    let some = choose|i: int| shown(ms, n, i);
    assert(shown(ms, n, some));
    if exists|i: int| shown(ms, last, i) {
        assert forall|j: int| #[trigger] shown(ms, last, j) implies far_of(ms[j], axis).wf() by {
            assert(shown(ms, n, j));
        }
        lemma_extremes_exist(ms, axis, last);
        let ni = choose|i: int| is_nearest(ms, axis, last, i);
        let fi = choose|i: int| is_first_farthest(ms, axis, last, i);
        assert(shown(ms, last, ni) && shown(ms, last, fi));
        assert(shown(ms, n, ni) && shown(ms, n, fi));
        if ms[last].enabled {
            assert(shown(ms, n, last));
            let ni2 = if near_of(ms[last], axis) < near_of(ms[ni], axis) {
                last
            } else {
                ni
            };
            let higher = far_of(ms[fi], axis).less(far_of(ms[last], axis));
            let fi2 = if higher {
                last
            } else {
                fi
            };
            assert forall|j: int| #[trigger] shown(ms, n, j) implies near_of(ms[ni2], axis)
                <= near_of(ms[j], axis) by {
                if j < last {
                    assert(shown(ms, last, j));
                }
            }
            assert(is_nearest(ms, axis, n, ni2));
            assert forall|j: int| #[trigger] shown(ms, n, j) implies !far_of(ms[fi2], axis).less(
                far_of(ms[j], axis),
            ) by {
                if j < last {
                    assert(shown(ms, last, j));
                    if higher {
                        lemma_below_chain(
                            far_of(ms[j], axis),
                            far_of(ms[fi], axis),
                            far_of(ms[last], axis),
                        );
                    }
                }
            }
            assert forall|j: int| #[trigger] shown(ms, fi2, j) implies far_of(ms[j], axis).less(
                far_of(ms[fi2], axis),
            ) by {
                if higher {
                    assert(shown(ms, last, j));
                    assert(shown(ms, n, j));
                    lemma_below_chain(
                        far_of(ms[j], axis),
                        far_of(ms[fi], axis),
                        far_of(ms[last], axis),
                    );
                }
            }
            assert(is_first_farthest(ms, axis, n, fi2));
        } else {
            assert forall|j: int| #[trigger] shown(ms, n, j) implies shown(ms, last, j) by {}
            assert(is_nearest(ms, axis, n, ni));
            assert(is_first_farthest(ms, axis, n, fi));
        }
    } else {
        assert forall|j: int| #[trigger] shown(ms, n, j) implies j == last by {
            if j < last {
                assert(shown(ms, last, j));
            }
        }
        assert(some == last);
        assert(is_nearest(ms, axis, n, last));
        assert forall|j: int| #[trigger] shown(ms, last, j) implies far_of(ms[j], axis).less(
            far_of(ms[last], axis),
        ) by {
            assert(false);
        }
        assert(is_first_farthest(ms, axis, n, last));
    }
}

/// The smallest box holds every enabled monitor: none starts below its
/// lower edges, and none reaches beyond its upper edges.
pub proof fn lemma_hull_holds_every_monitor(ms: Seq<Monitor>, i: int)
    requires
        forall|j: int|
            0 <= j < ms.len() && (#[trigger] ms[j]).enabled ==> defect(ms[j]) is None
                && ms[j].spec_scale() > 0,
        0 <= i < ms.len(),
        ms[i].enabled,
    ensures
        hull_of(ms).left <= near_of(ms[i], Axis::Horizontal),
        hull_of(ms).bottom <= near_of(ms[i], Axis::Vertical),
        !hull_of(ms).right.less(far_of(ms[i], Axis::Horizontal)),
        !hull_of(ms).upper.less(far_of(ms[i], Axis::Vertical)),
{
    let n = ms.len() as int;
    assert(shown(ms, n, i));
    assert forall|j: int| #[trigger] shown(ms, n, j) implies far_of(ms[j], Axis::Horizontal).wf()
        && far_of(ms[j], Axis::Vertical).wf() by {
        assert(ms[j].enabled);
    }
    lemma_extremes_exist(ms, Axis::Horizontal, n);
    lemma_extremes_exist(ms, Axis::Vertical, n);
    let l = choose|k: int| is_nearest(ms, Axis::Horizontal, n, k);
    let r = choose|k: int| is_first_farthest(ms, Axis::Horizontal, n, k);
    let b = choose|k: int| is_nearest(ms, Axis::Vertical, n, k);
    let u = choose|k: int| is_first_farthest(ms, Axis::Vertical, n, k);
    assert(is_nearest(ms, Axis::Horizontal, n, l));
    assert(is_first_farthest(ms, Axis::Horizontal, n, r));
    assert(is_nearest(ms, Axis::Vertical, n, b));
    assert(is_first_farthest(ms, Axis::Vertical, n, u));
}

/// Any two first defects are the same monitor.
proof fn lemma_first_defect_is(ms: Seq<Monitor>, i: int)
    requires
        is_first_defect(ms, i),
    ensures
        first_defect(ms) == defect(ms[i]),
{
    let c = choose|c: int| is_first_defect(ms, c);
    assert(is_first_defect(ms, c));
    if c < i {
        assert(shown(ms, i, c));
    }
    if i < c {
        assert(shown(ms, c, i));
    }
}

/// Where every enabled monitor can be placed, there is no first defect.
proof fn lemma_no_defect(ms: Seq<Monitor>)
    requires
        forall|j: int| #[trigger] shown(ms, ms.len() as int, j) ==> defect(ms[j]) is None,
    ensures
        first_defect(ms) is None,
{
    assert forall|i: int| !is_first_defect(ms, i) by {
        if shown(ms, ms.len() as int, i) {
            assert(defect(ms[i]) is None);
        }
    }
}

/// What a scan has found is what `span_near` and `span_far` name.
proof fn lemma_span_is(ms: Seq<Monitor>, axis: Axis, ni: int, fi: int)
    requires
        is_nearest(ms, axis, ms.len() as int, ni),
        is_first_farthest(ms, axis, ms.len() as int, fi),
    ensures
        span_near(ms, axis) == near_of(ms[ni], axis),
        span_far(ms, axis) == far_of(ms[fi], axis),
{
    let n = ms.len() as int;
    assert(shown(ms, n, ni));
    let cn = choose|i: int| is_nearest(ms, axis, n, i);
    assert(is_nearest(ms, axis, n, cn));
    assert(shown(ms, n, cn));
    let cf = choose|i: int| is_first_farthest(ms, axis, n, i);
    assert(is_first_farthest(ms, axis, n, cf));
    assert(shown(ms, n, cf));
    assert(shown(ms, n, fi));
    if cf < fi {
        assert(shown(ms, fi, cf));
    }
    if fi < cf {
        assert(shown(ms, cf, fi));
    }
}

/// The largest magnitude that the numerator of an upper edge can have.
const FAR_LIMIT: i64 = 0x1_0000_0000_0000;

/// The lowest start and the highest end of the enabled monitors on one axis.
fn span(monitors: &Vec<Monitor>, axis: Axis) -> (r: Result<(i64, Fraction), LayoutError>)
    ensures
        first_defect(monitors@) matches Some(e) ==> r == Err::<(i64, Fraction), LayoutError>(e),
        first_defect(monitors@) is None ==> (r matches Ok(s) && s.0 == span_near(monitors@, axis)
            && s.1@ == span_far(monitors@, axis)),
        r matches Ok(s) ==> i32::MIN <= s.0 <= i32::MAX && 0 < s.1.den <= u16::MAX && -FAR_LIMIT
            <= s.1.num <= FAR_LIMIT,
{
    let n: usize = monitors.len();
    let mut seen: bool = false;
    let mut near: i64 = 0;
    let mut far: Fraction = Fraction::from_whole(0);
    let ghost ms = monitors@;
    let ghost mut ni: int = 0;
    let ghost mut fi: int = 0;
    let mut k: usize = 0;
    while k < n
        invariant
            k <= n,
            n == ms.len(),
            ms == monitors@,
            forall|j: int| #[trigger] shown(ms, k as int, j) ==> defect(ms[j]) is None,
            forall|j: int| #[trigger] shown(ms, k as int, j) ==> far_of(ms[j], axis).wf(),
            !seen ==> forall|j: int| !shown(ms, k as int, j),
            !seen ==> near == 0 && far@ == Rational::whole(0),
            seen ==> is_nearest(ms, axis, k as int, ni) && near == near_of(ms[ni], axis),
            seen ==> is_first_farthest(ms, axis, k as int, fi) && far@ == far_of(ms[fi], axis),
            i32::MIN <= near <= i32::MAX,
            0 < far.den <= u16::MAX,
            -FAR_LIMIT <= far.num <= FAR_LIMIT,
        decreases n - k,
    {
        let m: &Monitor = &monitors[k];
        if m.enabled {
            match m.geometry() {
                Err(e) => {
                    proof {
                        assert(shown(ms, n as int, k as int));
                        assert(is_first_defect(ms, k as int));
                        lemma_first_defect_is(ms, k as int);
                    }
                    return Err(e);
                },
                Ok((x, y, w, h)) => {
                    let p: i32 = match axis {
                        Axis::Horizontal => x,
                        Axis::Vertical => y,
                    };
                    let e: Fraction = match axis {
                        Axis::Horizontal => w,
                        Axis::Vertical => h,
                    };
                    proof {
                        assert(e@.den == m.spec_scale());
                        assert(-1000 * 0x8000_0000 <= e@.num <= 1000 * 0x8000_0000);
                        assert(-0x8000_0000 * 0x1_0000 <= (p as int) * (e.den as int)
                            <= 0x8000_0000 * 0x1_0000) by (nonlinear_arith)
                            requires
                                -0x8000_0000 <= p as int <= 0x8000_0000,
                                0 < e.den as int <= 0x1_0000,
                        ;
                    }
                    let reach: Fraction = Fraction { num: e.num + (p as i64) * e.den, den: e.den };
                    let start: i64 = p as i64;
                    proof {
                        assert(reach@ == far_of(ms[k as int], axis));
                        assert(start == near_of(ms[k as int], axis));
                        assert(defect(ms[k as int]) is None);
                    }
                    if !seen {
                        near = start;
                        far = reach;
                        seen = true;
                        proof {
                            ni = k as int;
                            fi = k as int;
                            assert forall|j: int| #[trigger]
                                shown(ms, k as int + 1, j) implies j == k by {
                                if j < k {
                                    assert(shown(ms, k as int, j));
                                }
                            }
                        }
                    } else {
                        let ghost old_ni = ni;
                        let ghost old_fi = fi;
                        let lower: bool = start < near;
                        let higher: bool = far.is_below(&reach);
                        if lower {
                            near = start;
                            proof {
                                ni = k as int;
                            }
                        }
                        if higher {
                            far = reach;
                            proof {
                                fi = k as int;
                            }
                        }
                        proof {
                            assert(shown(ms, k as int, old_ni));
                            assert(shown(ms, k as int, old_fi));
                            assert(shown(ms, k as int + 1, ni));
                            assert(shown(ms, k as int + 1, fi));
                            assert forall|j: int| #[trigger]
                                shown(ms, k as int + 1, j) implies near_of(ms[ni], axis)
                                <= near_of(ms[j], axis) by {
                                if j < k {
                                    assert(shown(ms, k as int, j));
                                }
                            }
                            assert forall|j: int| #[trigger]
                                shown(ms, k as int + 1, j) implies !far_of(ms[fi], axis).less(
                                far_of(ms[j], axis),
                            ) by {
                                if j < k {
                                    assert(shown(ms, k as int, j));
                                    if higher {
                                        lemma_below_chain(
                                            far_of(ms[j], axis),
                                            far_of(ms[old_fi], axis),
                                            far_of(ms[k as int], axis),
                                        );
                                    }
                                }
                            }
                            assert forall|j: int| #[trigger] shown(ms, fi, j) implies far_of(
                                ms[j],
                                axis,
                            ).less(far_of(ms[fi], axis)) by {
                                if higher {
                                    assert(shown(ms, k as int, j));
                                    lemma_below_chain(
                                        far_of(ms[j], axis),
                                        far_of(ms[old_fi], axis),
                                        far_of(ms[k as int], axis),
                                    );
                                }
                            }
                        }
                    }
                    proof {
                        assert forall|j: int| #[trigger]
                            shown(ms, k as int + 1, j) implies defect(ms[j]) is None && far_of(
                            ms[j],
                            axis,
                        ).wf() by {
                            if j < k {
                                assert(shown(ms, k as int, j));
                            }
                        }
                    }
                },
            }
        } else {
            proof {
                assert forall|j: int| #[trigger] shown(ms, k as int + 1, j) implies shown(
                    ms,
                    k as int,
                    j,
                ) by {}
                if seen {
                    assert(shown(ms, k as int, ni));
                    assert(shown(ms, k as int, fi));
                    assert(shown(ms, k as int + 1, ni));
                    assert(shown(ms, k as int + 1, fi));
                }
            }
        }
        k += 1;
    }
    proof {
        lemma_no_defect(ms);
        if seen {
            assert(shown(ms, n as int, ni));
            lemma_span_is(ms, axis, ni, fi);
        }
    }
    Ok((near, far))
}

impl Monitor {
    /// The viewport that holds every enabled monitor, with the margin around
    /// them. The first enabled monitor that has no resolvable mode or no
    /// position is reported instead.
    pub fn get_monitors_canvas(monitors: &Vec<Monitor>) -> (r: Result<MonitorCanvas, LayoutError>)
        ensures
            first_defect(monitors@) matches Some(e) ==> r == Err::<MonitorCanvas, LayoutError>(e),
            first_defect(monitors@) is None ==> (r matches Ok(c) && c@ == canvas_of(monitors@)),
    {
        let across = match span(monitors, Axis::Horizontal) {
            Ok(s) => s,
            Err(e) => {
                return Err(e);
            },
        };
        let along = match span(monitors, Axis::Vertical) {
            Ok(s) => s,
            Err(e) => {
                return Err(e);
            },
        };
        let left: i64 = across.0 - MARGIN;
        let bottom: i64 = along.0 - MARGIN;
        let right: Fraction = Fraction { num: across.1.num + MARGIN * across.1.den, den: across.1.den };
        let upper: Fraction = Fraction { num: along.1.num + MARGIN * along.1.den, den: along.1.den };
        let top: i32 = upper.truncate_to_i32();
        let offset_y: i32 = if bottom >= 0 {
            0
        } else if -bottom > 2147483647 {
            2147483647
        } else {
            (-bottom) as i32
        };
        let canvas = MonitorCanvas {
            top,
            x_bounds: [Fraction::from_whole(left), right],
            y_bounds: [Fraction::from_whole(bottom), upper],
            offset_y,
        };
        proof {
            assert(canvas@.left == Rational::whole(left as int));
            assert(canvas@.right == right@);
            assert(canvas@.bottom == Rational::whole(bottom as int));
            assert(canvas@.upper == upper@);
        }
        Ok(canvas)
    }
}

} // verus!
