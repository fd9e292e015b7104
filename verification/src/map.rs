//! The map of monitors: where each is drawn, and how the keys move the
//! selected one.

use vstd::prelude::*;
use crate::canvas::MonitorCanvas;
use crate::error::LayoutError;
use crate::fraction::{Fraction, Rational};
use crate::monitor::{Axis, Monitor};
use crate::session::App;
use crate::snap::{snap, snap_of};
use crate::utils::{Action, Key, KeyPress, TUIMode};

verus! {

/// The distance of a free move.
pub const STEP: i32 = 10;

/// The map as it is drawn: the monitors, which of them is selected, and
/// what the keys act on.
#[derive(Debug)]
pub struct MonitorMap<'a> {
    pub mode: TUIMode,
    pub selected: usize,
    pub monitors: &'a Vec<Monitor>,
}

/// Where a monitor is drawn: its rectangle, with `y` counted downwards from
/// the upper edge of the viewport, and the point at which its name starts.
#[derive(Clone, Copy, Debug, PartialEq, Eq, Structural)]
pub struct Placement {
    pub x: Fraction,
    pub y: Fraction,
    pub width: Fraction,
    pub height: Fraction,
    pub label_x: Fraction,
    pub label_y: Fraction,
}

/// What a placement stands for.
pub struct PlacementView {
    pub x: Rational,
    pub y: Rational,
    pub width: Rational,
    pub height: Rational,
    pub label_x: Rational,
    pub label_y: Rational,
}

impl View for Placement {
    type V = PlacementView;

    open spec fn view(&self) -> PlacementView {
        PlacementView {
            x: self.x@,
            y: self.y@,
            width: self.width@,
            height: self.height@,
            label_x: self.label_x@,
            label_y: self.label_y@,
        }
    }
}

/// Where a monitor is drawn in a viewport with the given `top` and
/// `offset_y`. The rectangle has the monitor's logical size; its lower edge
/// lies `top - offset_y - y` above zero, less its height. The name starts
/// seven hundredths of the width and of the height inside the upper left
/// corner.
pub open spec fn placement_of(top: int, offset_y: int, m: Monitor) -> Result<
    PlacementView,
    LayoutError,
> {
    match m.spec_geometry() {
        Err(e) => Err(e),
        Ok((x, y, w, h)) => {
            let rise = top - offset_y - y;
            Ok(
                PlacementView {
                    x: Rational::whole(x),
                    y: Rational { num: rise * h.den - h.num, den: h.den },
                    width: w,
                    height: h,
                    label_x: Rational { num: 100 * (x * w.den) + 7 * w.num, den: 100 * w.den },
                    label_y: Rational { num: 100 * (rise * h.den) - 7 * h.num, den: 100 * h.den },
                },
            )
        },
    }
}

/// What a computed placement stands for.
pub open spec fn placement_view(r: Result<Placement, LayoutError>) -> Result<
    PlacementView,
    LayoutError,
> {
    match r {
        Ok(p) => Ok(p@),
        Err(e) => Err(e),
    }
}

/// The enabled monitors among the first `n`, but for the selected one, in
/// the order of the list.
pub open spec fn others_upto(ms: Seq<Monitor>, selected: int, n: int) -> Seq<usize>
    decreases n,
{
    if n <= 0 {
        Seq::empty()
    } else if n - 1 != selected && ms[n - 1].enabled {
        others_upto(ms, selected, n - 1).push((n - 1) as usize)
    } else {
        others_upto(ms, selected, n - 1)
    }
}

/// The order in which the monitors are drawn: every enabled monitor but the
/// selected one, then the selected one if it is enabled, so that it lies on
/// top.
pub open spec fn drawing_order(ms: Seq<Monitor>, selected: int) -> Seq<usize> {
    let others = others_upto(ms, selected, ms.len() as int);
    if 0 <= selected < ms.len() && ms[selected].enabled {
        others.push(selected as usize)
    } else {
        others
    }
}

/// The monitors after the selected one has moved by `delta` along `axis`,
/// or why it cannot.
pub open spec fn shifted(ms: Seq<Monitor>, selected: int, axis: Axis, delta: int) -> Result<
    Seq<Monitor>,
    LayoutError,
> {
    if !(0 <= selected < ms.len()) {
        Err(LayoutError::IndexOutOfRange)
    } else if ms[selected].position is None {
        Err(LayoutError::NoPosition)
    } else if !ms[selected].can_move_along(axis, delta) {
        Err(LayoutError::PositionOverflow)
    } else {
        Ok(ms.update(selected, ms[selected].moved_along(axis, delta)))
    }
}

/// A free move that is carried out, followed by the opposite move, gives
/// back the monitors as they were.
pub proof fn lemma_free_move_and_back(ms: Seq<Monitor>, selected: int, axis: Axis, delta: int)
    requires
        shifted(ms, selected, axis, delta) is Ok,
    ensures
        shifted(shifted(ms, selected, axis, delta).unwrap(), selected, axis, -delta) == Ok::<
            Seq<Monitor>,
            LayoutError,
        >(ms),
{
    let m = ms[selected];
    let there = m.moved_along(axis, delta);
    let moved = ms.update(selected, there);
    assert(there.moved_along(axis, -delta) == m);
    assert(moved.update(selected, m) =~= ms);
}

/// The monitors after a snap that found `found`, or why the snap is refused.
pub open spec fn settled(
    ms: Seq<Monitor>,
    selected: int,
    axis: Axis,
    found: Result<Option<i32>, LayoutError>,
) -> Result<Seq<Monitor>, LayoutError> {
    match found {
        Err(e) => Err(e),
        Ok(None) => Ok(ms),
        Ok(Some(delta)) => shifted(ms, selected, axis, delta as int),
    }
}

/// What the monitors are after an attempt whose outcome is `wanted`: the new
/// list where it succeeded, the old one where it was refused.
pub open spec fn carried_out(
    before: App,
    wanted: Result<Seq<Monitor>, LayoutError>,
    after: App,
    r: Result<(), LayoutError>,
) -> bool {
    &&& after == (App { monitors: after.monitors, ..before })
    &&& match wanted {
        Ok(ms) => r is Ok && after.monitors@ == ms,
        Err(e) => r == Err::<(), LayoutError>(e) && after.monitors@ == before.monitors@,
    }
}

/// What a key asks of the map.
pub enum Step {
    /// A move to the nearest line in the given direction.
    Snap(Axis, int),
    /// A move by a fixed distance.
    Free(Axis, int),
    /// Handing the keys back to the list.
    Leave,
    /// Nothing.
    Stay,
}

/// What a key asks of the map: the letters `h`, `j`, `k`, `l` and the
/// arrows snap; the capital letters, and the arrows with shift, move freely.
pub open spec fn step_of(key_event: KeyPress) -> Step {
    match key_event.key {
        Key::Char('k') => Step::Snap(Axis::Vertical, -1),
        Key::Char('K') => Step::Free(Axis::Vertical, -STEP),
        Key::Up => if key_event.shift {
            Step::Free(Axis::Vertical, -STEP)
        } else {
            Step::Snap(Axis::Vertical, -1)
        },
        Key::Char('j') => Step::Snap(Axis::Vertical, 1),
        Key::Char('J') => Step::Free(Axis::Vertical, STEP as int),
        Key::Down => if key_event.shift {
            Step::Free(Axis::Vertical, STEP as int)
        } else {
            Step::Snap(Axis::Vertical, 1)
        },
        Key::Char('h') => Step::Snap(Axis::Horizontal, -1),
        Key::Char('H') => Step::Free(Axis::Horizontal, -STEP),
        Key::Left => if key_event.shift {
            Step::Free(Axis::Horizontal, -STEP)
        } else {
            Step::Snap(Axis::Horizontal, -1)
        },
        Key::Char('l') => Step::Snap(Axis::Horizontal, 1),
        Key::Char('L') => Step::Free(Axis::Horizontal, STEP as int),
        Key::Right => if key_event.shift {
            Step::Free(Axis::Horizontal, STEP as int)
        } else {
            Step::Snap(Axis::Horizontal, 1)
        },
        Key::Esc => Step::Leave,
        _ => Step::Stay,
    }
}

/// What is written out when the keys go from `mode` to another holder: the
/// arrangement, where they come from the map.
pub open spec fn on_leaving(mode: TUIMode) -> Action {
    if mode == TUIMode::Move {
        Action::SaveState
    } else {
        Action::Nothing
    }
}

/// What handling a key on the map owes.
pub open spec fn map_handled(
    before: App,
    key_event: KeyPress,
    after: App,
    r: Result<Action, LayoutError>,
) -> bool {
    let ms = before.monitors@;
    let selected = before.selected_monitor as int;
    match step_of(key_event) {
        Step::Snap(axis, direction) => {
            let wanted = settled(ms, selected, axis, snap_of(ms, selected, axis, direction));
            &&& carried_out(before, wanted, after, discard(r))
            &&& r matches Ok(a) ==> a == Action::Nothing
        },
        Step::Free(axis, delta) => {
            &&& carried_out(before, shifted(ms, selected, axis, delta), after, discard(r))
            &&& r matches Ok(a) ==> a == Action::Nothing
        },
        Step::Leave => after == (App { mode: TUIMode::View, ..before }) && r == Ok::<
            Action,
            LayoutError,
        >(on_leaving(before.mode)),
        Step::Stay => after == before && r == Ok::<Action, LayoutError>(Action::Nothing),
    }
}

/// A result without what it carries on success.
pub open spec fn discard(r: Result<Action, LayoutError>) -> Result<(), LayoutError> {
    match r {
        Ok(_) => Ok(()),
        Err(e) => Err(e),
    }
}

impl<'a> MonitorMap<'a> {
    /// Where `monitor` is drawn in the viewport `monitor_canvas`.
    pub fn render_enabled_monitor(
        &self,
        monitor_canvas: &MonitorCanvas,
        monitor: &Monitor,
    ) -> (r: Result<Placement, LayoutError>)
        ensures
            placement_view(r) == placement_of(
                monitor_canvas.top as int,
                monitor_canvas.offset_y as int,
                *monitor,
            ),
    {
        match monitor.geometry() {
            Err(e) => Err(e),
            Ok((x, y, w, h)) => {
                let rise: i64 = monitor_canvas.top as i64 - monitor_canvas.offset_y as i64
                    - y as i64;
                proof {
                    assert(w@.den == monitor.spec_scale() && h@.den == monitor.spec_scale());
                    assert(-1000 * 0x8000_0000 <= w@.num <= 1000 * 0x8000_0000);
                    assert(-1000 * 0x8000_0000 <= h@.num <= 1000 * 0x8000_0000);
                    assert(-0x2_0000_0000 * 0x1_0000 <= (rise as int) * (h.den as int)
                        <= 0x2_0000_0000 * 0x1_0000) by (nonlinear_arith)
                        requires
                            -0x2_0000_0000 <= rise as int <= 0x2_0000_0000,
                            0 < h.den as int <= 0x1_0000,
                    ;
                    assert(-0x8000_0000 * 0x1_0000 <= (x as int) * (w.den as int) <= 0x8000_0000
                        * 0x1_0000) by (nonlinear_arith)
                        requires
                            -0x8000_0000 <= x as int <= 0x8000_0000,
                            0 < w.den as int <= 0x1_0000,
                    ;
                }
                let lift: i64 = rise * h.den;
                let across: i64 = (x as i64) * w.den;
                Ok(
                    Placement {
                        x: Fraction::from_whole(x as i64),
                        y: Fraction { num: lift - h.num, den: h.den },
                        width: w,
                        height: h,
                        label_x: Fraction { num: 100 * across + 7 * w.num, den: 100 * w.den },
                        label_y: Fraction { num: 100 * lift - 7 * h.num, den: 100 * h.den },
                    },
                )
            },
        }
    }

    /// The order in which the monitors of the map are drawn.
    pub fn draw_order(&self) -> (r: Vec<usize>)
        ensures
            r@ == drawing_order(self.monitors@, self.selected as int),
    {
        let n: usize = self.monitors.len();
        let mut order: Vec<usize> = Vec::new();
        let mut i: usize = 0;
        while i < n
            invariant
                i <= n,
                n == self.monitors@.len(),
                order@ == others_upto(self.monitors@, self.selected as int, i as int),
            decreases n - i,
        {
            if i != self.selected && self.monitors[i].enabled {
                order.push(i);
            }
            i += 1;
        }
        if self.selected < n && self.monitors[self.selected].enabled {
            order.push(self.selected);
        }
        order
    }

    /// Does what the key asks of the map.
    pub fn handle_events(app: &mut App, key_event: KeyPress) -> (r: Result<Action, LayoutError>)
        ensures
            map_handled(*old(app), key_event, *final(app), r),
    {
        let moved: Result<(), LayoutError> = match key_event.key {
            Key::Char('k') => MonitorMap::snap_vertical(app, -1),
            Key::Char('K') => MonitorMap::move_vertical(app, -STEP),
            Key::Up => if key_event.shift {
                MonitorMap::move_vertical(app, -STEP)
            } else {
                MonitorMap::snap_vertical(app, -1)
            },
            Key::Char('j') => MonitorMap::snap_vertical(app, 1),
            Key::Char('J') => MonitorMap::move_vertical(app, STEP),
            Key::Down => if key_event.shift {
                MonitorMap::move_vertical(app, STEP)
            } else {
                MonitorMap::snap_vertical(app, 1)
            },
            Key::Char('h') => MonitorMap::snap_horizontal(app, -1),
            Key::Char('H') => MonitorMap::move_horizontal(app, -STEP),
            Key::Left => if key_event.shift {
                MonitorMap::move_horizontal(app, -STEP)
            } else {
                MonitorMap::snap_horizontal(app, -1)
            },
            Key::Char('l') => MonitorMap::snap_horizontal(app, 1),
            Key::Char('L') => MonitorMap::move_horizontal(app, STEP),
            Key::Right => if key_event.shift {
                MonitorMap::move_horizontal(app, STEP)
            } else {
                MonitorMap::snap_horizontal(app, 1)
            },
            Key::Esc => {
                return Ok(MonitorMap::change_mode(app, TUIMode::View));
            },
            _ => {
                return Ok(Action::Nothing);
            },
        };
        match moved {
            Ok(()) => Ok(Action::Nothing),
            Err(e) => Err(e),
        }
    }

    /// Hands the keys to `mode`. The arrangement is to be written out when
    /// they come from the map.
    pub fn change_mode(app: &mut App, mode: TUIMode) -> (r: Action)
        ensures
            *final(app) == (App { mode, ..*old(app) }),
            r == on_leaving(old(app).mode),
    {
        let action: Action = match app.mode {
            TUIMode::Move => Action::SaveState,
            _ => Action::Nothing,
        };
        app.mode = mode;
        action
    }

    /// Moves the selected monitor by `delta` along `axis`. Nothing moves
    /// where no monitor is selected, where the selected one has no position,
    /// or where the move would leave the range of `i32`.
    pub fn move_selected(app: &mut App, axis: Axis, delta: i32) -> (r: Result<(), LayoutError>)
        ensures
            carried_out(
                *old(app),
                shifted(old(app).monitors@, old(app).selected_monitor as int, axis, delta as int),
                *final(app),
                r,
            ),
    {
        let at: usize = app.selected_monitor;
        if at >= app.monitors.len() {
            return Err(LayoutError::IndexOutOfRange);
        }
        let place: i32 = match app.monitors[at].position {
            None => {
                return Err(LayoutError::NoPosition);
            },
            Some(p) => match axis {
                Axis::Horizontal => p.x,
                Axis::Vertical => p.y,
            },
        };
        let target: i64 = place as i64 + delta as i64;
        if target < -2147483648 || target > 2147483647 {
            return Err(LayoutError::PositionOverflow);
        }
        app.monitors[at].move_by(axis, delta);
        Ok(())
    }

    /// Moves the selected monitor up or down by `direction`.
    pub fn move_vertical(app: &mut App, direction: i32) -> (r: Result<(), LayoutError>)
        ensures
            carried_out(
                *old(app),
                shifted(
                    old(app).monitors@,
                    old(app).selected_monitor as int,
                    Axis::Vertical,
                    direction as int,
                ),
                *final(app),
                r,
            ),
    {
        MonitorMap::move_selected(app, Axis::Vertical, direction)
    }

    /// Moves the selected monitor left or right by `direction`.
    pub fn move_horizontal(app: &mut App, direction: i32) -> (r: Result<(), LayoutError>)
        ensures
            carried_out(
                *old(app),
                shifted(
                    old(app).monitors@,
                    old(app).selected_monitor as int,
                    Axis::Horizontal,
                    direction as int,
                ),
                *final(app),
                r,
            ),
    {
        MonitorMap::move_selected(app, Axis::Horizontal, direction)
    }

    /// Moves the selected monitor along `axis` to the nearest line in the
    /// given direction, if there is one.
    pub fn snap_selected(app: &mut App, axis: Axis, direction: i32) -> (r: Result<(), LayoutError>)
        ensures
            carried_out(
                *old(app),
                settled(
                    old(app).monitors@,
                    old(app).selected_monitor as int,
                    axis,
                    snap_of(
                        old(app).monitors@,
                        old(app).selected_monitor as int,
                        axis,
                        direction as int,
                    ),
                ),
                *final(app),
                r,
            ),
    {
        match snap(&app.monitors, app.selected_monitor, axis, direction) {
            Err(e) => Err(e),
            Ok(None) => Ok(()),
            Ok(Some(delta)) => MonitorMap::move_selected(app, axis, delta),
        }
    }

    /// Snaps the selected monitor up or down.
    pub fn snap_vertical(app: &mut App, direction: i32) -> (r: Result<(), LayoutError>)
        ensures
            carried_out(
                *old(app),
                settled(
                    old(app).monitors@,
                    old(app).selected_monitor as int,
                    Axis::Vertical,
                    snap_of(
                        old(app).monitors@,
                        old(app).selected_monitor as int,
                        Axis::Vertical,
                        direction as int,
                    ),
                ),
                *final(app),
                r,
            ),
    {
        MonitorMap::snap_selected(app, Axis::Vertical, direction)
    }

    /// Snaps the selected monitor left or right.
    pub fn snap_horizontal(app: &mut App, direction: i32) -> (r: Result<(), LayoutError>)
        ensures
            carried_out(
                *old(app),
                settled(
                    old(app).monitors@,
                    old(app).selected_monitor as int,
                    Axis::Horizontal,
                    snap_of(
                        old(app).monitors@,
                        old(app).selected_monitor as int,
                        Axis::Horizontal,
                        direction as int,
                    ),
                ),
                *final(app),
                r,
            ),
    {
        MonitorMap::snap_selected(app, Axis::Horizontal, direction)
    }
}

} // verus!
