//! A display output: its modes, its place on the plane, and its logical size.

use vstd::prelude::*;
use crate::error::LayoutError;
use crate::fraction::{Fraction, Rational};
use crate::rotation::{rotation_of, transform_text, Rotation};
use crate::scale::Scale;

verus! {

/// A point of the shared logical plane.
#[derive(Clone, Copy, Debug, PartialEq, Eq, Structural)]
pub struct Position {
    pub x: i32,
    pub y: i32,
}

/// One mode of an output. `refresh` is in thousandths of a hertz.
#[derive(Clone, Copy, Debug, PartialEq, Eq, Structural)]
pub struct Resolution {
    pub width: i32,
    pub height: i32,
    pub refresh: u32,
    pub preferred: bool,
    pub current: bool,
}

/// One of the two directions of the plane.
#[derive(Clone, Copy, Debug, PartialEq, Eq, Structural)]
pub enum Axis {
    Horizontal,
    Vertical,
}

/// A display output as discovery reports it and as the user arranges it.
#[derive(Clone, Debug, Default)]
pub struct Monitor {
    pub name: String,
    pub description: Option<String>,
    pub enabled: bool,
    pub modes: Vec<Resolution>,
    pub position: Option<Position>,
    pub scale: Option<Scale>,
    pub transform: Option<String>,
    pub saved_position: Option<Position>,
    pub saved_scale: Option<Scale>,
}

/// `i` is the first mode of `modes` that is flagged current.
pub open spec fn is_first_current(modes: Seq<Resolution>, i: int) -> bool {
    &&& 0 <= i < modes.len()
    &&& modes[i].current
    &&& forall|j: int| 0 <= j < i ==> !(#[trigger] modes[j]).current
}

/// `i` is the first mode of `modes` that is flagged preferred.
pub open spec fn is_first_preferred(modes: Seq<Resolution>, i: int) -> bool {
    &&& 0 <= i < modes.len()
    &&& modes[i].preferred
    &&& forall|j: int| 0 <= j < i ==> !(#[trigger] modes[j]).preferred
}

/// The first mode flagged current, if any.
pub open spec fn current_mode(modes: Seq<Resolution>) -> Option<Resolution> {
    if exists|i: int| is_first_current(modes, i) {
        Some(modes[choose|i: int| is_first_current(modes, i)])
    } else {
        None
    }
}

/// The first mode flagged preferred, if any.
pub open spec fn preferred_mode(modes: Seq<Resolution>) -> Option<Resolution> {
    if exists|i: int| is_first_preferred(modes, i) {
        Some(modes[choose|i: int| is_first_preferred(modes, i)])
    } else {
        None
    }
}

/// The mode that geometry goes by: the current one, else the preferred one.
pub open spec fn resolved_mode(modes: Seq<Resolution>) -> Option<Resolution> {
    match current_mode(modes) {
        Some(m) => Some(m),
        None => preferred_mode(modes),
    }
}

/// `modes` with the current flag on the mode at `index` and on no other.
pub open spec fn with_current(modes: Seq<Resolution>, index: int) -> Seq<Resolution> {
    Seq::new(modes.len(), |i: int| Resolution { current: i == index, ..modes[i] })
}

/// After a selection exactly the selected mode is current, so it is the one
/// that `current_mode` finds.
pub proof fn lemma_single_current(modes: Seq<Resolution>, index: int)
    requires
        0 <= index < modes.len(),
    ensures
        forall|i: int|
            0 <= i < modes.len() ==> (#[trigger] with_current(modes, index)[i].current <==> i
                == index),
        current_mode(with_current(modes, index)) == Some(with_current(modes, index)[index]),
{
    let after = with_current(modes, index);
    assert(is_first_current(after, index));
    let k = choose|i: int| is_first_current(after, i);
    assert(is_first_current(after, k));
    assert(k == index);
}

/// What a computed geometry stands for.
pub open spec fn geometry_view(g: Result<(i32, i32, Fraction, Fraction), LayoutError>) -> Result<
    (int, int, Rational, Rational),
    LayoutError,
> {
    match g {
        Ok((x, y, w, h)) => Ok((x as int, y as int, w@, h@)),
        Err(e) => Err(e),
    }
}

impl Monitor {
    /// The scale factor in thousandths; an absent one counts as one.
    pub open spec fn spec_scale(&self) -> int {
        match self.scale {
            Some(s) => s.value(),
            None => 1000,
        }
    }

    /// The transform that the descriptor names.
    pub open spec fn spec_rotation(&self) -> Rotation {
        rotation_of(transform_text(self.transform))
    }

    /// The logical width and height: the resolved mode's pixels, changing
    /// places under a quarter turn, each divided by the scale factor.
    pub open spec fn spec_extent(&self) -> Option<(Rational, Rational)> {
        match resolved_mode(self.modes@) {
            None => None,
            Some(m) => {
                let w = if self.spec_rotation().spec_swaps_axes() {
                    m.height
                } else {
                    m.width
                };
                let h = if self.spec_rotation().spec_swaps_axes() {
                    m.width
                } else {
                    m.height
                };
                Some(
                    (
                        Rational { num: 1000 * w, den: self.spec_scale() },
                        Rational { num: 1000 * h, den: self.spec_scale() },
                    ),
                )
            },
        }
    }

    /// Position and logical size, where the monitor has a resolvable mode and
    /// a position; the missing mode is reported before the missing position.
    pub open spec fn spec_geometry(&self) -> Result<(int, int, Rational, Rational), LayoutError> {
        match self.spec_extent() {
            None => Err(LayoutError::NoResolvableMode),
            Some((w, h)) => match self.position {
                None => Err(LayoutError::NoPosition),
                Some(p) => Ok((p.x as int, p.y as int, w, h)),
            },
        }
    }

    /// As `spec_geometry`, but a monitor without a resolvable mode counts as
    /// an empty rectangle at the origin.
    pub open spec fn spec_lenient_geometry(&self) -> Result<
        (int, int, Rational, Rational),
        LayoutError,
    > {
        match self.spec_extent() {
            None => Ok((0, 0, Rational::whole(0), Rational::whole(0))),
            Some(_) => self.spec_geometry(),
        }
    }

    /// The monitor with `delta` added to its vertical coordinate.
    pub open spec fn moved_vertical(self, delta: int) -> Monitor {
        match self.position {
            Some(p) => Monitor {
                position: Some(Position { x: p.x, y: (p.y + delta) as i32 }),
                ..self
            },
            None => self,
        }
    }

    /// The monitor with `delta` added to its horizontal coordinate.
    pub open spec fn moved_horizontal(self, delta: int) -> Monitor {
        match self.position {
            Some(p) => Monitor {
                position: Some(Position { x: (p.x + delta) as i32, y: p.y }),
                ..self
            },
            None => self,
        }
    }

    /// The monitor with `delta` added to its coordinate on `axis`.
    pub open spec fn moved_along(self, axis: Axis, delta: int) -> Monitor {
        match axis {
            Axis::Horizontal => self.moved_horizontal(delta),
            Axis::Vertical => self.moved_vertical(delta),
        }
    }

    /// Whether `delta` can be added to the coordinate on `axis` within `i32`.
    pub open spec fn can_move_along(&self, axis: Axis, delta: int) -> bool {
        match axis {
            Axis::Horizontal => self.can_move_horizontal(delta),
            Axis::Vertical => self.can_move_vertical(delta),
        }
    }

    /// Whether `delta` can be added to the vertical coordinate within `i32`.
    pub open spec fn can_move_vertical(&self, delta: int) -> bool {
        self.position matches Some(p) ==> i32::MIN <= p.y + delta <= i32::MAX
    }

    /// Whether `delta` can be added to the horizontal coordinate within `i32`.
    pub open spec fn can_move_horizontal(&self, delta: int) -> bool {
        self.position matches Some(p) ==> i32::MIN <= p.x + delta <= i32::MAX
    }

    /// The first mode flagged current.
    pub fn get_current_resolution(&self) -> (r: Option<&Resolution>)
        ensures
            r matches Some(m) ==> current_mode(self.modes@) == Some(*m),
            r is None ==> current_mode(self.modes@) is None,
    {
        let mut i: usize = 0;
        while i < self.modes.len()
            invariant
                i <= self.modes.len(),
                forall|j: int| 0 <= j < i ==> !(#[trigger] self.modes@[j]).current,
            decreases self.modes.len() - i,
        {
            if self.modes[i].current {
                proof {
                    assert(is_first_current(self.modes@, i as int));
                    let k = choose|k: int| is_first_current(self.modes@, k);
                    assert(is_first_current(self.modes@, k));
                    assert(k == i);
                }
                return Some(&self.modes[i]);
            }
            i += 1;
        }
        None
    }

    /// The first mode flagged preferred.
    pub fn get_prefered_resolution(&self) -> (r: Option<&Resolution>)
        ensures
            r matches Some(m) ==> preferred_mode(self.modes@) == Some(*m),
            r is None ==> preferred_mode(self.modes@) is None,
    {
        let mut i: usize = 0;
        while i < self.modes.len()
            invariant
                i <= self.modes.len(),
                forall|j: int| 0 <= j < i ==> !(#[trigger] self.modes@[j]).preferred,
            decreases self.modes.len() - i,
        {
            if self.modes[i].preferred {
                proof {
                    assert(is_first_preferred(self.modes@, i as int));
                    let k = choose|k: int| is_first_preferred(self.modes@, k);
                    assert(is_first_preferred(self.modes@, k));
                    assert(k == i);
                }
                return Some(&self.modes[i]);
            }
            i += 1;
        }
        None
    }

    /// The mode that geometry goes by: the current one, else the preferred one.
    pub fn resolve_mode(&self) -> (r: Option<Resolution>)
        ensures
            r == resolved_mode(self.modes@),
    {
        match self.get_current_resolution() {
            Some(m) => Some(*m),
            None => match self.get_prefered_resolution() {
                Some(m) => Some(*m),
                None => None,
            },
        }
    }

    /// The scale factor; an absent one counts as one.
    pub fn effective_scale(&self) -> (r: Scale)
        ensures
            r.value() == self.spec_scale(),
    {
        match self.scale {
            Some(s) => s,
            None => Scale::unit(),
        }
    }

    /// The logical width and height of the monitor.
    pub fn logical_extent(&self) -> (r: Result<(Fraction, Fraction), LayoutError>)
        ensures
            self.spec_extent() is None ==> r == Err::<(Fraction, Fraction), LayoutError>(
                LayoutError::NoResolvableMode,
            ),
            self.spec_extent() matches Some(e) ==> (r matches Ok(f) && f.0@ == e.0 && f.1@ == e.1),
            0 < self.spec_scale() <= u16::MAX,
    {
        let den: i64 = self.effective_scale().thousandths() as i64;
        match self.resolve_mode() {
            None => Err(LayoutError::NoResolvableMode),
            Some(m) => {
                let rotation: Rotation = Rotation::from_transform(&self.transform);
                let swaps: bool = rotation.swaps_axes();
                let w: i64 = if swaps { m.height as i64 } else { m.width as i64 };
                let h: i64 = if swaps { m.width as i64 } else { m.height as i64 };
                Ok((Fraction { num: 1000 * w, den }, Fraction { num: 1000 * h, den }))
            },
        }
    }

    /// Position and logical size of a monitor that has both a resolvable mode
    /// and a position.
    pub fn geometry(&self) -> (r: Result<(i32, i32, Fraction, Fraction), LayoutError>)
        ensures
            geometry_view(r) == self.spec_geometry(),
            0 < self.spec_scale() <= u16::MAX,
    {
        match self.logical_extent() {
            Err(e) => Err(e),
            Ok((w, h)) => match self.position {
                None => Err(LayoutError::NoPosition),
                Some(p) => Ok((p.x, p.y, w, h)),
            },
        }
    }

    /// Position and logical size, with an empty rectangle at the origin for a
    /// monitor that has no resolvable mode.
    pub fn get_geometry(&self) -> (r: Result<(i32, i32, Fraction, Fraction), LayoutError>)
        ensures
            geometry_view(r) == self.spec_lenient_geometry(),
            0 < self.spec_scale() <= u16::MAX,
    {
        match self.logical_extent() {
            Err(_) => Ok((0, 0, Fraction::from_whole(0), Fraction::from_whole(0))),
            Ok((w, h)) => match self.position {
                None => Err(LayoutError::NoPosition),
                Some(p) => Ok((p.x, p.y, w, h)),
            },
        }
    }

    /// Makes the mode at `index` the current one and clears the flag on every
    /// other mode. An index past the end changes nothing and is reported.
    pub fn set_current_resolution(&mut self, index: usize) -> (r: Result<(), LayoutError>)
        ensures
            index < old(self).modes@.len() ==> r is Ok && final(self).modes@ == with_current(
                old(self).modes@,
                index as int,
            ),
            index >= old(self).modes@.len() ==> r == Err::<(), LayoutError>(
                LayoutError::IndexOutOfRange,
            ) && final(self).modes@ == old(self).modes@,
            *final(self) == (Monitor { modes: final(self).modes, ..*old(self) }),
    {
        if index >= self.modes.len() {
            return Err(LayoutError::IndexOutOfRange);
        }
        let n: usize = self.modes.len();
        let mut i: usize = 0;
        while i < n
            invariant
                i <= n,
                n == self.modes@.len(),
                n == old(self).modes@.len(),
                index < n,
                *self == (Monitor { modes: self.modes, ..*old(self) }),
                forall|j: int|
                    0 <= j < i ==> #[trigger] self.modes@[j] == with_current(
                        old(self).modes@,
                        index as int,
                    )[j],
                forall|j: int| i <= j < n ==> #[trigger] self.modes@[j] == old(self).modes@[j],
            decreases n - i,
        {
            let mut mode: Resolution = self.modes[i];
            mode.current = i == index;
            self.modes.set(i, mode);
            i += 1;
        }
        assert(self.modes@ =~= with_current(old(self).modes@, index as int));
        Ok(())
    }

    /// Adds `direction` to the vertical coordinate. A monitor without a
    /// position stays as it is.
    pub fn move_vertical(&mut self, direction: i32)
        requires
            old(self).can_move_vertical(direction as int),
        ensures
            *final(self) == old(self).moved_vertical(direction as int),
    {
        match self.position {
            Some(p) => {
                self.position = Some(Position { x: p.x, y: p.y + direction });
            },
            None => {},
        }
    }

    /// Adds `direction` to the horizontal coordinate. A monitor without a
    /// position stays as it is.
    pub fn move_horizontal(&mut self, direction: i32)
        requires
            old(self).can_move_horizontal(direction as int),
        ensures
            *final(self) == old(self).moved_horizontal(direction as int),
    {
        match self.position {
            Some(p) => {
                self.position = Some(Position { x: p.x + direction, y: p.y });
            },
            None => {},
        }
    }

    /// Adds `delta` to the coordinate on `axis`. A monitor without a position
    /// stays as it is.
    pub fn move_by(&mut self, axis: Axis, delta: i32)
        requires
            old(self).can_move_along(axis, delta as int),
        ensures
            *final(self) == old(self).moved_along(axis, delta as int),
    {
        match axis {
            Axis::Horizontal => self.move_horizontal(delta),
            Axis::Vertical => self.move_vertical(delta),
        }
    }

    /// Sets the scale factor.
    pub fn set_scale(&mut self, value: Scale)
        ensures
            *final(self) == (Monitor { scale: Some(value), ..*old(self) }),
    {
        self.scale = Some(value);
    }
}

/// A free move by `delta` and then by `-delta` leaves the monitor where it
/// was, in both directions.
pub proof fn lemma_move_and_back(m: Monitor, delta: int)
    requires
        m.can_move_vertical(delta),
        m.can_move_horizontal(delta),
    ensures
        m.moved_vertical(delta).moved_vertical(-delta) == m,
        m.moved_horizontal(delta).moved_horizontal(-delta) == m,
        m.moved_vertical(delta).can_move_vertical(-delta),
        m.moved_horizontal(delta).can_move_horizontal(-delta),
{
}

/// Of two monitors that differ only in their transform, one turned by a
/// quarter and one not, the first has the logical width of the second as its
/// height and the second's height as its width.
pub proof fn lemma_quarter_turn_swaps_extent(turned: Monitor, upright: Monitor)
    requires
        turned.modes@ == upright.modes@,
        turned.scale == upright.scale,
        resolved_mode(turned.modes@) is Some,
        turned.spec_rotation().spec_swaps_axes(),
        !upright.spec_rotation().spec_swaps_axes(),
    ensures
        turned.spec_extent() is Some,
        upright.spec_extent() is Some,
        turned.spec_extent().unwrap().0 == upright.spec_extent().unwrap().1,
        turned.spec_extent().unwrap().1 == upright.spec_extent().unwrap().0,
{
}

} // verus!
