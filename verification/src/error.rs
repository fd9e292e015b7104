//! Why an arrangement step is refused.

use vstd::prelude::*;

verus! {

/// The reasons for which the engine refuses to act on a monitor.
#[derive(Clone, Copy, Debug, PartialEq, Eq, Structural)]
pub enum LayoutError {
    /// The monitor has neither a current nor a preferred mode.
    NoResolvableMode,
    /// The monitor has no position.
    NoPosition,
    /// An index points past the end of the list it selects from.
    IndexOutOfRange,
    /// The move would carry a coordinate out of the range of `i32`.
    PositionOverflow,
}

} // verus!
