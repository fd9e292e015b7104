//! Geometry and arrangement of display outputs on a shared logical plane.
//!
//! A monitor has a list of modes, a position in whole logical units, a scale
//! factor and a transform. From these the library derives its logical
//! rectangle, the viewport that holds all enabled monitors, the move that
//! snaps one monitor to the lines of the others, and the lines of the
//! compositor's configuration.
//!
//! Nothing here is rounded before it has to be. Scale factors and refresh
//! rates are held in thousandths, and a size that depends on a scale factor
//! is an exact quotient of two integers, so that every comparison the
//! arrangement rules make is decided as it would be on paper.
//!
//! - [`monitor`]: the data, mode resolution, logical size, free movement
//! - [`canvas`]: the viewport around the enabled monitors
//! - [`snap`]: the snapping rule and what follows from it
//! - [`export`]: the configuration lines
//! - [`map`]: where monitors are drawn, and the keys that move them
//! - [`session`]: the state of a session and what each key does to it
//! - [`configuration`]: settings and the arrangement kept between sessions
//! - [`fraction`], [`scale`], [`rotation`], [`text`], [`utils`], [`error`]:
//!   what the others are built from

pub mod canvas;
pub mod configuration;
pub mod error;
pub mod export;
pub mod fraction;
pub mod map;
pub mod monitor;
pub mod rotation;
pub mod scale;
pub mod session;
pub mod snap;
pub mod text;
pub mod utils;
