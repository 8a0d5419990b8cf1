//! The layout, colours and controls of a hex battlefield.
//!
//! Two armies stand on a flat-top hex map and the map is drawn in relief: each
//! tile is a flat top raised by its elevation, with a dark cliff wall below. This
//! crate holds what decides that picture. It places the tiles, the river, the
//! objective and the units, picks every colour, turns key presses into orders and
//! writes the status line.
//!
//! Lengths on a hex map are irrational, so a coordinate is kept exactly, as
//! `a + b√3` with integers `a` and `b`; see [`surd`]. Colours are kept exactly too,
//! in ten-thousandths of full intensity; see [`palette`].

pub mod surd;
pub mod hex;
pub mod terrain;
pub mod field;
pub mod army;
pub mod palette;
pub mod hash;
pub mod scene;
pub mod command;
pub mod report;
