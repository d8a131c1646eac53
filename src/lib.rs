//! Renders a date- and weather-aware dashboard onto a monochrome canvas and
//! packs it into the bit-per-pixel frame that small e-ink panels expect.

pub mod calendar;
pub mod lunar;
pub mod canvas;
pub mod packer;
pub mod text;
pub mod weather;
pub mod compose;
pub mod layout;
pub mod dashboard;
