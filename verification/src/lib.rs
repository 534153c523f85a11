//! Driver for RGB LED matrix panels of the HUB75 kind, proved with Verus.
//!
//! Such a panel has no memory of its own. It shows two rows at a time, a row
//! pair, and only what was last shifted into it, one bit per colour channel.
//! To show a picture the driver has to go through the row pairs again and
//! again, fast, and to show more than eight colours it has to go through
//! the bits of the channels as well and show each for a time in proportion
//! to its weight.
//!
//! * [`canvas`] holds the picture and the drawing primitives, [`fonts`] the
//!   glyphs for text.
//! * [`ledmatrix`] knows the order of the pin writes that show one row pair.
//! * [`timer`] is the one-shot timer that paces the refresh.
//! * [`scheduler`] is the refresh engine: on each timer interrupt it shows
//!   the next row pair or bit-plane and arms the timer again.
//! * [`readonly_cell`] and [`metrics`] measure how often the panel is drawn.
//! * [`icon_generator`] turns image files into constants for the canvas.
//!
//! The library computes and keeps state. It never touches a pin or a
//! register: what is to be done with the hardware comes back as data, as
//! pin writes and timer commands in the order they are to be carried out.

pub mod canvas;
pub mod fonts;
pub mod icon_generator;
pub mod ledmatrix;
pub mod metrics;
pub mod readonly_cell;
pub mod scheduler;
pub mod timer;
