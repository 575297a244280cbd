//! Input automation state engine: key edge detection, periodic actions,
//! grid coordinate mapping, a recipe repository and the tick-driven
//! automation state machine that ties them together.
//!
//! The engine performs no input or output itself. Every tick the host hands
//! it the polled key state, the clock and the cursor position, and gets back
//! the driver calls and the storage operation it has to carry out. Click
//! files are read and written as text; their JSON is left to `serde_json`.

pub mod clicks;
pub mod coord;
pub mod error;
pub mod grid;
pub mod io;
pub mod json;
pub mod state;
pub mod text;
