//! Incremental note windowing for a scrolling MIDI renderer: per-column block
//! stores, window cursors that follow a moving view range, a lazily walked
//! sequence of displaced notes, a playback clock and small statistics.
//!
//! All times are integer ticks (microseconds in the companion application).

pub mod block;
pub mod color;
pub mod controls;
pub mod cursor;
pub mod file;
pub mod fps;
pub mod laws;
pub mod range;
pub mod stats;
pub mod timer;
pub mod view;
