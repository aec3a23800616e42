//! A minimal line-oriented text editor core.
//!
//! The crate verifies the three pieces that must stay consistent on every
//! keystroke: the queued-command terminal surface, the line buffer with its
//! disk image, and the controller that maps input events to buffer and
//! cursor updates.  All device and file I/O lives outside the library; the
//! library computes exactly what must be written.

pub mod lines;
pub mod terminal;
pub mod view;
pub mod editor;
