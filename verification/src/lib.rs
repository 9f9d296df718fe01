//! A verified codec for a fixed, versioned game save-file format.
//!
//! The save file is a flat byte buffer in which every region sits at a fixed
//! absolute offset. This crate maps that buffer onto strongly typed
//! structures and back:
//!
//! * [`codec`] — little-endian primitives for reading and writing integers
//!   at a byte offset, with exact contracts relating bytes and values.
//! * [`flags`] — a bit-flag store: a byte range addressed as single bits.
//! * [`util`] — a fixed-capacity sequence with an explicit logical length,
//!   and a fixed-storage string.
//! * [`item`] — the inventory region: per-category slot arrays and
//!   aliasing-safe simultaneous mutable access to two slots.
//! * [`save`] — the top-level aggregate, gated by a magic number and a
//!   version byte, with its decode and encode entry points.
//!
//! Decoding only ever touches the modeled regions, and encoding writes only
//! those regions, so bytes the crate does not model pass through untouched.

pub mod codec;
pub mod flags;
pub mod item;
pub mod save;
pub mod util;

pub use save::MapTime;
pub use save::PlayTime;
pub use save::Pos;
pub use save::SaveData;
pub use save::SaveError;
pub use save::SaveFlag;
pub use save::SaveTimestamp;
