//! A status-bar line layout engine: styled text segments, display-width
//! bookkeeping, ANSI-aware truncation, composition to an exact column
//! budget, and tab-strip rendering.

pub mod ansi;
pub mod chars;
pub mod clock;
pub mod color;
pub mod compose;
pub mod laws;
pub mod segment;
pub mod state;
pub mod tabs;
pub mod width;
