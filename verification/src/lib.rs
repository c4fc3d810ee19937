//! Timing, beat-snap and note-layout logic of a renderer for vertical scrolling
//! rhythm game maps, with its contracts proved by Verus.

pub mod audio;
pub mod constants;
pub mod logger;
pub mod map;
pub mod timing;

pub use timing::{index_at_time, object_at_time, sort_by_start_time, HasStartTime, Time};
