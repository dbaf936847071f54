use vstd::prelude::*;

verus! {

/// Fixed-point subdivisions of one world unit.
pub const UNIT: i64 = 1000;

/// Microseconds in one second.
pub const SECOND: u64 = 1_000_000;

/// Width of the screen (1000 world units).
pub const SCREEN_WIDTH: i64 = 1_000_000;

/// Height of the screen (1000 world units).
pub const SCREEN_HEIGHT: i64 = 1_000_000;

/// Largest absolute coordinate an entity position may take.
pub const POSITION_LIMIT: i64 = 1_000_000_000;

/// Largest extent an entity size may take on either axis.
pub const SIZE_LIMIT: i64 = 1_000_000_000;

/// Largest absolute velocity component (1000 world units per second).
pub const SPEED_LIMIT: i64 = 1_000_000;

/// Longest frame time the simulation accepts (one second).
pub const MAX_FRAME_TIME: u64 = 1_000_000;

/// Largest value an animator's elapsed time, or a frame duration, may take.
pub const TIME_LIMIT: u64 = 0x4000_0000_0000_0000;

} // verus!

verus! {

/// Largest number of entities a frame may start with; a frame adds at most
/// three logs per entity and one man, so the store stays addressable.
pub const ENTITY_LIMIT: usize = 0x1000_0000;

} // verus!
