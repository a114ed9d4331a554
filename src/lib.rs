//! Verified core of an animated iterated-function-system fractal: a stateless
//! hash generator, the integer knots that drive the animation, and the
//! scheduler that splits a point buffer into hardware-legal compute dispatches.

pub mod frame;
pub mod random;
pub mod schedule;
pub mod transformations;

pub use random::{Random, RandomFloat, Rng};
pub use schedule::{
    ChunkPlan, ChunkView, Dispatch, Region, ScheduleError, FULL_POINT_CHUNK_LEN,
    INVOCATIONS_PER_WORKGROUP, MAX_WORKGROUPS_PER_DISPATCH,
};
pub use transformations::{GeneratorError, TransformationGenerator};
pub use frame::{FrameClock, Tick};
