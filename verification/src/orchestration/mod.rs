//! Planning and dispatcher vocabulary: the clock acquisitions are stamped
//! with, and the planner that resolves needs into polls.

pub mod clock;
pub mod plan;
