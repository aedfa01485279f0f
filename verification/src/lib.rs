//! A minimal embedded blinker, verified: a safe binding layer over a
//! platform's foreign primitives (staged initialization, GPIO output,
//! tick-based delay, millisecond-to-tick conversion) and the control loop
//! built from it.
//!
//! The platform is reached only through the [`hal::Hal`] capability trait,
//! whose contracts speak of an abstract platform state, [`hal::HalModel`].
//! [`double::TestHal`] is a verified in-memory platform that records every
//! primitive invocation; a hardware-backed implementation lives with the
//! device build, outside this crate.

pub mod control;
pub mod double;
pub mod hal;
pub mod trace;
pub mod wrapper;
