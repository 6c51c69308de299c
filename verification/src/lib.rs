//! Sliding-window average of a stream of observations.
//!
//! A [`Speedometer`] records a value each time something is observed and
//! reports, on request, the average of the values recorded within the trailing
//! window: "how many bytes did each read bring in over the last five seconds?"
//!
//! The contracts are stated over [`window::Observation`] sequences: what a
//! meter holds is a `Seq` of them, oldest first, and every operation says how
//! that sequence changes.

pub mod clock;
pub mod meter;
pub mod window;

pub use crate::meter::{Entry, Speedometer};
