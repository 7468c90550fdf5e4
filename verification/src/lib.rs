//! Practice-session tracking: regiments, pieces and tempo logs.
//!
//! A regiment is a practice session with named pieces. While a piece is marked
//! active, a device streams its tempo, and the samples worth keeping become the
//! piece's log entries.
//!
//! - [`time`]: instants and spans, computed by chrono.
//! - [`model`]: regiments, pieces and log entries.
//! - [`register`]: the slot that names the active piece.
//! - [`telemetry`]: the decoding of a tempo payload.
//! - [`admission`]: which samples are kept.
//! - [`listener`]: the telemetry listener as a state machine.
//! - [`creation`]: the creation of a regiment in one transaction, as a state machine.
//! - [`history`]: the practice history rebuilt from the rows of the store's outer join.
//! - [`join`]: the outer join of a history, and the proof that it is rebuilt as it was.
//! - [`listing`]: regiments with their pieces from the rows of the inner join.
//! - [`failure`]: the messages that report a failed request.

pub mod admission;
pub mod creation;
pub mod failure;
pub mod history;
pub mod join;
pub mod listener;
pub mod listing;
pub mod model;
pub mod register;
pub mod telemetry;
pub mod time;
