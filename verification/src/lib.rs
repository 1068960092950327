//! Batch-patches a timing offset into the step files of a legacy rhythm-game
//! install, whether they sit loose in a step directory or packed inside a
//! single container archive.
//!
//! The crate holds the decision logic only: which source to patch, which
//! entries count as step files, how an offset is applied across every legacy
//! mode of a step file, and how per-entry failures are isolated and reported.
//! Decoding bytes into step files, re-encoding them, and all disk traffic are
//! left to the codec and container collaborators around the crate.

pub mod errors;
pub mod locate;
pub mod names;
pub mod offset;
pub mod parse;
pub mod report;
pub mod step;
