//! What verifying an oracle's price update costs inside a zkVM.
//!
//! An update is one data package per signer. Verifying it takes a keccak256 hash
//! and a secp256k1 public-key recovery per package, and the question is what
//! those cost, in cycles, in proving time and in proof size.
//!
//! - [`bench`] holds the workloads that run in a guest, [`program`] the programs
//!   that run on the platform, and [`primitives`] the two primitives both rest
//!   on.
//! - [`signers`] makes the packages: a fixed row of signers, so that every
//!   measurement is reproducible.
//! - [`baseline`] and [`delta`] say what to measure on the bare zkVM and what to
//!   conclude, and [`execution`] steps through one measurement.
//! - [`probe`] does the same for a program on the platform, against the
//!   platform's cycle budget.
//! - [`wire`] is what crosses the boundary between host and guest.
//! - [`samples`], [`report`], [`select`] and [`decimal`] serve the reports, and
//!   [`first`] the errors.
//!
//! Nothing here executes, proves, times or prints. The library decides what is
//! to be done and takes in what happened.

pub mod baseline;
pub mod bench;
pub mod decimal;
pub mod delta;
pub mod execution;
pub mod first;
pub mod primitives;
pub mod probe;
pub mod program;
pub mod report;
pub mod samples;
pub mod select;
pub mod signers;
pub mod wire;
