//! A multi-target TCP reachability prober.
//!
//! The library classifies connection-attempt events into per-target
//! outcomes, aggregates them into a report with one outcome per target,
//! parses `host:port` target descriptions, and renders reports in a
//! stable textual form. The network itself is reached through the
//! [`prober::Connector`] capability trait, so that a real TCP connector
//! and a scripted one for tests can be substituted for one another.

pub mod outcome;
pub mod parse;
pub mod prober;
pub mod render;
pub mod target;
