//! Reads the counters of a packet-processing engine from its telemetry
//! endpoint and turns them into labelled gauge updates.

pub mod collector;
pub mod json;
pub mod labels;
pub mod mapper;
pub mod telemetry;
