//! Core of an IoT gas-telemetry service: the domain model, the sensor
//! store semantics, the broadcast bus with its slow-consumer policy, the
//! broker payload grammar, and the live-stream filtering step.

pub mod config;
pub mod domain;
pub mod bus;
pub mod errors;
pub mod http;
pub mod ingest;
pub mod json;
pub mod live;
pub mod store;
pub mod uuid_text;

use vstd::prelude::*;

verus! {

} // verus!
