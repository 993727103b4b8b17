//! Result processing for a mass network scanner: the shared pipeline state
//! that queues raw responses, the reconciliation of decoded responses against
//! the previous scan, the schedule of rescans, and the resolution of the
//! configured TCP fingerprint profile.

pub mod address;
pub mod fingerprint;
pub mod config;
pub mod model;
pub mod processing;
pub mod rescan;
pub mod text;
