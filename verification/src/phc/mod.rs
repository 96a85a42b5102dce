//! The PTP hardware clock.
pub mod reader;
