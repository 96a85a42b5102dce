//! Peer-to-peer time synchronisation.
pub mod binary64;
pub mod config;
pub mod net;
pub mod phc;
pub mod ranking;
pub mod store;
pub mod telemetry;
pub mod text;
pub mod time;
pub mod util;
