//! Wire formats, the peer protocol and NTP.
pub mod fusion;
pub mod node;
pub mod ntp;
pub mod pending;
pub mod ping;
pub mod poller;
pub mod proto;
