//! Clock arithmetic: offsets, fusion of peers, drift history and clock corrections.
pub mod calc;
pub mod drift;
pub mod fuse;
pub mod slew;
