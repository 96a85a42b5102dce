//! What the node tells about itself.
pub mod metrics;
