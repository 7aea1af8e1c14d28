//! Descriptors shared by every block: its metadata, its ports and the
//! metrics it reports.
pub mod block;
pub mod metrics;
pub mod port;
pub mod keyed;
pub mod json;
pub mod fnv;
pub mod record;
