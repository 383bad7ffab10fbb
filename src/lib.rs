//! Client-side logic of a hash-search miner for a course-run coin service:
//! difficulty predicates, hex and digest helpers, the CPU and GPU search
//! workers' arithmetic, the head tracker's decisions, the proxy pool and the
//! coordinator's candidate arbitration.
pub mod clock;
pub mod codec;
pub mod cpuminer;
pub mod digest;
pub mod entropy;
pub mod error;
pub mod gpuminer;
pub mod miner;
pub mod proxy;
pub mod tracker;
pub mod util;
