//! Verified core of the search-generation lifecycle, its observability
//! contracts, and the supporting terminal, profiling, lane-catalog and
//! connection-pool logic.

pub mod terminal;
pub mod text;
pub mod generation;
pub mod repair;
pub mod activation;
pub mod time_travel;
pub mod decision_plane;
pub mod observability_lint;
pub mod interaction_lanes;
pub mod profiling;
pub mod distributed_observability;
pub mod metrics;
pub mod embed_cache;
pub mod boundary;
pub mod drop_scan;
pub mod pool;
pub mod cancel_bridge;
