//! Verified front end of a Customizable Contraction Hierarchy (CCH) engine.
//!
//! The crate checks every input that the routing engine would otherwise take on
//! trust, keeps the weight vector of each metric, and decides the exact sequence
//! of calls that each query object receives.
use vstd::prelude::*;

pub mod distance;
pub mod engine;
pub mod error;
pub mod hierarchy;
pub mod laws;
pub mod metric;
pub mod order;
pub mod pinned;
pub mod query;

pub use engine::QueryCall;
pub use error::InputError;
pub use order::{check_inertial_input, check_order_input, is_permutation};
pub use hierarchy::CCH;
pub use metric::{CCHMetric, CCHMetricPartialUpdater, MetricReaders};
pub use query::CCHQuery;
pub use pinned::{CCHManyToOne, CCHOneToMany};
pub use distance::{distance_from_raw, distances_from_raw, INF_WEIGHT};
