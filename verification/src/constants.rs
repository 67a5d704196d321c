//! Shared constants of metric collection and aggregation.

use vstd::prelude::*;

verus! {

/// The value that stands for missing, disabled or unavailable metric data.
pub const INVALID_METRIC_VALUE: i64 = -1;

/// The number of values that a metric batch holds.
pub const METRIC_VALUES_CAPACITY: usize = 10;

} // verus!
