//! A low-overhead metrics library: counters and gauges keyed by label groups that are
//! encoded to integers one-to-one, exported in the Prometheus text format or framed as
//! Prometheus protobuf messages.

pub mod fmt;
pub mod label;
pub mod metric;
pub mod process;
pub mod proto;
pub mod registry;
pub mod runtime;
pub mod text;

pub use label::{FixedCardinalityLabel, LabelGroup};
pub use metric::group::MetricGroup;

use metric::counter::CounterState;
use metric::gauge::GaugeState;
use metric::{Metric, MetricVec};
use vstd::prelude::*;

verus! {

/// A single counter value.
pub type Counter = Metric<CounterState>;

/// Multiple counter values, keyed by a label group.
pub type CounterVec<L> = MetricVec<CounterState, L>;

/// A single gauge value.
pub type Gauge = Metric<GaugeState>;

/// Multiple gauge values, keyed by a label group.
pub type GaugeVec<L> = MetricVec<GaugeState, L>;

} // verus!
