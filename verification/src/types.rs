//! The domain types that profilers, registry and application share.

use vstd::prelude::*;

use crate::constants::{INVALID_METRIC_VALUE, METRIC_VALUES_CAPACITY};
use crate::errors;
use crate::errors::CoreError;
use crate::sort;
use crate::sort::order_by_key;
use crate::text;

verus! {

/// A command that a user gives to a session.
#[derive(Debug, Clone, Copy, PartialEq, Eq, Structural)]
pub enum ControlCommand {
    /// Connect to a device.
    Connect,
    /// Start sampling.
    Start,
    /// Suspend sampling.
    Pause,
    /// Resume sampling.
    Restart,
    /// End the session.
    Stop,
}

impl ControlCommand {
    /// The name of the command.
    pub open spec fn name(self) -> &'static str {
        match self {
            ControlCommand::Connect => "Connect",
            ControlCommand::Start => "Start",
            ControlCommand::Pause => "Pause",
            ControlCommand::Restart => "Restart",
            ControlCommand::Stop => "Stop",
        }
    }

    /// The name of the command.
    pub fn as_str(self) -> (r: &'static str)
        ensures
            r@ == self.name()@,
    {
        match self {
            ControlCommand::Connect => "Connect",
            ControlCommand::Start => "Start",
            ControlCommand::Pause => "Pause",
            ControlCommand::Restart => "Restart",
            ControlCommand::Stop => "Stop",
        }
    }
}

/// One reading of a metric: a fixed number of values under a key, in a unit.
#[derive(Debug)]
pub struct MetricBatch {
    /// The key of the metric.
    pub metric_key: String,
    /// The unit of the values.
    pub unit: String,
    /// The values.
    pub values: Vec<i64>,
}

impl View for MetricBatch {
    type V = (Seq<char>, Seq<char>, Seq<i64>);

    open spec fn view(&self) -> (Seq<char>, Seq<char>, Seq<i64>) {
        (self.metric_key@, self.unit@, self.values@)
    }
}

impl Clone for MetricBatch {
    fn clone(&self) -> (r: Self)
        ensures
            r@ == self@,
    {
        let values = self.values.clone();
        assert(values@ =~= self.values@);
        MetricBatch { metric_key: self.metric_key.clone(), unit: self.unit.clone(), values }
    }
}

/// The values of a batch, filled up with the invalid value to the capacity of a batch.
pub open spec fn padded(values: Seq<i64>) -> Seq<i64> {
    Seq::new(
        METRIC_VALUES_CAPACITY as nat,
        |i: int|
            if i < values.len() {
                values[i]
            } else {
                INVALID_METRIC_VALUE
            },
    )
}

/// The values of a batch stand at their places, and the places behind them hold no value.
pub proof fn law_padded(values: Seq<i64>, i: int)
    requires
        0 <= i < 10,
    ensures
        padded(values).len() == 10,
        i < values.len() ==> padded(values)[i] == values[i],
        i >= values.len() ==> padded(values)[i] == -1,
{
}

/// Whether a batch with this key, unit and number of values can be made.
pub open spec fn batch_is_valid(metric_key: Seq<char>, unit: Seq<char>, count: nat) -> bool {
    metric_key.len() > 0 && unit.len() > 0 && count <= METRIC_VALUES_CAPACITY
}

/// Tests whether a string is empty.
pub fn is_blank(s: &str) -> (r: bool)
    ensures
        r == (s@.len() == 0),
{
    s.unicode_len() == 0
}

impl MetricBatch {
    /// A batch of the given values, filled up with the invalid value.
    pub fn new(metric_key: String, unit: &str, values: Vec<i64>) -> (r: Result<MetricBatch, CoreError>)
        ensures
            r is Ok <==> batch_is_valid(metric_key@, unit@, values@.len()),
            r matches Ok(batch) ==> {
                &&& batch.metric_key@ == metric_key@
                &&& batch.unit@ == unit@
                &&& batch.values@ == padded(values@)
            },
            r matches Err(e) ==> if metric_key@.len() == 0 {
                errors::is_empty_field(e, "metric_key"@)
            } else if unit@.len() == 0 {
                errors::is_empty_field(e, "unit"@)
            } else {
                e matches CoreError::TooManyValues(n) && n == values@.len()
            },
    {
        if is_blank(metric_key.as_str()) {
            return Err(CoreError::EmptyField(String::from_str("metric_key")));
        }
        if is_blank(unit) {
            return Err(CoreError::EmptyField(String::from_str("unit")));
        }
        if values.len() > METRIC_VALUES_CAPACITY {
            return Err(CoreError::TooManyValues(values.len()));
        }
        let ghost given = values@;
        let mut values = values;
        while values.len() < METRIC_VALUES_CAPACITY
            invariant
                given.len() <= values@.len() <= METRIC_VALUES_CAPACITY,
                values@ == padded(given).take(values@.len() as int),
            decreases METRIC_VALUES_CAPACITY - values.len(),
        {
            values.push(INVALID_METRIC_VALUE);
            assert(values@ =~= padded(given).take(values@.len() as int));
        }
        assert(values@ =~= padded(given));
        Ok(MetricBatch { metric_key, unit: String::from_str(unit), values })
    }
}

/// What is known of one collector: its key, its unit and its place among the values.
#[derive(Debug)]
pub struct CollectorMetadata {
    /// The key of the collector.
    pub collector_key: String,
    /// The unit of its value.
    pub unit: String,
    /// The place of its value in the batch.
    pub order: usize,
}

impl View for CollectorMetadata {
    type V = (Seq<char>, Seq<char>, nat);

    open spec fn view(&self) -> (Seq<char>, Seq<char>, nat) {
        (self.collector_key@, self.unit@, self.order as nat)
    }
}

impl CollectorMetadata {
    /// Describes a collector.
    pub fn new(collector_key: String, unit: &str, order: usize) -> (r: Result<
        CollectorMetadata,
        CoreError,
    >)
        ensures
            r is Ok <==> collector_key@.len() > 0 && unit@.len() > 0,
            r matches Ok(m) ==> m@ == (collector_key@, unit@, order as nat),
            r matches Err(e) ==> if collector_key@.len() == 0 {
                errors::is_empty_field(e, "collector_key"@)
            } else {
                errors::is_empty_field(e, "unit"@)
            },
    {
        if is_blank(collector_key.as_str()) {
            return Err(CoreError::EmptyField(String::from_str("collector_key")));
        }
        if is_blank(unit) {
            return Err(CoreError::EmptyField(String::from_str("unit")));
        }
        Ok(CollectorMetadata { collector_key, unit: String::from_str(unit), order })
    }
}

impl Clone for CollectorMetadata {
    fn clone(&self) -> (r: Self)
        ensures
            r@ == self@,
    {
        CollectorMetadata {
            collector_key: self.collector_key.clone(),
            unit: self.unit.clone(),
            order: self.order,
        }
    }
}

/// What is known of a profiler: its key and its collectors.
#[derive(Debug)]
pub struct ProfilerMetadata {
    /// The key of the profiler.
    pub profiler_key: String,
    /// Its collectors.
    pub collector: Vec<CollectorMetadata>,
}

impl View for ProfilerMetadata {
    type V = (Seq<char>, Seq<(Seq<char>, Seq<char>, nat)>);

    open spec fn view(&self) -> (Seq<char>, Seq<(Seq<char>, Seq<char>, nat)>) {
        (self.profiler_key@, text::views(self.collector@))
    }
}

/// The places of collectors among the values, as keys to sort by.
pub open spec fn order_keys(collectors: Seq<(Seq<char>, Seq<char>, nat)>) -> Seq<u64> {
    collectors.map_values(|c: (Seq<char>, Seq<char>, nat)| c.2 as u64)
}

/// Collectors in the order of their values.
pub open spec fn in_order(collectors: Seq<(Seq<char>, Seq<char>, nat)>) -> Seq<
    (Seq<char>, Seq<char>, nat),
> {
    sort::stable_order(order_keys(collectors)).map_values(|place: usize| collectors[place as int])
}

/// Collectors are ordered by their places, and all of them are there.
pub proof fn law_collectors_in_order(collectors: Seq<(Seq<char>, Seq<char>, nat)>, i: int)
    requires
        collectors.len() <= usize::MAX,
        forall|i: int| 0 <= i < collectors.len() ==> (#[trigger] collectors[i]).2 <= u64::MAX,
    ensures
        in_order(collectors).len() == collectors.len(),
        forall|a: int, b: int|
            0 <= a <= b < collectors.len() ==> (#[trigger] in_order(collectors)[a]).2 <= (
            #[trigger] in_order(collectors)[b]).2,
        0 <= i < collectors.len() ==> in_order(collectors).contains(collectors[i]),
{
    let keys = order_keys(collectors);
    sort::lemma_stable_order_exists(keys);
    let order = sort::stable_order(keys);
    let sorted = in_order(collectors);
    assert forall|a: int, b: int| 0 <= a <= b < collectors.len() implies (#[trigger] sorted[a]).2
        <= (#[trigger] sorted[b]).2 by {
        assert(keys[order[a] as int] == collectors[order[a] as int].2);
        assert(keys[order[b] as int] == collectors[order[b] as int].2);
        if a < b {
            assert(sort::comes_before(keys, order[a] as int, order[b] as int));
        }
    }
    if 0 <= i < collectors.len() {
        sort::lemma_lists_every_place(keys, order, i);
        let a = choose|a: int| 0 <= a < order.len() && order[a] == i;
        assert(sorted[a] == collectors[i]);
    }
}

impl ProfilerMetadata {
    /// The collectors in the order of their values.
    pub fn ordered_collectors(&self) -> (r: Vec<&CollectorMetadata>)
        ensures
            text::views(r@) == in_order(self@.1),
    {
        let mut keys: Vec<u64> = Vec::new();
        let mut i: usize = 0;
        while i < self.collector.len()
            invariant
                i <= self.collector@.len(),
                keys@.len() == i,
                forall|j: int| 0 <= j < i ==> #[trigger] keys@[j] == order_keys(self@.1)[j],
            decreases self.collector@.len() - i,
        {
            keys.push(self.collector[i].order as u64);
            i = i + 1;
        }
        assert(keys@ =~= order_keys(self@.1));
        let order = order_by_key(keys.as_slice());
        let mut out: Vec<&CollectorMetadata> = Vec::new();
        let mut i: usize = 0;
        while i < order.len()
            invariant
                i <= order@.len(),
                sort::is_stable_order(keys@, order@),
                keys@.len() == self.collector@.len(),
                out@.len() == i,
                forall|j: int|
                    0 <= j < i ==> (#[trigger] out@[j])@ == self@.1[order@[j] as int],
            decreases order@.len() - i,
        {
            out.push(&self.collector[order[i]]);
            i = i + 1;
        }
        assert(text::views(out@) =~= in_order(self@.1));
        out
    }

    /// Describes a profiler.
    pub fn new(profiler_key: &str, collector: Vec<CollectorMetadata>) -> (r: Result<
        ProfilerMetadata,
        CoreError,
    >)
        ensures
            r is Ok <==> profiler_key@.len() > 0,
            r matches Ok(m) ==> m@ == (profiler_key@, text::views(collector@)),
            r matches Err(e) ==> errors::is_empty_field(e, "profiler_key"@),
    {
        if is_blank(profiler_key) {
            return Err(CoreError::EmptyField(String::from_str("profiler_key")));
        }
        Ok(ProfilerMetadata { profiler_key: String::from_str(profiler_key), collector })
    }
}

impl Clone for ProfilerMetadata {
    fn clone(&self) -> (r: Self)
        ensures
            r@ == self@,
    {
        broadcast use text::lemma_views_push;

        let mut collector: Vec<CollectorMetadata> = Vec::new();
        let mut i: usize = 0;
        while i < self.collector.len()
            invariant
                i <= self.collector@.len(),
                text::views(collector@) == text::views(self.collector@).take(i as int),
            decreases self.collector@.len() - i,
        {
            let next = self.collector[i].clone();
            assert(next@ == text::views(self.collector@)[i as int]);
            let ghost before = collector@;
            collector.push(next);
            assert(text::views(collector@) == text::views(before).push(next@));
            assert(text::views(collector@) =~= text::views(self.collector@).take(i + 1));
            i = i + 1;
        }
        ProfilerMetadata { profiler_key: self.profiler_key.clone(), collector }
    }
}

} // verus!
