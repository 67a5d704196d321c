//! The events of a session, and how the latest values of the profilers become metric batches.

use vstd::prelude::*;

use crate::constants::METRIC_VALUES_CAPACITY;
use crate::device::{AdbDetectedDevice, Detected, Device, DeviceDescriptor};
use crate::errors::CoreError;
use crate::profiler::cpu_clock;
use crate::profiler::cpu_clock::{ClockReading, CpuClockProfiler};
use crate::profiler::cpu_usage;
use crate::profiler::cpu_usage::CpuUsageProfiler;
use crate::profiler::fps::FpsProfiler;
use crate::profiler::power::BatteryPowerProfiler;
use crate::profiler::temperature::BatteryTemperatureProfiler;
use crate::session::SessionState;
use crate::storage::TimestampedBatch;
use crate::text;
use crate::text::same_str;
use crate::types;
use crate::types::MetricBatch;

verus! {

/// What a session tells its users.
#[derive(Debug)]
pub enum AggregatorEvent {
    /// A device operation has begun, or has ended. Holds whether it has begun and what it is.
    BusyStateChanged(bool, String),
    /// The session is in another state.
    StateChanged(SessionState),
    /// Another device is connected.
    DeviceUpdated(DeviceDescriptor),
    /// Devices have been listed.
    DeviceDiscoveryUpdated(Vec<AdbDetectedDevice>),
    /// A profiler has been registered. Holds its description.
    MetadataRegistered(String),
    /// There is a new reading.
    MetricBatch(TimestampedBatch),
    /// The frame rate of another package is read.
    PackageNameChanged(String),
    /// The sampling rate is another.
    SamplingRateChanged(u64),
    /// A message.
    Status(String),
}

/// What a session tells its users, abstractly.
pub enum Event {
    /// A device operation has begun, or has ended.
    BusyStateChanged(bool, Seq<char>),
    /// The session is in another state.
    StateChanged(SessionState),
    /// Another device is connected.
    DeviceUpdated(Device),
    /// Devices have been listed.
    DeviceDiscoveryUpdated(Seq<Detected>),
    /// A profiler has been registered.
    MetadataRegistered(Seq<char>),
    /// There is a new reading.
    MetricBatch((u64, (Seq<char>, Seq<char>, Seq<i64>))),
    /// The frame rate of another package is read.
    PackageNameChanged(Seq<char>),
    /// The sampling rate is another.
    SamplingRateChanged(u64),
    /// A message.
    Status(Seq<char>),
}

impl View for AggregatorEvent {
    type V = Event;

    open spec fn view(&self) -> Event {
        match self {
            AggregatorEvent::BusyStateChanged(busy, message) => Event::BusyStateChanged(
                *busy,
                message@,
            ),
            AggregatorEvent::StateChanged(state) => Event::StateChanged(*state),
            AggregatorEvent::DeviceUpdated(device) => Event::DeviceUpdated(device@),
            AggregatorEvent::DeviceDiscoveryUpdated(devices) => Event::DeviceDiscoveryUpdated(
                text::views(devices@),
            ),
            AggregatorEvent::MetadataRegistered(description) => Event::MetadataRegistered(
                description@,
            ),
            AggregatorEvent::MetricBatch(batch) => Event::MetricBatch(batch@),
            AggregatorEvent::PackageNameChanged(name) => Event::PackageNameChanged(name@),
            AggregatorEvent::SamplingRateChanged(hz) => Event::SamplingRateChanged(*hz),
            AggregatorEvent::Status(message) => Event::Status(message@),
        }
    }
}

// ---------------------------------------------------------------------------
// Batches
// ---------------------------------------------------------------------------

/// Whether `r` is what making a batch comes to.
pub open spec fn is_batch(
    r: Result<MetricBatch, CoreError>,
    key: Seq<char>,
    unit: Seq<char>,
    values: Seq<i64>,
) -> bool {
    match r {
        Ok(batch) => {
            &&& values.len() <= METRIC_VALUES_CAPACITY
            &&& batch@ == (key, unit, types::padded(values))
        },
        Err(e) => {
            &&& values.len() > METRIC_VALUES_CAPACITY
            &&& e matches CoreError::TooManyValues(n) && n == values.len()
        },
    }
}

/// The last place of a name, or -1 where it is not there.
pub open spec fn last_place(names: Seq<Seq<char>>, name: Seq<char>) -> int
    decreases names.len(),
{
    if names.len() == 0 {
        -1
    } else if names.last() == name {
        names.len() - 1
    } else {
        last_place(names.drop_last(), name)
    }
}

proof fn lemma_last_place(names: Seq<Seq<char>>, i: int)
    requires
        0 <= i < names.len(),
    ensures
        i <= last_place(names, names[i]) < names.len(),
        names[last_place(names, names[i])] == names[i],
    decreases names.len(),
{
    if names.last() != names[i] {
        assert(names.drop_last()[i] == names[i]);
        lemma_last_place(names.drop_last(), i);
        let p = last_place(names.drop_last(), names[i]);
        assert(names.drop_last()[p] == names[p]);
    }
}

/// The names of the policies.
pub open spec fn policy_names(readings: Seq<ClockReading>) -> Seq<Seq<char>> {
    readings.map_values(|reading: ClockReading| reading.policy)
}

/// The values of the CPU clock batch. Policies of the same name all show the value of the last of
/// them.
pub open spec fn clock_values(readings: Seq<ClockReading>) -> Seq<i64> {
    readings.map_values(
        |reading: ClockReading|
            readings[last_place(policy_names(readings), reading.policy)].value,
    )
}

/// Where all policies have different names, the batch shows the value of each policy in its
/// place.
pub proof fn law_every_policy_shows_its_value(readings: Seq<ClockReading>)
    requires
        policy_names(readings).no_duplicates(),
    ensures
        clock_values(readings) == cpu_clock::values_of(readings),
{
    let names = policy_names(readings);
    assert forall|i: int| 0 <= i < readings.len() implies clock_values(readings)[i]
        == readings[i].value by {
        lemma_last_place(names, i);
        assert(names[i] == readings[i].policy);
    }
    assert(clock_values(readings) =~= cpu_clock::values_of(readings));
}

/// Makes the batches of the CPU clock.
pub struct CpuClockDataPlane;

impl CpuClockDataPlane {
    /// The batch of the latest values of the CPU clock. There is none before the policies are
    /// found.
    pub fn build_metric_batch(profiler: &CpuClockProfiler) -> (r: Result<MetricBatch, CoreError>)
        requires
            profiler.wf(),
            profiler@.readings.len() > 0,
        ensures
            is_batch(r, "CPU_CLOCK"@, "MHz"@, clock_values(profiler@.readings)),
    {
        let metadata = profiler.metadata_clone();
        let snapshot = profiler.snapshot_values();
        let ghost readings = profiler@.readings;
        let ghost names = policy_names(readings);
        let mut values: Vec<i64> = Vec::new();
        let mut i: usize = 0;
        assert(metadata@.1.len() == metadata.collector@.len());
        while i < metadata.collector.len()
            invariant
                i <= metadata.collector@.len(),
                profiler.wf(),
                readings == profiler@.readings,
                names == policy_names(readings),
                metadata.collector@.len() == readings.len(),
                metadata@.1 == cpu_clock::descriptions(readings),
                snapshot@ == cpu_clock::values_of(readings),
                values@.len() == i,
                forall|j: int| 0 <= j < i ==> #[trigger] values@[j] == clock_values(readings)[j],
            decreases metadata.collector@.len() - i,
        {
            let key = metadata.collector[i].collector_key.as_str();
            assert(metadata@.1[i as int] == metadata.collector@[i as int]@);
            assert(readings[i as int].described.0 == readings[i as int].policy);
            assert(key@ == names[i as int]);
            proof {
                lemma_last_place(names, i as int);
            }
            let mut place: usize = metadata.collector.len();
            let mut found: bool = false;
            assert(names.take(place as int) =~= names);
            while !found
                invariant
                    profiler.wf(),
                    readings == profiler@.readings,
                    names == policy_names(readings),
                    i < names.len(),
                    metadata.collector@.len() == readings.len(),
                    metadata@.1 == cpu_clock::descriptions(readings),
                    key@ == names[i as int],
                    i <= last_place(names, key@) < names.len(),
                    !found ==> 0 < place <= readings.len() && last_place(names, key@)
                        == last_place(names.take(place as int), key@),
                    found ==> place == last_place(names, key@),
                decreases (if found {
                    0
                } else {
                    place + 1
                }),
            {
                place = place - 1;
                assert(metadata@.1[place as int] == metadata.collector@[place as int]@);
                assert(readings[place as int].described.0 == readings[place as int].policy);
                assert(names.take(place + 1).last() == names[place as int]);
                assert(names.take(place + 1).drop_last() =~= names.take(place as int));
                assert(place == 0 ==> last_place(names.take(place as int), key@) == -1);
                if same_str(metadata.collector[place].collector_key.as_str(), key) {
                    found = true;
                }
            }
            values.push(snapshot[place]);
            i = i + 1;
        }
        assert(values@ =~= clock_values(readings));
        proof {
            reveal_strlit("CPU_CLOCK");
            reveal_strlit("MHz");
        }
        MetricBatch::new(metadata.profiler_key, "MHz", values)
    }
}

/// Makes the batches of the CPU utilisation.
pub struct CpuUsageDataPlane;

impl CpuUsageDataPlane {
    /// The batch of the latest values of the CPU utilisation.
    pub fn build_metric_batch(profiler: &CpuUsageProfiler) -> (r: Result<MetricBatch, CoreError>)
        requires
            profiler.wf(),
        ensures
            is_batch(r, "CPU_USAGE"@, "%"@, cpu_usage::values_of(profiler@.readings)),
    {
        proof {
            reveal_strlit("CPU_USAGE");
            reveal_strlit("%");
        }
        MetricBatch::new(profiler.metadata_clone().profiler_key, "%", profiler.snapshot_values())
    }
}

/// Makes the batches of the frame rate.
pub struct FpsDataPlane;

impl FpsDataPlane {
    /// The batch of the latest frame rate.
    pub fn build_metric_batch(profiler: &FpsProfiler) -> (r: Result<MetricBatch, CoreError>)
        requires
            profiler.wf(),
        ensures
            is_batch(r, "FPS"@, "FPS"@, seq![profiler@.value]),
    {
        proof {
            reveal_strlit("FPS");
        }
        let values: Vec<i64> = vec![profiler.snapshot_value()];
        assert(values@ =~= seq![profiler@.value]);
        MetricBatch::new(profiler.metadata_clone().profiler_key, "FPS", values)
    }
}

/// Makes the batches of the battery.
pub struct BatteryDataPlane;

impl BatteryDataPlane {
    /// The batch of the latest battery temperature.
    pub fn build_temperature_batch(profiler: &BatteryTemperatureProfiler) -> (r: Result<
        MetricBatch,
        CoreError,
    >)
        requires
            profiler.wf(),
        ensures
            is_batch(r, "BATTERY_TEMP"@, "0.1C"@, seq![profiler@.value]),
    {
        proof {
            reveal_strlit("BATTERY_TEMP");
            reveal_strlit("0.1C");
        }
        let values: Vec<i64> = vec![profiler.snapshot_value()];
        assert(values@ =~= seq![profiler@.value]);
        MetricBatch::new(profiler.metadata_clone().profiler_key, "0.1C", values)
    }

    /// The batch of the latest voltage, current or power.
    pub fn build_power_batch(profiler: &BatteryPowerProfiler) -> (r: Result<MetricBatch, CoreError>)
        requires
            profiler.wf(),
        ensures
            is_batch(
                r,
                profiler@.metric.key()@,
                profiler@.metric.unit_name()@,
                seq![profiler@.value],
            ),
    {
        proof {
            reveal_strlit("VOLTAGE");
            reveal_strlit("CURRENT");
            reveal_strlit("POWER");
            reveal_strlit("mV");
            reveal_strlit("mA");
            reveal_strlit("mW");
        }
        let values: Vec<i64> = vec![profiler.snapshot_value()];
        assert(values@ =~= seq![profiler@.value]);
        MetricBatch::new(
            profiler.metadata_clone().profiler_key,
            profiler.metric().unit(),
            values,
        )
    }
}

/// The event for a batch that was made at the given time. A batch that could not be made gives
/// none.
pub fn stamp(batch: Result<MetricBatch, CoreError>, timestamp_ms: u64) -> (r: Option<
    AggregatorEvent,
>)
    ensures
        match batch {
            Ok(batch) => r matches Some(event) && event@ == Event::MetricBatch(
                (timestamp_ms, batch@),
            ),
            Err(_) => r is None,
        },
{
    match batch {
        Ok(batch) => Some(AggregatorEvent::MetricBatch(TimestampedBatch { timestamp_ms, batch })),
        Err(_) => None,
    }
}

} // verus!
