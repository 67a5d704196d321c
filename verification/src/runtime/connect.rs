//! Connecting a session to a device: one profiler after the other, each with what the device
//! answered.

use vstd::prelude::*;

use crate::aggregation::{AggregatorEvent, Event};
use crate::constants::INVALID_METRIC_VALUE;
use crate::device::{Device, DeviceDescriptor};
use crate::errors;
use crate::errors::CoreError;
use crate::profiler::cpu_clock;
use crate::profiler::cpu_clock::{ClockState, CpuClockProfiler};
use crate::profiler::cpu_usage;
use crate::profiler::cpu_usage::{CpuUsageProfiler, UsageState};
use crate::profiler::fps;
use crate::profiler::fps::{FpsProfiler, FpsState};
use crate::profiler::power;
use crate::profiler::power::{
    BatteryPowerProfiler, PowerMetricKind, PowerState, SelectedPowerStrategy,
};
use crate::profiler::sampler::{Link, SamplerState};
use crate::profiler::temperature;
use crate::profiler::temperature::{BatteryTemperatureProfiler, TemperatureState};
use crate::registry::Description;
use crate::runtime;
use crate::runtime::control;
use crate::runtime::control::{ensure_transition, report};
use crate::runtime::{PerfDroidRuntime, RuntimeState};
use crate::session::SessionState;
use crate::storage;
use crate::storage::Channel;
use crate::text;
use crate::text::{joined, same_str};
use crate::types;
use crate::types::{ControlCommand, ProfilerMetadata};

verus! {

/// The interval between samples of the CPU, in nanoseconds.
pub const CPU_INTERVAL_NS: u64 = 100_000_000;

/// The interval between samples of frame rate and battery, in nanoseconds.
pub const SLOW_INTERVAL_NS: u64 = 1_000_000_000;

/// The serial number that stands for whatever device the ADB server chooses.
pub const DEFAULT_SERIAL: &'static str = "default";

/// The link of a profiler that has just been connected.
pub open spec fn fresh_link() -> Link {
    Link { connected: true, sampler: SamplerState::Absent }
}

// ---------------------------------------------------------------------------
// The CPU
// ---------------------------------------------------------------------------

/// Whether the CPU clock can be profiled, after this answer to the listing of policies.
pub open spec fn clock_accepts(reply: Result<String, CoreError>) -> bool {
    reply matches Ok(output) && cpu_clock::policies(output@).len() > 0 && cpu_clock::all_named(
        cpu_clock::policies(output@),
    )
}

/// Whether the error says why the CPU clock cannot be profiled.
pub open spec fn clock_refusal(reply: Result<String, CoreError>, e: CoreError) -> bool {
    match reply {
        Err(given) => e == given,
        Ok(output) => if cpu_clock::policies(output@).len() == 0 {
            errors::is_runtime(e, cpu_clock::no_policy_text()@)
        } else {
            errors::is_empty_field(e, "collector_key"@)
        },
    }
}

/// The profiler of the CPU clock, with one collector for each policy that was listed.
pub open spec fn clock_for(serial: Option<Seq<char>>, output: Seq<char>) -> ClockState {
    let readings = cpu_clock::fresh_readings(cpu_clock::policies(output));
    ClockState {
        serial,
        sample_interval_ns: CPU_INTERVAL_NS,
        described: (cpu_clock::PROFILER_KEY@, cpu_clock::descriptions(readings)),
        readings,
        link: fresh_link(),
    }
}

/// What attaching the profiler of the CPU clock comes to.
pub open spec fn clock_attached(
    before: RuntimeState,
    after: RuntimeState,
    serial: Option<Seq<char>>,
    reply: Result<String, CoreError>,
    r: Result<(), CoreError>,
) -> bool {
    match r {
        Ok(_) => {
            &&& clock_accepts(reply)
            &&& after == (RuntimeState {
                clock: Some(clock_for(serial, reply->Ok_0@)),
                registry: before.registry.push(clock_for(serial, reply->Ok_0@).described),
                ..before
            })
        },
        Err(e) => !clock_accepts(reply) && clock_refusal(reply, e) && after == before,
    }
}

/// Whether the CPU utilisation can be profiled, after this answer to the listing of policies.
pub open spec fn usage_accepts(reply: Result<String, CoreError>) -> bool {
    reply matches Ok(output) && cpu_usage::groups(output@).len() > 0
}

/// Whether the error says why the CPU utilisation cannot be profiled.
pub open spec fn usage_refusal(reply: Result<String, CoreError>, e: CoreError) -> bool {
    match reply {
        Err(given) => e == given,
        Ok(_) => errors::is_runtime(e, cpu_usage::no_policy_text()@),
    }
}

/// The profiler of the CPU utilisation, with one collector for each policy that was listed.
pub open spec fn usage_for(serial: Option<Seq<char>>, output: Seq<char>) -> UsageState {
    let policies = cpu_usage::groups(output);
    let readings = cpu_usage::fresh_readings(policies);
    UsageState {
        serial,
        sample_interval_ns: CPU_INTERVAL_NS,
        described: (cpu_usage::PROFILER_KEY@, cpu_usage::descriptions(readings)),
        policies,
        readings,
        previous: None,
        link: fresh_link(),
    }
}

/// What attaching the profiler of the CPU utilisation comes to.
pub open spec fn usage_attached(
    before: RuntimeState,
    after: RuntimeState,
    serial: Option<Seq<char>>,
    reply: Result<String, CoreError>,
    r: Result<(), CoreError>,
) -> bool {
    match r {
        Ok(_) => {
            &&& usage_accepts(reply)
            &&& after == (RuntimeState {
                usage: Some(usage_for(serial, reply->Ok_0@)),
                registry: before.registry.push(usage_for(serial, reply->Ok_0@).described),
                ..before
            })
        },
        Err(e) => !usage_accepts(reply) && usage_refusal(reply, e) && after == before,
    }
}

impl PerfDroidRuntime {
    /// Attaches the profiler of the CPU clock, with the answer to the listing of policies.
    pub fn attach_cpu_clock(&mut self, serial: Option<String>, reply: Result<String, CoreError>)
        -> (r: Result<(), CoreError>)
        requires
            old(self).wf(),
            old(self)@.state.accepts(ControlCommand::Connect),
        ensures
            final(self).wf(),
            clock_attached(old(self)@, final(self)@, text::optional(serial), reply, r),
    {
        let mut profiler = CpuClockProfiler::new(serial, CPU_INTERVAL_NS)?;
        match profiler.connect(reply) {
            Err(e) => Err(e),
            Ok(_) => {
                self.registry.register(profiler.metadata_clone());
                self.cpu_clock_profiler = Some(profiler);
                Ok(())
            },
        }
    }

    /// Attaches the profiler of the CPU utilisation, with the answer to the listing of policies.
    pub fn attach_cpu_usage(&mut self, serial: Option<String>, reply: Result<String, CoreError>)
        -> (r: Result<(), CoreError>)
        requires
            old(self).wf(),
            old(self)@.state.accepts(ControlCommand::Connect),
        ensures
            final(self).wf(),
            usage_attached(old(self)@, final(self)@, text::optional(serial), reply, r),
    {
        let mut profiler = CpuUsageProfiler::new(serial, CPU_INTERVAL_NS)?;
        match profiler.connect(reply) {
            Err(e) => Err(e),
            Ok(_) => {
                self.registry.register(profiler.metadata_clone());
                self.cpu_usage_profiler = Some(profiler);
                Ok(())
            },
        }
    }
}

// ---------------------------------------------------------------------------
// Frame rate and battery
// ---------------------------------------------------------------------------

/// Events with a message, if there is one.
pub open spec fn told(message: Option<Seq<char>>) -> Seq<Event> {
    match message {
        Some(message) => seq![Event::Status(message)],
        None => Seq::empty(),
    }
}

/// Why the frame rate cannot be profiled, after this answer to the command that turns the
/// statistics on.
pub open spec fn fps_trouble(enabled: Result<String, CoreError>) -> Option<Seq<char>> {
    match enabled {
        Ok(_) => None,
        Err(e) => Some("FPS profiler disabled: "@ + errors::error_text(e)),
    }
}

/// The profiler of the frame rate.
pub open spec fn fps_for(serial: Option<Seq<char>>, package: Seq<char>) -> FpsState {
    FpsState {
        serial,
        sample_interval_ns: SLOW_INTERVAL_NS,
        value: INVALID_METRIC_VALUE,
        package,
        link: fresh_link(),
    }
}

/// The session after the frame rate has been dealt with.
pub open spec fn with_fps(
    s: RuntimeState,
    serial: Option<Seq<char>>,
    enabled: Result<String, CoreError>,
) -> RuntimeState {
    if fps_trouble(enabled) is None {
        RuntimeState {
            fps: Some(fps_for(serial, s.package_name)),
            registry: s.registry.push(fps::description()),
            ..s
        }
    } else {
        RuntimeState { fps: None, ..s }
    }
}

/// Why the battery temperature cannot be profiled, after this dump.
pub open spec fn temperature_trouble(reply: Result<String, CoreError>) -> Option<Seq<char>> {
    match reply {
        Ok(output) => if temperature::temperature_or_invalid(output@) == INVALID_METRIC_VALUE {
            Some("Battery temperature profiler disabled: "@ + temperature::unusable_text()@)
        } else {
            None
        },
        Err(e) => Some("Battery temperature profiler disabled: "@ + errors::error_text(e)),
    }
}

/// The profiler of the battery temperature, with the value of the first dump.
pub open spec fn temperature_for(serial: Option<Seq<char>>, output: Seq<char>) -> TemperatureState {
    TemperatureState {
        serial,
        sample_interval_ns: SLOW_INTERVAL_NS,
        value: temperature::temperature_or_invalid(output),
        link: fresh_link(),
    }
}

/// The session after the battery temperature has been dealt with.
pub open spec fn with_temperature(
    s: RuntimeState,
    serial: Option<Seq<char>>,
    reply: Result<String, CoreError>,
) -> RuntimeState {
    if temperature_trouble(reply) is None {
        RuntimeState {
            temperature: Some(temperature_for(serial, reply->Ok_0@)),
            registry: s.registry.push(temperature::description()),
            ..s
        }
    } else {
        RuntimeState { temperature: None, ..s }
    }
}

/// What probing the device for a way of reading a metric came to: the way with its first value,
/// nothing, or an error.
pub type Probed = Result<Option<(SelectedPowerStrategy, i64)>, CoreError>;

/// What users call the profiler of a metric.
pub open spec fn battery_name(metric: PowerMetricKind) -> &'static str {
    match metric {
        PowerMetricKind::Voltage => "Battery voltage profiler",
        PowerMetricKind::Current => "Battery current profiler",
        PowerMetricKind::Power => "Battery power profiler",
    }
}

/// Whether a metric can be profiled, after this probing.
pub open spec fn battery_accepts(probed: Probed) -> bool {
    probed matches Ok(Some(found)) && found.1 != INVALID_METRIC_VALUE
}

/// What users are told of the probing for a metric.
pub open spec fn battery_message(metric: PowerMetricKind, probed: Probed) -> Seq<char> {
    match probed {
        Ok(Some(found)) => if found.1 != INVALID_METRIC_VALUE {
            battery_name(metric)@ + " using "@ + found.0.caption() + " strategy."@
        } else {
            battery_name(metric)@ + " disabled: "@ + power::unusable_text(metric)
        },
        Ok(None) => battery_name(metric)@ + " disabled: "@ + power::no_strategy_text(metric)@,
        Err(e) => battery_name(metric)@ + " disabled: "@ + errors::error_text(e),
    }
}

/// The profiler of a metric, with the way of reading that was found and its first value.
pub open spec fn battery_for(
    serial: Option<Seq<char>>,
    metric: PowerMetricKind,
    found: (SelectedPowerStrategy, i64),
) -> PowerState {
    PowerState {
        serial,
        metric,
        sample_interval_ns: SLOW_INTERVAL_NS,
        value: found.1,
        strategy: Some(found.0),
        link: fresh_link(),
    }
}

/// The session after voltage, current or power has been dealt with.
pub open spec fn with_battery_metric(
    s: RuntimeState,
    serial: Option<Seq<char>>,
    metric: PowerMetricKind,
    probed: Probed,
) -> RuntimeState {
    if battery_accepts(probed) {
        RuntimeState {
            registry: s.registry.push(power::description(metric)),
            ..s.with_battery(metric, Some(battery_for(serial, metric, probed->Ok_0->Some_0)))
        }
    } else {
        s.with_battery(metric, None)
    }
}

/// A message of a profiler and an error.
fn disabled(name: &str, error: &CoreError) -> (r: String)
    ensures
        r@ == name@ + errors::error_text(*error),
{
    let mut message = String::from_str(name);
    let text = error.message();
    message.append(text.as_str());
    message
}

impl PerfDroidRuntime {
    /// Attaches the profiler of the frame rate, where the device turned its statistics on.
    pub fn attach_fps(&mut self, serial: Option<String>, enabled: Result<String, CoreError>) -> (r:
        Vec<AggregatorEvent>)
        requires
            old(self).wf(),
            old(self)@.state.accepts(ControlCommand::Connect),
        ensures
            final(self).wf(),
            final(self)@ == with_fps(old(self)@, text::optional(serial), enabled),
            text::views(r@) == told(fps_trouble(enabled)),
    {
        broadcast use text::lemma_views_push;

        let mut out: Vec<AggregatorEvent> = Vec::new();
        assert(text::views(out@) =~= Seq::empty());
        self.fps_profiler = None;
        match FpsProfiler::new(serial, SLOW_INTERVAL_NS, self.package_name.clone()) {
            Ok(mut profiler) => match profiler.connect(enabled) {
                Ok(_) => {
                    self.registry.register(profiler.metadata_clone());
                    self.fps_profiler = Some(profiler);
                },
                Err(e) => {
                    out.push(AggregatorEvent::Status(disabled("FPS profiler disabled: ", &e)));
                },
            },
            Err(e) => {
                out.push(
                    AggregatorEvent::Status(disabled("FPS profiler construction failed: ", &e)),
                );
            },
        }
        assert(text::views(out@) =~= told(fps_trouble(enabled)));
        out
    }

    /// Attaches the profiler of the battery temperature, where the dump gives one.
    pub fn attach_battery_temperature(
        &mut self,
        serial: Option<String>,
        reply: Result<String, CoreError>,
    ) -> (r: Vec<AggregatorEvent>)
        requires
            old(self).wf(),
            old(self)@.state.accepts(ControlCommand::Connect),
        ensures
            final(self).wf(),
            final(self)@ == with_temperature(old(self)@, text::optional(serial), reply),
            text::views(r@) == told(temperature_trouble(reply)),
    {
        broadcast use text::lemma_views_push;

        let mut out: Vec<AggregatorEvent> = Vec::new();
        assert(text::views(out@) =~= Seq::empty());
        self.battery_temperature_profiler = None;
        match BatteryTemperatureProfiler::new(serial, SLOW_INTERVAL_NS) {
            Ok(mut profiler) => match profiler.connect(reply) {
                Ok(_) => {
                    self.registry.register(profiler.metadata_clone());
                    self.battery_temperature_profiler = Some(profiler);
                },
                Err(e) => {
                    out.push(
                        AggregatorEvent::Status(
                            disabled("Battery temperature profiler disabled: ", &e),
                        ),
                    );
                },
            },
            Err(e) => {
                out.push(
                    AggregatorEvent::Status(
                        disabled("Battery temperature profiler construction failed: ", &e),
                    ),
                );
            },
        }
        assert(text::views(out@) =~= told(temperature_trouble(reply)));
        out
    }

    /// Attaches the profiler of voltage, current or power, where a way of reading was found.
    pub fn attach_battery_metric(
        &mut self,
        serial: Option<String>,
        metric: PowerMetricKind,
        probed: Probed,
    ) -> (r: Vec<AggregatorEvent>)
        requires
            old(self).wf(),
            old(self)@.state.accepts(ControlCommand::Connect),
        ensures
            final(self).wf(),
            final(self)@ == with_battery_metric(
                old(self)@,
                text::optional(serial),
                metric,
                probed,
            ),
            text::views(r@) == seq![Event::Status(battery_message(metric, probed))],
    {
        broadcast use text::lemma_views_push;

        let name = match metric {
            PowerMetricKind::Voltage => "Battery voltage profiler",
            PowerMetricKind::Current => "Battery current profiler",
            PowerMetricKind::Power => "Battery power profiler",
        };
        let mut message = String::from_str(name);
        let mut attached: Option<BatteryPowerProfiler> = None;
        match BatteryPowerProfiler::new(serial, metric, SLOW_INTERVAL_NS) {
            Ok(mut profiler) => match profiler.connect(probed) {
                Ok(_) => {
                    if let Some(strategy) = profiler.selected_strategy_label() {
                        message.append(" using ");
                        message.append(strategy.as_str());
                        message.append(" strategy.");
                    }
                    self.registry.register(profiler.metadata_clone());
                    attached = Some(profiler);
                },
                Err(e) => {
                    message.append(" disabled: ");
                    let text = e.message();
                    message.append(text.as_str());
                },
            },
            Err(e) => {
                message.append(" construction failed: ");
                let text = e.message();
                message.append(text.as_str());
            },
        }
        match metric {
            PowerMetricKind::Voltage => {
                self.battery_voltage_profiler = attached;
            },
            PowerMetricKind::Current => {
                self.battery_current_profiler = attached;
            },
            PowerMetricKind::Power => {
                self.battery_power_profiler = attached;
            },
        }
        let mut out: Vec<AggregatorEvent> = Vec::new();
        out.push(AggregatorEvent::Status(message));
        assert(text::views(out@) =~= seq![Event::Status(battery_message(metric, probed))]);
        out
    }
}

// ---------------------------------------------------------------------------
// The whole
// ---------------------------------------------------------------------------

/// What users are told of a registered profiler: its key and those of its collectors.
pub open spec fn description_text(d: Description) -> Seq<char> {
    d.0 + " ["@ + text::join(
        types::in_order(d.1).map_values(|c: (Seq<char>, Seq<char>, nat)| c.0),
        ", "@,
    ) + "]"@
}

fn describe(metadata: &ProfilerMetadata) -> (r: String)
    ensures
        r@ == description_text(metadata@),
{
    let collectors = metadata.ordered_collectors();
    let ghost all = types::in_order(metadata@.1);
    let ghost keys = all.map_values(|c: (Seq<char>, Seq<char>, nat)| c.0);
    let mut parts: Vec<String> = Vec::new();
    let mut i: usize = 0;
    while i < collectors.len()
        invariant
            i <= collectors@.len(),
            all == text::views(collectors@),
            parts@.len() == i,
            forall|j: int| 0 <= j < i ==> (#[trigger] parts@[j])@ == all[j].0,
        decreases collectors@.len() - i,
    {
        assert(all[i as int] == collectors@[i as int]@);
        parts.push(collectors[i].collector_key.clone());
        i = i + 1;
    }
    assert(text::views(parts@) =~= keys);
    let mut out = metadata.profiler_key.clone();
    let list = joined(&parts, ", ");
    out.append(" [");
    out.append(list.as_str());
    out.append("]");
    out
}

/// The event for a registered profiler, if it is attached.
pub open spec fn registered(d: Option<Description>) -> Seq<Event> {
    match d {
        Some(d) => seq![Event::MetadataRegistered(description_text(d))],
        None => Seq::empty(),
    }
}

fn push_registered(events: &mut Vec<AggregatorEvent>, metadata: Option<ProfilerMetadata>)
    ensures
        text::views(final(events)@) == text::views(old(events)@) + registered(
            runtime::viewed(metadata),
        ),
{
    broadcast use text::lemma_views_push;

    let ghost before = text::views(events@);
    if let Some(metadata) = &metadata {
        events.push(AggregatorEvent::MetadataRegistered(describe(metadata)));
    }
    assert(text::views(events@) =~= before + registered(runtime::viewed(metadata)));
}

/// The events that end a connection.
pub open spec fn connected_events(s: RuntimeState) -> Seq<Event> {
    seq![Event::DeviceUpdated(s.device->Some_0)] + registered(s.described(Channel::CpuClock))
        + registered(s.described(Channel::CpuUsage)) + registered(s.described(Channel::Fps))
        + registered(s.described(Channel::BatteryTemperature)) + registered(
        s.described(Channel::BatteryVoltage),
    ) + registered(s.described(Channel::BatteryCurrent)) + registered(
        s.described(Channel::BatteryPower),
    ) + seq![
        Event::SamplingRateChanged(s.selected_hz),
        Event::PackageNameChanged(s.package_name),
        Event::StateChanged(SessionState::Connected),
    ]
}

/// What is asked of the device on the way to a connection.
#[derive(Debug, Clone, Copy, PartialEq, Eq, Structural)]
pub enum ConnectStage {
    /// A description of the device.
    Device,
    /// What the profiler of a channel needs.
    Profiler(Channel),
}

/// What the device answered.
#[derive(Debug)]
pub enum ConnectAnswer {
    /// Its description.
    Device(Result<DeviceDescriptor, String>),
    /// Its frequency policies.
    CpuClock(Result<String, CoreError>),
    /// Its frequency policies, for the utilisation.
    CpuUsage(Result<String, CoreError>),
    /// The answer to the command that turns frame statistics on.
    Fps(Result<String, CoreError>),
    /// The dump of the battery.
    BatteryTemperature(Result<String, CoreError>),
    /// What probing for voltage, current or power came to.
    Battery(PowerMetricKind, Probed),
}

/// How a connection goes on.
#[derive(Debug)]
pub enum ConnectNext {
    /// The device has to be asked.
    Ask(ConnectStage),
    /// The connection has been made, or has failed.
    Done(Result<(), CoreError>),
}

impl ConnectAnswer {
    /// The question that is answered.
    pub open spec fn stage(self) -> ConnectStage {
        match self {
            ConnectAnswer::Device(_) => ConnectStage::Device,
            ConnectAnswer::CpuClock(_) => ConnectStage::Profiler(Channel::CpuClock),
            ConnectAnswer::CpuUsage(_) => ConnectStage::Profiler(Channel::CpuUsage),
            ConnectAnswer::Fps(_) => ConnectStage::Profiler(Channel::Fps),
            ConnectAnswer::BatteryTemperature(_) => ConnectStage::Profiler(
                Channel::BatteryTemperature,
            ),
            ConnectAnswer::Battery(metric, _) => ConnectStage::Profiler(
                match metric {
                    PowerMetricKind::Voltage => Channel::BatteryVoltage,
                    PowerMetricKind::Current => Channel::BatteryCurrent,
                    PowerMetricKind::Power => Channel::BatteryPower,
                },
            ),
        }
    }
}

impl RuntimeState {
    /// The descriptions of the attached profilers among the first channels.
    pub open spec fn described_before(self, n: nat) -> Seq<Description>
        decreases n,
    {
        if n == 0 {
            Seq::empty()
        } else {
            match self.described(storage::channels()[n - 1]) {
                Some(d) => self.described_before((n - 1) as nat).push(d),
                None => self.described_before((n - 1) as nat),
            }
        }
    }

    /// Whether the session is ready for an answer: it is on the way to a connection, and the
    /// profilers before have been dealt with and registered.
    pub open spec fn ready_for(self, stage: ConnectStage) -> bool {
        &&& self.state.accepts(ControlCommand::Connect)
        &&& stage matches ConnectStage::Profiler(channel) ==> {
            &&& self.device is Some
            &&& self.registry == self.described_before(control::place(channel) as nat)
            &&& control::place(channel) > 0 ==> self.clock is Some
            &&& control::place(channel) > 1 ==> self.usage is Some
        }
    }
}

/// What a step on the way to a connection comes to: the session, what users are told, and how it
/// goes on.
pub open spec fn connect_step_is(
    before: RuntimeState,
    after: RuntimeState,
    serial: Option<Seq<char>>,
    answer: ConnectAnswer,
    told_events: Seq<Event>,
    next: ConnectNext,
) -> bool {
    match answer {
        ConnectAnswer::Device(described) => {
            &&& told_events == Seq::<Event>::empty()
            &&& match described {
                Ok(device) => {
                    &&& after == (RuntimeState {
                        registry: Seq::empty(),
                        device: Some(device@),
                        ..before
                    })
                    &&& next == ConnectNext::Ask(ConnectStage::Profiler(Channel::CpuClock))
                },
                Err(message) => {
                    &&& after == before
                    &&& next matches ConnectNext::Done(Err(e)) && errors::is_runtime(e, message@)
                },
            }
        },
        ConnectAnswer::CpuClock(reply) => {
            &&& told_events == Seq::<Event>::empty()
            &&& match next {
                ConnectNext::Ask(stage) => {
                    &&& stage == ConnectStage::Profiler(Channel::CpuUsage)
                    &&& clock_attached(before, after, serial, reply, Ok(()))
                },
                ConnectNext::Done(r) => r is Err && clock_attached(
                    before,
                    after,
                    serial,
                    reply,
                    r,
                ),
            }
        },
        ConnectAnswer::CpuUsage(reply) => {
            &&& told_events == Seq::<Event>::empty()
            &&& match next {
                ConnectNext::Ask(stage) => {
                    &&& stage == ConnectStage::Profiler(Channel::Fps)
                    &&& usage_attached(before, after, serial, reply, Ok(()))
                },
                ConnectNext::Done(r) => r is Err && usage_attached(
                    before,
                    after,
                    serial,
                    reply,
                    r,
                ),
            }
        },
        ConnectAnswer::Fps(enabled) => {
            &&& after == with_fps(before, serial, enabled)
            &&& told_events == told(fps_trouble(enabled))
            &&& next == ConnectNext::Ask(ConnectStage::Profiler(Channel::BatteryTemperature))
        },
        ConnectAnswer::BatteryTemperature(reply) => {
            &&& after == with_temperature(before, serial, reply)
            &&& told_events == told(temperature_trouble(reply))
            &&& next == ConnectNext::Ask(ConnectStage::Profiler(Channel::BatteryVoltage))
        },
        ConnectAnswer::Battery(metric, probed) => {
            let attached = with_battery_metric(before, serial, metric, probed);
            let message = seq![Event::Status(battery_message(metric, probed))];
            match metric {
                PowerMetricKind::Voltage => {
                    &&& after == attached
                    &&& told_events == message
                    &&& next == ConnectNext::Ask(ConnectStage::Profiler(Channel::BatteryCurrent))
                },
                PowerMetricKind::Current => {
                    &&& after == attached
                    &&& told_events == message
                    &&& next == ConnectNext::Ask(ConnectStage::Profiler(Channel::BatteryPower))
                },
                PowerMetricKind::Power => {
                    &&& after == (RuntimeState { state: SessionState::Connected, ..attached })
                    &&& told_events == message + connected_events(after)
                    &&& next == ConnectNext::Done(Ok(()))
                },
            }
        },
    }
}

impl PerfDroidRuntime {
    /// Begins a connection. The result is the serial number to ask for, where one is chosen.
    pub fn begin_connect(&self, serial: String) -> (r: Result<Option<String>, CoreError>)
        ensures
            match r {
                Ok(chosen) => {
                    &&& self@.state.accepts(ControlCommand::Connect)
                    &&& text::optional(chosen) == if serial@ == DEFAULT_SERIAL@ {
                        None
                    } else {
                        Some(serial@)
                    }
                },
                Err(e) => {
                    &&& !self@.state.accepts(ControlCommand::Connect)
                    &&& control::refuses(e, self@.state, ControlCommand::Connect)
                },
            },
    {
        match ensure_transition(self.state, ControlCommand::Connect) {
            Err(e) => Err(e),
            Ok(_) => if same_str(serial.as_str(), DEFAULT_SERIAL) {
                Ok(None)
            } else {
                Ok(Some(serial))
            },
        }
    }

    /// Begins a connection to a device, or to whatever device the ADB server chooses, or says why
    /// that is not possible.
    pub fn request_connect(&self, serial: Option<String>) -> (r: Result<
        Option<String>,
        AggregatorEvent,
    >)
        ensures
            if self@.state.accepts(ControlCommand::Connect) {
                r matches Ok(chosen) && text::optional(chosen) == match serial {
                    Some(serial) => if serial@ == DEFAULT_SERIAL@ {
                        None
                    } else {
                        Some(serial@)
                    },
                    None => None,
                }
            } else {
                r matches Err(event) && control::answers(self@, ControlCommand::Connect, event@)
            },
    {
        let serial = match serial {
            Some(serial) => serial,
            None => String::from_str(DEFAULT_SERIAL),
        };
        match self.begin_connect(serial) {
            Ok(chosen) => Ok(chosen),
            Err(e) => Err(report(&e)),
        }
    }

    /// Takes up the description of the device.
    fn take_device(&mut self, described: Result<DeviceDescriptor, String>) -> (r: Result<
        (),
        CoreError,
    >)
        requires
            old(self).wf(),
        ensures
            final(self).wf(),
            match described {
                Ok(device) => {
                    &&& r is Ok
                    &&& final(self)@ == (RuntimeState {
                        registry: Seq::empty(),
                        device: Some(device@),
                        ..old(self)@
                    })
                },
                Err(message) => {
                    &&& r matches Err(e) && errors::is_runtime(e, message@)
                    &&& final(self)@ == old(self)@
                },
            },
    {
        match described {
            Ok(device) => {
                self.registry.clear();
                self.device = Some(device);
                Ok(())
            },
            Err(message) => Err(CoreError::Runtime(message)),
        }
    }

    /// What the registry is told of the profiler of a channel, where it is attached.
    pub fn description_of(&self, channel: Channel) -> (r: Option<ProfilerMetadata>)
        requires
            self.wf(),
        ensures
            runtime::viewed(r) == self@.described(channel),
    {
        match channel {
            Channel::CpuClock => match &self.cpu_clock_profiler {
                Some(p) => Some(p.metadata_clone()),
                None => None,
            },
            Channel::CpuUsage => match &self.cpu_usage_profiler {
                Some(p) => Some(p.metadata_clone()),
                None => None,
            },
            Channel::Fps => match &self.fps_profiler {
                Some(p) => Some(p.metadata_clone()),
                None => None,
            },
            Channel::BatteryTemperature => match &self.battery_temperature_profiler {
                Some(p) => Some(p.metadata_clone()),
                None => None,
            },
            Channel::BatteryVoltage => match &self.battery_voltage_profiler {
                Some(p) => Some(p.metadata_clone()),
                None => None,
            },
            Channel::BatteryCurrent => match &self.battery_current_profiler {
                Some(p) => Some(p.metadata_clone()),
                None => None,
            },
            Channel::BatteryPower => match &self.battery_power_profiler {
                Some(p) => Some(p.metadata_clone()),
                None => None,
            },
        }
    }

    /// Ends a connection: all profilers have been dealt with.
    fn finish_connect(&mut self) -> (r: Vec<AggregatorEvent>)
        requires
            old(self).wf(),
            old(self)@.state.accepts(ControlCommand::Connect),
            old(self)@.device is Some,
            old(self)@.clock is Some,
            old(self)@.usage is Some,
        ensures
            final(self).wf(),
            final(self)@ == (RuntimeState { state: SessionState::Connected, ..old(self)@ }),
            text::views(r@) == connected_events(final(self)@),
    {
        broadcast use text::lemma_views_push;

        self.state = SessionState::Connected;
        let mut out: Vec<AggregatorEvent> = Vec::new();
        if let Some(device) = &self.device {
            out.push(AggregatorEvent::DeviceUpdated(device.clone()));
        }
        assert(text::views(out@) =~= seq![Event::DeviceUpdated(self@.device->Some_0)]);
        push_registered(&mut out, self.description_of(Channel::CpuClock));
        push_registered(&mut out, self.description_of(Channel::CpuUsage));
        push_registered(&mut out, self.description_of(Channel::Fps));
        push_registered(&mut out, self.description_of(Channel::BatteryTemperature));
        push_registered(&mut out, self.description_of(Channel::BatteryVoltage));
        push_registered(&mut out, self.description_of(Channel::BatteryCurrent));
        push_registered(&mut out, self.description_of(Channel::BatteryPower));
        let ghost told_before = text::views(out@);
        out.push(AggregatorEvent::SamplingRateChanged(self.selected_hz));
        out.push(AggregatorEvent::PackageNameChanged(self.package_name.clone()));
        out.push(AggregatorEvent::StateChanged(SessionState::Connected));
        assert(text::views(out@) =~= told_before + seq![
            Event::SamplingRateChanged(self@.selected_hz),
            Event::PackageNameChanged(self@.package_name),
            Event::StateChanged(SessionState::Connected),
        ]);
        out
    }

    /// Takes up an answer on the way to a connection. Once the last answer is in, all profilers
    /// that can be are attached and registered, and the session is ready to start.
    pub fn connect_step(&mut self, serial: Option<String>, answer: ConnectAnswer) -> (r: (
        Vec<AggregatorEvent>,
        ConnectNext,
    ))
        requires
            old(self).wf(),
            old(self)@.ready_for(answer.stage()),
        ensures
            final(self).wf(),
            connect_step_is(
                old(self)@,
                final(self)@,
                text::optional(serial),
                answer,
                text::views(r.0@),
                r.1,
            ),
    {
        let mut events: Vec<AggregatorEvent> = Vec::new();
        assert(text::views(events@) =~= Seq::empty());
        match answer {
            ConnectAnswer::Device(described) => match self.take_device(described) {
                Ok(_) => (events, ConnectNext::Ask(ConnectStage::Profiler(Channel::CpuClock))),
                Err(e) => (events, ConnectNext::Done(Err(e))),
            },
            ConnectAnswer::CpuClock(reply) => match self.attach_cpu_clock(serial, reply) {
                Ok(_) => (events, ConnectNext::Ask(ConnectStage::Profiler(Channel::CpuUsage))),
                Err(e) => (events, ConnectNext::Done(Err(e))),
            },
            ConnectAnswer::CpuUsage(reply) => match self.attach_cpu_usage(serial, reply) {
                Ok(_) => (events, ConnectNext::Ask(ConnectStage::Profiler(Channel::Fps))),
                Err(e) => (events, ConnectNext::Done(Err(e))),
            },
            ConnectAnswer::Fps(enabled) => (
                self.attach_fps(serial, enabled),
                ConnectNext::Ask(ConnectStage::Profiler(Channel::BatteryTemperature)),
            ),
            ConnectAnswer::BatteryTemperature(reply) => (
                self.attach_battery_temperature(serial, reply),
                ConnectNext::Ask(ConnectStage::Profiler(Channel::BatteryVoltage)),
            ),
            ConnectAnswer::Battery(metric, probed) => {
                let mut events = self.attach_battery_metric(serial, metric, probed);
                match metric {
                    PowerMetricKind::Voltage => (
                        events,
                        ConnectNext::Ask(ConnectStage::Profiler(Channel::BatteryCurrent)),
                    ),
                    PowerMetricKind::Current => (
                        events,
                        ConnectNext::Ask(ConnectStage::Profiler(Channel::BatteryPower)),
                    ),
                    PowerMetricKind::Power => {
                        let mut rest = self.finish_connect();
                        let ghost first = text::views(events@);
                        let ghost second = text::views(rest@);
                        events.append(&mut rest);
                        assert(text::views(events@) =~= first + second);
                        (events, ConnectNext::Done(Ok(())))
                    },
                }
            },
        }
    }
}

/// Every step on the way to a connection leaves the session ready for the next one. A connection
/// that fails leaves the state as it was; one that is made leaves the session connected, with
/// exactly the attached profilers registered, in order.
pub proof fn law_connecting(
    before: RuntimeState,
    after: RuntimeState,
    serial: Option<Seq<char>>,
    answer: ConnectAnswer,
    told_events: Seq<Event>,
    next: ConnectNext,
)
    requires
        before.wf(),
        before.ready_for(answer.stage()),
        connect_step_is(before, after, serial, answer, told_events, next),
    ensures
        match next {
            ConnectNext::Ask(stage) => after.ready_for(stage) && after.state == before.state,
            ConnectNext::Done(Err(_)) => after.state == before.state,
            ConnectNext::Done(Ok(_)) => {
                &&& after.state is Connected
                &&& after.registry == after.described_before(7)
                &&& after.device == before.device
            },
        },
{
    reveal_with_fuel(RuntimeState::described_before, 8);
}

/// A profiler that is attached is in the place of its channel and connected, with the serial number
/// that was asked for: that of a battery metric has the value and the way of reading that were
/// found for that metric, that of the temperature the value of the dump, that of the frame rate the
/// package of the session. The places of the other channels stay as they are.
pub proof fn law_attached_profilers(
    s: RuntimeState,
    serial: Option<Seq<char>>,
    metric: PowerMetricKind,
    found: (SelectedPowerStrategy, i64),
    reply: Result<String, CoreError>,
    other: PowerMetricKind,
)
    requires
        found.1 != INVALID_METRIC_VALUE,
        other != metric,
    ensures
        ({
            let after = with_battery_metric(s, serial, metric, Ok(Some(found)));
            &&& after.battery(metric) matches Some(p) && p.metric == metric && p.value == found.1
                && p.strategy == Some(found.0) && p.serial == serial && p.link.connected
            &&& after.battery(other) == s.battery(other)
            &&& after.clock == s.clock && after.usage == s.usage && after.fps == s.fps
                && after.temperature == s.temperature
        }),
        with_battery_metric(s, serial, metric, Ok(None)).battery(metric) is None,
        with_battery_metric(s, serial, metric, Ok(None)).registry == s.registry,
        ({
            let after = with_temperature(s, serial, reply);
            &&& reply is Err ==> after.temperature is None
            &&& reply matches Ok(output) ==> (temperature::battery_temperature(output@)
                matches Some(value) ==> (value != INVALID_METRIC_VALUE ==> (after.temperature
                matches Some(t) && t.value == value && t.serial == serial && t.link.connected)))
            &&& after.clock == s.clock && after.usage == s.usage && after.fps == s.fps
                && after.voltage == s.voltage && after.current == s.current && after.power
                == s.power
        }),
        ({
            let after = with_fps(s, serial, reply);
            &&& reply is Err ==> after.fps is None
            &&& reply is Ok ==> (after.fps matches Some(f) && f.package == s.package_name
                && f.serial == serial && f.value == INVALID_METRIC_VALUE && f.link.connected)
            &&& after.clock == s.clock && after.usage == s.usage && after.temperature
                == s.temperature && after.voltage == s.voltage && after.current == s.current
                && after.power == s.power
        }),
{
}

/// The profilers of the CPU get one collector for each policy that was listed, named for it.
pub proof fn law_attached_cpu_profilers(serial: Option<Seq<char>>, output: Seq<char>, i: int)
    ensures
        ({
            let clock = clock_for(serial, output);
            let usage = usage_for(serial, output);
            &&& clock.serial == serial && usage.serial == serial
            &&& clock.link.connected && usage.link.connected
            &&& clock.readings.len() == cpu_clock::policies(output).len()
            &&& usage.readings.len() == cpu_usage::groups(output).len()
            &&& usage.policies == cpu_usage::groups(output)
            &&& usage.previous is None
            &&& 0 <= i < clock.readings.len() ==> clock.readings[i].policy == cpu_clock::policies(
                output,
            )[i].0 && clock.described.1[i].0 == cpu_clock::policies(output)[i].0
            &&& 0 <= i < usage.readings.len() ==> usage.described.1[i].0 == cpu_usage::groups(
                output,
            )[i].0
            &&& clock.described.0 == "CPU_CLOCK"@
            &&& usage.described.0 == "CPU_USAGE"@
        }),
{
}

/// What users are told of a registered profiler begins with its key and names all its collectors.
pub proof fn law_descriptions(d: Description, i: int)
    requires
        0 <= i < types::in_order(d.1).len(),
    ensures
        d.0.is_prefix_of(description_text(d)),
        text::contains(description_text(d), types::in_order(d.1)[i].0),
{
    let keys = types::in_order(d.1).map_values(|c: (Seq<char>, Seq<char>, nat)| c.0);
    let list = text::join(keys, ", "@);
    text::law_joined_parts(keys, ", "@, i);
    text::lemma_contains_right(d.0 + " ["@, list, keys[i]);
    text::lemma_contains_left(d.0 + " ["@ + list, "]"@, keys[i]);
    assert(description_text(d).take(d.0.len() as int) =~= d.0);
}

/// A connection is told from the device to the state: the device first, then every attached
/// profiler, then the sampling rate, the package and the state.
pub proof fn law_told_connection(s: RuntimeState, channel: Channel)
    requires
        s.device is Some,
    ensures
        ({
            let events = connected_events(s);
            let n = events.len();
            &&& n >= 4
            &&& events[0] == Event::DeviceUpdated(s.device->Some_0)
            &&& events[n - 3] == Event::SamplingRateChanged(s.selected_hz)
            &&& events[n - 2] == Event::PackageNameChanged(s.package_name)
            &&& events[n - 1] == Event::StateChanged(SessionState::Connected)
            &&& s.described(channel) matches Some(d) ==> events.contains(
                Event::MetadataRegistered(description_text(d)),
            )
        }),
{
    let e0 = seq![Event::DeviceUpdated(s.device->Some_0)];
    let e1 = e0 + registered(s.described(Channel::CpuClock));
    let e2 = e1 + registered(s.described(Channel::CpuUsage));
    let e3 = e2 + registered(s.described(Channel::Fps));
    let e4 = e3 + registered(s.described(Channel::BatteryTemperature));
    let e5 = e4 + registered(s.described(Channel::BatteryVoltage));
    let e6 = e5 + registered(s.described(Channel::BatteryCurrent));
    let events = connected_events(s);
    if let Some(d) = s.described(channel) {
        let at = match channel {
            Channel::CpuClock => e0.len(),
            Channel::CpuUsage => e1.len(),
            Channel::Fps => e2.len(),
            Channel::BatteryTemperature => e3.len(),
            Channel::BatteryVoltage => e4.len(),
            Channel::BatteryCurrent => e5.len(),
            Channel::BatteryPower => e6.len(),
        };
        assert(events[at as int] == Event::MetadataRegistered(description_text(d)));
    }
}

} // verus!
