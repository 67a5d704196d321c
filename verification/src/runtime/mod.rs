//! The session: what it holds, the commands that it accepts, and what it tells its users.
//!
//! What only a device can tell comes in as an argument, so that every function here is a step
//! from one state of the session to the next.

pub mod connect;
pub mod control;

use vstd::prelude::*;

use crate::aggregation::{AggregatorEvent, Event};
use crate::device::{AdbDetectedDevice, Device, DeviceDescriptor};
use crate::errors;
use crate::errors::CoreError;
use crate::number;
use crate::number::write_u64;
use crate::profiler::cpu_clock::{ClockState, CpuClockProfiler};
use crate::profiler::cpu_usage::{CpuUsageProfiler, UsageState};
use crate::profiler::fps;
use crate::profiler::fps::{FpsProfiler, FpsState};
use crate::profiler::power;
use crate::profiler::power::{BatteryPowerProfiler, PowerMetricKind, PowerState};
use crate::profiler::sampler::{Link, SamplerState};
use crate::profiler::temperature;
use crate::profiler::temperature::{BatteryTemperatureProfiler, TemperatureState};
use crate::registry::{Description, ProfilerRegistry};
use crate::session::SessionState;
use crate::storage::Channel;
use crate::text;
use crate::types::{ControlCommand, ProfilerMetadata};

verus! {

/// The sampling rate of a new session.
pub const DEFAULT_HZ: u64 = 4;

/// A session with a device.
pub struct PerfDroidRuntime {
    state: SessionState,
    busy: bool,
    cpu_clock_profiler: Option<CpuClockProfiler>,
    cpu_usage_profiler: Option<CpuUsageProfiler>,
    fps_profiler: Option<FpsProfiler>,
    battery_temperature_profiler: Option<BatteryTemperatureProfiler>,
    battery_voltage_profiler: Option<BatteryPowerProfiler>,
    battery_current_profiler: Option<BatteryPowerProfiler>,
    battery_power_profiler: Option<BatteryPowerProfiler>,
    worker: SamplerState,
    registry: ProfilerRegistry,
    device: Option<DeviceDescriptor>,
    selected_hz: u64,
    package_name: String,
}

/// What a session holds, abstractly.
pub struct RuntimeState {
    /// The state.
    pub state: SessionState,
    /// Whether a device operation is in progress.
    pub busy: bool,
    /// The profiler of the CPU clock, where it is attached.
    pub clock: Option<ClockState>,
    /// The profiler of the CPU utilisation, where it is attached.
    pub usage: Option<UsageState>,
    /// The profiler of the frame rate, where it is attached.
    pub fps: Option<FpsState>,
    /// The profiler of the battery temperature, where it is attached.
    pub temperature: Option<TemperatureState>,
    /// The profiler of the voltage, where it is attached.
    pub voltage: Option<PowerState>,
    /// The profiler of the current, where it is attached.
    pub current: Option<PowerState>,
    /// The profiler of the power, where it is attached.
    pub power: Option<PowerState>,
    /// The worker that collects the values of the profilers.
    pub worker: SamplerState,
    /// The registered profilers.
    pub registry: Seq<Description>,
    /// The device, where one was described.
    pub device: Option<Device>,
    /// The sampling rate.
    pub selected_hz: u64,
    /// The package whose frame rate is read.
    pub package_name: Seq<char>,
}

/// The view of what is in an option.
pub open spec fn viewed<T: View>(o: Option<T>) -> Option<T::V> {
    match o {
        Some(x) => Some(x@),
        None => None,
    }
}

impl View for PerfDroidRuntime {
    type V = RuntimeState;

    closed spec fn view(&self) -> RuntimeState {
        RuntimeState {
            state: self.state,
            busy: self.busy,
            clock: viewed(self.cpu_clock_profiler),
            usage: viewed(self.cpu_usage_profiler),
            fps: viewed(self.fps_profiler),
            temperature: viewed(self.battery_temperature_profiler),
            voltage: viewed(self.battery_voltage_profiler),
            current: viewed(self.battery_current_profiler),
            power: viewed(self.battery_power_profiler),
            worker: self.worker,
            registry: self.registry@,
            device: viewed(self.device),
            selected_hz: self.selected_hz,
            package_name: self.package_name@,
        }
    }
}

// ---------------------------------------------------------------------------
// What always holds
// ---------------------------------------------------------------------------

/// Whether an attached profiler can have this link while the session is in this state: it is
/// connected, its sampler samples while the session runs and pauses while the session pauses. A
/// session that is ready may already have samplers, from a start that failed halfway.
pub open spec fn link_fits(state: SessionState, link: Link) -> bool {
    &&& link.connected
    &&& match state {
        SessionState::Disconnected | SessionState::Stopped => link.sampler is Absent,
        SessionState::Connected => true,
        SessionState::Running => link.sampler is Sampling,
        SessionState::Paused => link.sampler is Paused,
    }
}

/// The worker of a session in a state.
pub open spec fn worker_in(state: SessionState) -> SamplerState {
    match state {
        SessionState::Running => SamplerState::Sampling,
        SessionState::Paused => SamplerState::Paused,
        _ => SamplerState::Absent,
    }
}

impl RuntimeState {
    /// The link of the profiler of a channel, where it is attached.
    pub open spec fn link(self, channel: Channel) -> Option<Link> {
        match channel {
            Channel::CpuClock => match self.clock {
                Some(p) => Some(p.link),
                None => None,
            },
            Channel::CpuUsage => match self.usage {
                Some(p) => Some(p.link),
                None => None,
            },
            Channel::Fps => match self.fps {
                Some(p) => Some(p.link),
                None => None,
            },
            Channel::BatteryTemperature => match self.temperature {
                Some(p) => Some(p.link),
                None => None,
            },
            Channel::BatteryVoltage => match self.voltage {
                Some(p) => Some(p.link),
                None => None,
            },
            Channel::BatteryCurrent => match self.current {
                Some(p) => Some(p.link),
                None => None,
            },
            Channel::BatteryPower => match self.power {
                Some(p) => Some(p.link),
                None => None,
            },
        }
    }

    /// What the registry is told of the profiler of a channel, where it is attached.
    pub open spec fn described(self, channel: Channel) -> Option<Description> {
        match channel {
            Channel::CpuClock => match self.clock {
                Some(p) => Some(p.described),
                None => None,
            },
            Channel::CpuUsage => match self.usage {
                Some(p) => Some(p.described),
                None => None,
            },
            Channel::Fps => match self.fps {
                Some(_) => Some(fps::description()),
                None => None,
            },
            Channel::BatteryTemperature => match self.temperature {
                Some(_) => Some(temperature::description()),
                None => None,
            },
            Channel::BatteryVoltage => match self.voltage {
                Some(p) => Some(power::description(p.metric)),
                None => None,
            },
            Channel::BatteryCurrent => match self.current {
                Some(p) => Some(power::description(p.metric)),
                None => None,
            },
            Channel::BatteryPower => match self.power {
                Some(p) => Some(power::description(p.metric)),
                None => None,
            },
        }
    }

    /// The profiler of voltage, current or power, where it is attached.
    pub open spec fn battery(self, metric: PowerMetricKind) -> Option<PowerState> {
        match metric {
            PowerMetricKind::Voltage => self.voltage,
            PowerMetricKind::Current => self.current,
            PowerMetricKind::Power => self.power,
        }
    }

    /// The session with another profiler of voltage, current or power.
    pub open spec fn with_battery(self, metric: PowerMetricKind, p: Option<PowerState>) -> RuntimeState {
        match metric {
            PowerMetricKind::Voltage => RuntimeState { voltage: p, ..self },
            PowerMetricKind::Current => RuntimeState { current: p, ..self },
            PowerMetricKind::Power => RuntimeState { power: p, ..self },
        }
    }

    /// What always holds of a session: the sampling rate is between 1 and 10, samplers and worker
    /// follow the state, a session with a device has the profilers of the CPU, the profilers of
    /// the battery are each in their place, and the profiler of the frame rate reads that of the
    /// chosen package.
    pub open spec fn wf(self) -> bool {
        &&& 1 <= self.selected_hz <= 10
        &&& self.worker == worker_in(self.state)
        &&& self.clock matches Some(p) ==> link_fits(self.state, p.link)
        &&& self.usage matches Some(p) ==> link_fits(self.state, p.link)
        &&& self.fps matches Some(p) ==> link_fits(self.state, p.link)
        &&& self.temperature matches Some(p) ==> link_fits(self.state, p.link)
        &&& self.voltage matches Some(p) ==> link_fits(self.state, p.link)
        &&& self.current matches Some(p) ==> link_fits(self.state, p.link)
        &&& self.power matches Some(p) ==> link_fits(self.state, p.link)
        &&& !self.state.accepts(ControlCommand::Connect) ==> self.clock is Some && self.usage
            is Some
        &&& self.fps matches Some(p) ==> p.package == self.package_name
        &&& self.voltage matches Some(p) ==> p.metric is Voltage
        &&& self.current matches Some(p) ==> p.metric is Current
        &&& self.power matches Some(p) ==> p.metric is Power
    }
}

impl PerfDroidRuntime {
    /// What always holds of a session.
    pub closed spec fn wf(self) -> bool {
        self@.wf() && self.profilers_wf()
    }

    /// What always holds of a session holds of its abstract state.
    pub proof fn lemma_wf(self)
        requires
            self.wf(),
        ensures
            self@.wf(),
    {
    }

    /// What always holds of the attached profilers.
    spec fn profilers_wf(self) -> bool {
        &&& self.cpu_clock_profiler matches Some(p) ==> p.wf()
        &&& self.cpu_usage_profiler matches Some(p) ==> p.wf()
        &&& self.fps_profiler matches Some(p) ==> p.wf()
        &&& self.battery_temperature_profiler matches Some(p) ==> p.wf()
        &&& self.battery_voltage_profiler matches Some(p) ==> p.wf()
        &&& self.battery_current_profiler matches Some(p) ==> p.wf()
        &&& self.battery_power_profiler matches Some(p) ==> p.wf()
    }

    /// A session without a device.
    pub fn new() -> (r: PerfDroidRuntime)
        ensures
            r.wf(),
            r@ == (RuntimeState {
                state: SessionState::Disconnected,
                busy: false,
                clock: None,
                usage: None,
                fps: None,
                temperature: None,
                voltage: None,
                current: None,
                power: None,
                worker: SamplerState::Absent,
                registry: Seq::empty(),
                device: None,
                selected_hz: DEFAULT_HZ,
                package_name: Seq::empty(),
            }),
    {
        PerfDroidRuntime {
            state: SessionState::Disconnected,
            busy: false,
            cpu_clock_profiler: None,
            cpu_usage_profiler: None,
            fps_profiler: None,
            battery_temperature_profiler: None,
            battery_voltage_profiler: None,
            battery_current_profiler: None,
            battery_power_profiler: None,
            worker: SamplerState::Absent,
            registry: ProfilerRegistry::default(),
            device: None,
            selected_hz: DEFAULT_HZ,
            package_name: String::new(),
        }
    }

    /// The profiler of the CPU clock, where it is attached, for sampling. What is done to it must
    /// leave it fit for the state of the session.
    pub fn cpu_clock_profiler(&mut self) -> (r: Option<&mut CpuClockProfiler>)
        requires
            old(self).wf(),
        ensures
            match r {
                Some(p) => {
                    &&& p.wf()
                    &&& old(self)@.clock == Some(p@)
                    &&& final(self)@ == (RuntimeState { clock: Some(final(p)@), ..old(self)@ })
                    &&& final(p).wf() && link_fits(old(self)@.state, final(p)@.link)
                        ==> final(self).wf()
                },
                None => {
                    &&& old(self)@.clock is None
                    &&& final(self)@ == old(self)@
                    &&& final(self).wf()
                },
            },
    {
        match &mut self.cpu_clock_profiler {
            Some(p) => Some(p),
            None => None,
        }
    }

    /// The profiler of the CPU utilisation, where it is attached, for sampling. What is done to
    /// it must leave it fit for the state of the session.
    pub fn cpu_usage_profiler(&mut self) -> (r: Option<&mut CpuUsageProfiler>)
        requires
            old(self).wf(),
        ensures
            match r {
                Some(p) => {
                    &&& p.wf()
                    &&& old(self)@.usage == Some(p@)
                    &&& final(self)@ == (RuntimeState { usage: Some(final(p)@), ..old(self)@ })
                    &&& final(p).wf() && link_fits(old(self)@.state, final(p)@.link)
                        ==> final(self).wf()
                },
                None => {
                    &&& old(self)@.usage is None
                    &&& final(self)@ == old(self)@
                    &&& final(self).wf()
                },
            },
    {
        match &mut self.cpu_usage_profiler {
            Some(p) => Some(p),
            None => None,
        }
    }

    /// The profiler of the frame rate, where it is attached, for sampling. What is done to it
    /// must leave it fit for the state of the session, and its package as it is.
    pub fn fps_profiler(&mut self) -> (r: Option<&mut FpsProfiler>)
        requires
            old(self).wf(),
        ensures
            match r {
                Some(p) => {
                    &&& p.wf()
                    &&& old(self)@.fps == Some(p@)
                    &&& final(self)@ == (RuntimeState { fps: Some(final(p)@), ..old(self)@ })
                    &&& final(p).wf() && link_fits(old(self)@.state, final(p)@.link)
                        && final(p)@.package == p@.package ==> final(self).wf()
                },
                None => {
                    &&& old(self)@.fps is None
                    &&& final(self)@ == old(self)@
                    &&& final(self).wf()
                },
            },
    {
        match &mut self.fps_profiler {
            Some(p) => Some(p),
            None => None,
        }
    }

    /// The profiler of the battery temperature, where it is attached, for sampling. What is done
    /// to it must leave it fit for the state of the session.
    pub fn battery_temperature_profiler(&mut self) -> (r: Option<&mut BatteryTemperatureProfiler>)
        requires
            old(self).wf(),
        ensures
            match r {
                Some(p) => {
                    &&& p.wf()
                    &&& old(self)@.temperature == Some(p@)
                    &&& final(self)@ == (RuntimeState { temperature: Some(final(p)@), ..old(self)@ })
                    &&& final(p).wf() && link_fits(old(self)@.state, final(p)@.link)
                        ==> final(self).wf()
                },
                None => {
                    &&& old(self)@.temperature is None
                    &&& final(self)@ == old(self)@
                    &&& final(self).wf()
                },
            },
    {
        match &mut self.battery_temperature_profiler {
            Some(p) => Some(p),
            None => None,
        }
    }

    /// The profiler of voltage, current or power, where it is attached, for sampling. What is
    /// done to it must leave it fit for the state of the session.
    pub fn battery_power_profiler(&mut self, metric: PowerMetricKind) -> (r: Option<
        &mut BatteryPowerProfiler,
    >)
        requires
            old(self).wf(),
        ensures
            match r {
                Some(p) => {
                    &&& p.wf()
                    &&& p@.metric == metric
                    &&& old(self)@.battery(metric) == Some(p@)
                    &&& final(self)@ == old(self)@.with_battery(metric, Some(final(p)@))
                    &&& final(p).wf() && link_fits(old(self)@.state, final(p)@.link)
                        && final(p)@.metric == metric ==> final(self).wf()
                },
                None => {
                    &&& old(self)@.battery(metric) is None
                    &&& final(self)@ == old(self)@
                    &&& final(self).wf()
                },
            },
    {
        match metric {
            PowerMetricKind::Voltage => match &mut self.battery_voltage_profiler {
                Some(p) => Some(p),
                None => None,
            },
            PowerMetricKind::Current => match &mut self.battery_current_profiler {
                Some(p) => Some(p),
                None => None,
            },
            PowerMetricKind::Power => match &mut self.battery_power_profiler {
                Some(p) => Some(p),
                None => None,
            },
        }
    }
}

// ---------------------------------------------------------------------------
// Settings
// ---------------------------------------------------------------------------

/// A sampling rate, brought into the range from 1 to 10.
pub open spec fn allowed_hz(hz: u64) -> u64 {
    if hz < 1 {
        1
    } else if hz > 10 {
        10
    } else {
        hz
    }
}

fn clamp_hz(hz: u64) -> (r: u64)
    ensures
        r == allowed_hz(hz),
{
    if hz < 1 {
        1
    } else if hz > 10 {
        10
    } else {
        hz
    }
}

impl PerfDroidRuntime {
    /// Chooses the sampling rate.
    pub fn request_set_hz(&mut self, hz: u64) -> (r: AggregatorEvent)
        requires
            old(self).wf(),
        ensures
            final(self).wf(),
            final(self)@ == (RuntimeState { selected_hz: allowed_hz(hz), ..old(self)@ }),
            r@ == Event::SamplingRateChanged(allowed_hz(hz)),
    {
        self.selected_hz = clamp_hz(hz);
        AggregatorEvent::SamplingRateChanged(self.selected_hz)
    }

    /// The sampling rate.
    pub fn selected_hz(&self) -> (r: u64)
        ensures
            r == self@.selected_hz,
    {
        self.selected_hz
    }

    /// Chooses the package whose frame rate is read, also for a profiler that is attached.
    pub fn request_set_package_name(&mut self, package_name: String) -> (r: AggregatorEvent)
        requires
            old(self).wf(),
        ensures
            final(self).wf(),
            final(self)@ == (RuntimeState {
                package_name: package_name@,
                fps: match old(self)@.fps {
                    Some(p) => Some(FpsState { package: package_name@, ..p }),
                    None => None,
                },
                ..old(self)@
            }),
            r@ == Event::PackageNameChanged(package_name@),
    {
        if let Some(p) = &mut self.fps_profiler {
            p.set_package_name(package_name.clone());
        }
        self.package_name = package_name.clone();
        AggregatorEvent::PackageNameChanged(package_name)
    }

    /// The package whose frame rate is read.
    pub fn package_name(&self) -> (r: String)
        ensures
            r@ == self@.package_name,
    {
        self.package_name.clone()
    }

    /// The state of the session.
    pub fn state(&self) -> (r: SessionState)
        ensures
            r == self@.state,
    {
        self.state
    }

    /// The device that was described last.
    pub fn device(&self) -> (r: Option<DeviceDescriptor>)
        ensures
            viewed(r) == self@.device,
    {
        match &self.device {
            Some(device) => Some(device.clone()),
            None => None,
        }
    }

    /// The registered profilers.
    pub fn registered_profilers(&self) -> (r: &[ProfilerMetadata])
        ensures
            text::views(r@) == self@.registry,
    {
        self.registry.profilers()
    }

    /// Tells users something.
    pub fn request_status(&self, message: String) -> (r: AggregatorEvent)
        ensures
            r@ == Event::Status(message@),
    {
        AggregatorEvent::Status(message)
    }
}

// ---------------------------------------------------------------------------
// Device operations
// ---------------------------------------------------------------------------

/// The message for an operation while another is in progress.
pub open spec fn busy_text() -> &'static str {
    "A device operation is already in progress."
}

impl PerfDroidRuntime {
    /// Begins a device operation, unless another is in progress.
    pub fn begin_busy(&mut self, message: String) -> (r: Result<AggregatorEvent, String>)
        requires
            old(self).wf(),
        ensures
            final(self).wf(),
            match r {
                Ok(event) => {
                    &&& !old(self)@.busy
                    &&& event@ == Event::BusyStateChanged(true, message@)
                    &&& final(self)@ == (RuntimeState { busy: true, ..old(self)@ })
                },
                Err(e) => {
                    &&& old(self)@.busy
                    &&& e@ == busy_text()@
                    &&& final(self)@ == old(self)@
                },
            },
    {
        if self.busy {
            return Err(String::from_str("A device operation is already in progress."));
        }
        self.busy = true;
        Ok(AggregatorEvent::BusyStateChanged(true, message))
    }

    /// Ends a device operation.
    pub fn finish_busy(&mut self) -> (r: AggregatorEvent)
        requires
            old(self).wf(),
        ensures
            final(self).wf(),
            final(self)@ == (RuntimeState { busy: false, ..old(self)@ }),
            r@ == Event::BusyStateChanged(false, Seq::empty()),
    {
        self.busy = false;
        AggregatorEvent::BusyStateChanged(false, String::new())
    }

    /// Begins an operation, or says why it cannot begin.
    fn begin_operation(&mut self, message: String) -> (r: Result<AggregatorEvent, AggregatorEvent>)
        requires
            old(self).wf(),
        ensures
            final(self).wf(),
            begun(old(self)@, final(self)@, message@, r),
    {
        match self.begin_busy(message) {
            Ok(event) => Ok(event),
            Err(e) => Err(AggregatorEvent::Status(e)),
        }
    }

    /// Begins the listing of devices.
    pub fn request_refresh_devices(&mut self) -> (r: Result<AggregatorEvent, AggregatorEvent>)
        requires
            old(self).wf(),
        ensures
            final(self).wf(),
            begun(old(self)@, final(self)@, "Detecting USB-connected devices..."@, r),
    {
        self.begin_operation(String::from_str("Detecting USB-connected devices..."))
    }

    /// Ends the listing of devices with what it came to.
    pub fn finish_refresh_devices(&mut self, listed: Result<Vec<AdbDetectedDevice>, String>) -> (r:
        Vec<AggregatorEvent>)
        requires
            old(self).wf(),
        ensures
            final(self).wf(),
            final(self)@ == (RuntimeState { busy: false, ..old(self)@ }),
            text::views(r@) == refreshed(listed),
    {
        broadcast use text::lemma_views_push;

        let mut out: Vec<AggregatorEvent> = Vec::new();
        let ghost expected = refreshed(listed);
        match listed {
            Ok(devices) => {
                let count = write_u64(devices.len() as u64);
                let mut message = String::from_str("USB detection complete: ");
                message.append(count.as_str());
                message.append(" USB-connected device(s) found.");
                out.push(AggregatorEvent::DeviceDiscoveryUpdated(devices));
                out.push(AggregatorEvent::Status(message));
            },
            Err(e) => {
                out.push(AggregatorEvent::Status(e));
            },
        }
        out.push(self.finish_busy());
        assert(text::views(out@) =~= expected);
        out
    }

    /// Begins a connection by cable.
    pub fn request_connect_usb(&mut self, serial: &str) -> (r: Result<
        AggregatorEvent,
        AggregatorEvent,
    >)
        requires
            old(self).wf(),
        ensures
            final(self).wf(),
            begun(old(self)@, final(self)@, "Connecting to `"@ + serial@ + "` via USB..."@, r),
    {
        let mut message = String::from_str("Connecting to `");
        message.append(serial);
        message.append("` via USB...");
        self.begin_operation(message)
    }

    /// Ends a connection by cable with what connecting came to.
    pub fn finish_connect_usb(&mut self, serial: &str, connected: Result<(), CoreError>) -> (r: Vec<
        AggregatorEvent,
    >)
        requires
            old(self).wf(),
        ensures
            final(self).wf(),
            final(self)@ == (RuntimeState { busy: false, ..old(self)@ }),
            text::views(r@) == seq![
                Event::Status(
                    match connected {
                        Ok(_) => "Connected to `"@ + serial@ + "` through USB."@,
                        Err(e) => errors::error_text(e),
                    },
                ),
                idle_event(),
            ],
    {
        broadcast use text::lemma_views_push;

        let message = match connected {
            Ok(_) => {
                let mut message = String::from_str("Connected to `");
                message.append(serial);
                message.append("` through USB.");
                message
            },
            Err(e) => e.message(),
        };
        let mut out: Vec<AggregatorEvent> = Vec::new();
        out.push(AggregatorEvent::Status(message));
        out.push(self.finish_busy());
        assert(text::views(out@) =~= seq![Event::Status(message@), idle_event()]);
        out
    }

    /// Begins a connection without cable.
    pub fn request_connect_wireless(&mut self, serial: &str) -> (r: Result<
        AggregatorEvent,
        AggregatorEvent,
    >)
        requires
            old(self).wf(),
        ensures
            final(self).wf(),
            begun(old(self)@, final(self)@, "Connecting to `"@ + serial@ + "` via WiFi..."@, r),
    {
        let mut message = String::from_str("Connecting to `");
        message.append(serial);
        message.append("` via WiFi...");
        self.begin_operation(message)
    }

    /// Ends a connection without cable, with what reaching the device came to and, where it was
    /// reached, what connecting came to.
    pub fn finish_connect_wireless(
        &mut self,
        reached: Result<(String, String, Result<(), CoreError>), String>,
    ) -> (r: Vec<AggregatorEvent>)
        requires
            old(self).wf(),
        ensures
            final(self).wf(),
            final(self)@ == (RuntimeState { busy: false, ..old(self)@ }),
            text::views(r@) == seq![Event::Status(wireless_text(reached)), idle_event()],
    {
        broadcast use text::lemma_views_push;

        let message = match reached {
            Ok((serial, detail, connected)) => {
                let mut message = detail;
                match connected {
                    Ok(_) => {
                        message.append(" Connected through WiFi as `");
                        message.append(serial.as_str());
                        message.append("`.");
                    },
                    Err(e) => {
                        message.append(" Failed to finish wireless session setup for `");
                        message.append(serial.as_str());
                        message.append("`: ");
                        let text = e.message();
                        message.append(text.as_str());
                    },
                }
                message
            },
            Err(e) => e,
        };
        let mut out: Vec<AggregatorEvent> = Vec::new();
        out.push(AggregatorEvent::Status(message));
        out.push(self.finish_busy());
        assert(text::views(out@) =~= seq![Event::Status(message@), idle_event()]);
        out
    }
}

/// Whether an operation has begun with this message, or was refused since another is in progress.
pub open spec fn begun(
    before: RuntimeState,
    after: RuntimeState,
    message: Seq<char>,
    r: Result<AggregatorEvent, AggregatorEvent>,
) -> bool {
    if before.busy {
        &&& after == before
        &&& r matches Err(event) && event@ == Event::Status(busy_text()@)
    } else {
        &&& after == (RuntimeState { busy: true, ..before })
        &&& r matches Ok(event) && event@ == Event::BusyStateChanged(true, message)
    }
}

/// The event that ends an operation.
pub open spec fn idle_event() -> Event {
    Event::BusyStateChanged(false, Seq::empty())
}

/// The message for a listing of devices.
pub open spec fn detected_text(count: nat) -> Seq<char> {
    "USB detection complete: "@ + number::decimal(count) + " USB-connected device(s) found."@
}

/// The events that end a listing of devices.
pub open spec fn refreshed(listed: Result<Vec<AdbDetectedDevice>, String>) -> Seq<Event> {
    match listed {
        Ok(devices) => seq![
            Event::DeviceDiscoveryUpdated(text::views(devices@)),
            Event::Status(detected_text(devices@.len())),
            idle_event(),
        ],
        Err(e) => seq![Event::Status(e@), idle_event()],
    }
}

/// The message for a connection without cable.
pub open spec fn wireless_text(
    reached: Result<(String, String, Result<(), CoreError>), String>,
) -> Seq<char> {
    match reached {
        Ok((serial, detail, connected)) => match connected {
            Ok(_) => detail@ + " Connected through WiFi as `"@ + serial@ + "`."@,
            Err(e) => detail@ + " Failed to finish wireless session setup for `"@ + serial@
                + "`: "@ + errors::error_text(e),
        },
        Err(e) => e@,
    }
}

/// A sampling rate within its range stays, and others stop at its ends.
pub proof fn law_sampling_rates(hz: u64)
    ensures
        1 <= hz <= 10 ==> allowed_hz(hz) == hz,
        hz == 0 ==> allowed_hz(hz) == 1,
        hz > 10 ==> allowed_hz(hz) == 10,
{
}

} // verus!
