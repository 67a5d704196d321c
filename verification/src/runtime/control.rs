//! Starting, pausing, resuming and stopping a session.

use vstd::prelude::*;

use crate::aggregation;
use crate::aggregation::{
    stamp, AggregatorEvent, BatteryDataPlane, CpuClockDataPlane, CpuUsageDataPlane, Event,
    FpsDataPlane,
};
use crate::constants::METRIC_VALUES_CAPACITY;
use crate::errors;
use crate::errors::CoreError;
use crate::profiler::cpu_clock::ClockState;
use crate::profiler::cpu_usage;
use crate::profiler::cpu_usage::UsageState;
use crate::profiler::fps::FpsState;
use crate::profiler::power::PowerState;
use crate::profiler::sampler::{Link, SamplerState};
use crate::profiler::temperature::TemperatureState;
use crate::runtime;
use crate::runtime::{clamp_hz, PerfDroidRuntime, RuntimeState};
use crate::session::SessionState;
use crate::storage;
use crate::storage::{all_channels, Channel};
use crate::text;
use crate::types;
use crate::types::ControlCommand;

verus! {

/// Whether an error refuses a command in a state.
pub open spec fn refuses(e: CoreError, state: SessionState, command: ControlCommand) -> bool {
    e matches CoreError::InvalidStateTransition { state: s, operation } && s@ == state.name()@
        && operation@ == command.name()@
}

/// Demands that a session in a state accepts a command.
pub fn ensure_transition(state: SessionState, command: ControlCommand) -> (r: Result<
    (),
    CoreError,
>)
    ensures
        r is Ok <==> state.accepts(command),
        r matches Err(e) ==> refuses(e, state, command),
{
    if state.allows(command) {
        Ok(())
    } else {
        Err(
            CoreError::InvalidStateTransition {
                state: String::from_str(state.as_str()),
                operation: String::from_str(command.as_str()),
            },
        )
    }
}

/// The message of an error, as an event.
pub fn report(error: &CoreError) -> (r: AggregatorEvent)
    ensures
        r@ == Event::Status(errors::error_text(*error)),
{
    AggregatorEvent::Status(error.message())
}

// ---------------------------------------------------------------------------
// All profilers at once
// ---------------------------------------------------------------------------

impl RuntimeState {
    /// The session with all samplers in this state.
    pub open spec fn with_samplers(self, to: SamplerState) -> RuntimeState {
        RuntimeState {
            clock: match self.clock {
                Some(p) => Some(ClockState { link: Link { sampler: to, ..p.link }, ..p }),
                None => None,
            },
            usage: match self.usage {
                Some(p) => Some(UsageState { link: Link { sampler: to, ..p.link }, ..p }),
                None => None,
            },
            fps: match self.fps {
                Some(p) => Some(FpsState { link: Link { sampler: to, ..p.link }, ..p }),
                None => None,
            },
            temperature: match self.temperature {
                Some(p) => Some(TemperatureState { link: Link { sampler: to, ..p.link }, ..p }),
                None => None,
            },
            voltage: match self.voltage {
                Some(p) => Some(PowerState { link: Link { sampler: to, ..p.link }, ..p }),
                None => None,
            },
            current: match self.current {
                Some(p) => Some(PowerState { link: Link { sampler: to, ..p.link }, ..p }),
                None => None,
            },
            power: match self.power {
                Some(p) => Some(PowerState { link: Link { sampler: to, ..p.link }, ..p }),
                None => None,
            },
            ..self
        }
    }

    /// The session without profilers.
    pub open spec fn without_profilers(self) -> RuntimeState {
        RuntimeState {
            clock: None,
            usage: None,
            fps: None,
            temperature: None,
            voltage: None,
            current: None,
            power: None,
            ..self
        }
    }
}

// ---------------------------------------------------------------------------
// Start
// ---------------------------------------------------------------------------

impl RuntimeState {
    /// Whether the profiler of a channel is attached and does not sample.
    pub open spec fn waits(self, channel: Channel) -> bool {
        self.link(channel) matches Some(link) && !(link.sampler is Sampling)
    }
}

/// The first of some channels whose profiler waits to be started.
pub open spec fn first_waiting(s: RuntimeState, among: Seq<Channel>) -> Option<Channel> {
    text::first_some(
        among,
        |c: Channel|
            if s.waits(c) {
                Some(c)
            } else {
                None
            },
    )
}

impl PerfDroidRuntime {
    /// Begins a start at a sampling rate.
    pub fn begin_start(&mut self, hz: u64) -> (r: Result<(), CoreError>)
        requires
            old(self).wf(),
        ensures
            final(self).wf(),
            match r {
                Ok(_) => {
                    &&& old(self)@.state.accepts(ControlCommand::Start)
                    &&& final(self)@ == (RuntimeState {
                        selected_hz: runtime::allowed_hz(hz),
                        ..old(self)@
                    })
                },
                Err(e) => {
                    &&& !old(self)@.state.accepts(ControlCommand::Start)
                    &&& refuses(e, old(self)@.state, ControlCommand::Start)
                    &&& final(self)@ == old(self)@
                },
            },
    {
        match ensure_transition(self.state, ControlCommand::Start) {
            Err(e) => Err(e),
            Ok(_) => {
                self.selected_hz = clamp_hz(hz);
                Ok(())
            },
        }
    }

    /// The link of the profiler of a channel, where it is attached.
    pub fn link_of(&self, channel: Channel) -> (r: Option<Link>)
        ensures
            r == self@.link(channel),
    {
        match channel {
            Channel::CpuClock => match &self.cpu_clock_profiler {
                Some(p) => Some(p.link()),
                None => None,
            },
            Channel::CpuUsage => match &self.cpu_usage_profiler {
                Some(p) => Some(p.link()),
                None => None,
            },
            Channel::Fps => match &self.fps_profiler {
                Some(p) => Some(p.link()),
                None => None,
            },
            Channel::BatteryTemperature => match &self.battery_temperature_profiler {
                Some(p) => Some(p.link()),
                None => None,
            },
            Channel::BatteryVoltage => match &self.battery_voltage_profiler {
                Some(p) => Some(p.link()),
                None => None,
            },
            Channel::BatteryCurrent => match &self.battery_current_profiler {
                Some(p) => Some(p.link()),
                None => None,
            },
            Channel::BatteryPower => match &self.battery_power_profiler {
                Some(p) => Some(p.link()),
                None => None,
            },
        }
    }

    /// The next profiler that has to be started.
    pub fn next_to_start(&self) -> (r: Option<Channel>)
        ensures
            r == first_waiting(self@, storage::channels()),
    {
        let all: Vec<Channel> = all_channels();
        let ghost f = |c: Channel|
            if self@.waits(c) {
                Some(c)
            } else {
                None
            };
        let mut i: usize = 0;
        proof {
            text::lemma_first_some_at(all@, f, 0);
        }
        while i < all.len()
            invariant
                i <= all@.len(),
                all@ == storage::channels(),
                f == (|c: Channel|
                    if self@.waits(c) {
                        Some(c)
                    } else {
                        None
                    }),
                text::first_some(all@, f) == text::first_some(all@.skip(i as int), f),
            decreases all@.len() - i,
        {
            proof {
                text::lemma_first_some_at(all@, f, i as int);
            }
            let channel = all[i];
            if let Some(link) = self.link_of(channel) {
                if !matches!(link.sampler, SamplerState::Sampling) {
                    return Some(channel);
                }
            }
            i = i + 1;
        }
        proof {
            text::lemma_first_some_at(all@, f, i as int);
        }
        None
    }

    /// Ends a start: all profilers sample, and the worker begins.
    pub fn finish_start(&mut self) -> (r: Vec<AggregatorEvent>)
        requires
            old(self).wf(),
            old(self)@.state.accepts(ControlCommand::Start),
            first_waiting(old(self)@, storage::channels()) is None,
        ensures
            final(self).wf(),
            final(self)@ == (RuntimeState {
                state: SessionState::Running,
                worker: SamplerState::Sampling,
                ..old(self)@
            }),
            text::views(r@) == seq![
                Event::SamplingRateChanged(old(self)@.selected_hz),
                Event::StateChanged(SessionState::Running),
            ],
    {
        broadcast use text::lemma_views_push;

        proof {
            lemma_none_waiting(self@);
        }
        self.worker = SamplerState::Sampling;
        self.state = SessionState::Running;
        let mut out: Vec<AggregatorEvent> = Vec::new();
        out.push(AggregatorEvent::SamplingRateChanged(self.selected_hz));
        out.push(AggregatorEvent::StateChanged(SessionState::Running));
        assert(text::views(out@) =~= seq![
            Event::SamplingRateChanged(old(self)@.selected_hz),
            Event::StateChanged(SessionState::Running),
        ]);
        out
    }
}

/// Where no profiler waits to be started, all that are attached sample, so that the session can
/// run.
proof fn lemma_none_waiting(s: RuntimeState)
    requires
        s.wf(),
        s.state.accepts(ControlCommand::Start),
        first_waiting(s, storage::channels()) is None,
    ensures
        (RuntimeState { state: SessionState::Running, worker: SamplerState::Sampling, ..s }).wf(),
{
    let f = |c: Channel|
        if s.waits(c) {
            Some(c)
        } else {
            None
        };
    assert forall|c: Channel| !#[trigger] s.waits(c) by {
        lemma_first_some_none(storage::channels(), f, place(c));
        assert(storage::channels()[place(c)] == c);
    }
    assert(!s.waits(Channel::CpuClock));
    assert(!s.waits(Channel::CpuUsage));
    assert(!s.waits(Channel::Fps));
    assert(!s.waits(Channel::BatteryTemperature));
    assert(!s.waits(Channel::BatteryVoltage));
    assert(!s.waits(Channel::BatteryCurrent));
    assert(!s.waits(Channel::BatteryPower));
}

/// The place of a channel in the order of starts.
pub open spec fn place(channel: Channel) -> int {
    match channel {
        Channel::CpuClock => 0,
        Channel::CpuUsage => 1,
        Channel::Fps => 2,
        Channel::BatteryTemperature => 3,
        Channel::BatteryVoltage => 4,
        Channel::BatteryCurrent => 5,
        Channel::BatteryPower => 6,
    }
}

/// A start goes through the attached profilers in order and ends: once the profiler that was next
/// samples, the next one comes later in the order.
pub proof fn law_start_goes_on(before: RuntimeState, after: RuntimeState, channel: Channel)
    requires
        first_waiting(before, storage::channels()) == Some(channel),
        !after.waits(channel),
        forall|c: Channel| c != channel ==> #[trigger] after.link(c) == before.link(c),
    ensures
        first_waiting(after, storage::channels()) matches Some(next) ==> place(channel) < place(next),
{
    let f = |c: Channel|
        if before.waits(c) {
            Some(c)
        } else {
            None
        };
    let g = |c: Channel|
        if after.waits(c) {
            Some(c)
        } else {
            None
        };
    if let Some(next) = first_waiting(after, storage::channels()) {
        lemma_first_some_is(storage::channels(), f, channel);
        lemma_first_some_is(storage::channels(), g, next);
        let i = choose|i: int| 0 <= i < storage::channels().len() && f(#[trigger] storage::channels()[i]) == Some(
            channel,
        ) && (forall|j: int| 0 <= j < i ==> f(#[trigger] storage::channels()[j]) is None);
        let k = choose|i: int| 0 <= i < storage::channels().len() && g(#[trigger] storage::channels()[i]) == Some(
            next,
        ) && (forall|j: int| 0 <= j < i ==> g(#[trigger] storage::channels()[j]) is None);
        assert(after.waits(next));
        assert(next != channel);
        assert(after.link(next) == before.link(next));
        assert(storage::channels()[i] == channel);
        assert(storage::channels()[k] == next);
        if k < i {
            assert(f(storage::channels()[k]) is None);
        }
        assert(place(storage::channels()[i]) == i);
        assert(place(storage::channels()[k]) == k);
    }
}

proof fn lemma_first_some_is<A, B>(s: Seq<A>, f: spec_fn(A) -> Option<B>, b: B)
    requires
        text::first_some(s, f) == Some(b),
    ensures
        exists|i: int|
            0 <= i < s.len() && f(#[trigger] s[i]) == Some(b) && (forall|j: int|
                0 <= j < i ==> f(#[trigger] s[j]) is None),
    decreases s.len(),
{
    if f(s[0]) is None {
        let rest = s.skip(1);
        lemma_first_some_is(rest, f, b);
        let i = choose|i: int|
            0 <= i < rest.len() && f(#[trigger] rest[i]) == Some(b) && (forall|j: int|
                0 <= j < i ==> f(#[trigger] rest[j]) is None);
        assert(rest[i] == s[i + 1]);
        assert forall|j: int| 0 <= j < i + 1 implies f(#[trigger] s[j]) is None by {
            if j > 0 {
                assert(rest[j - 1] == s[j]);
            }
        }
    }
}

proof fn lemma_first_some_none<A, B>(s: Seq<A>, f: spec_fn(A) -> Option<B>, i: int)
    requires
        text::first_some(s, f) is None,
        0 <= i < s.len(),
    ensures
        f(s[i]) is None,
    decreases s.len(),
{
    if i > 0 {
        lemma_first_some_none(s.skip(1), f, i - 1);
        assert(s.skip(1)[i - 1] == s[i]);
    }
}

// ---------------------------------------------------------------------------
// Pause, restart, stop
// ---------------------------------------------------------------------------

/// What a command comes to that needs nothing from the device: where the state accepts it, the
/// session changes and its state is told; otherwise nothing changes.
pub open spec fn commanded(
    before: RuntimeState,
    after: RuntimeState,
    command: ControlCommand,
    changed: RuntimeState,
    r: Result<AggregatorEvent, CoreError>,
) -> bool {
    if before.state.accepts(command) {
        &&& after == changed
        &&& r matches Ok(event) && event@ == Event::StateChanged(SessionState::after(command))
    } else {
        &&& after == before
        &&& r matches Err(e) && refuses(e, before.state, command)
    }
}

/// The event that answers a command.
pub open spec fn answers(
    before: RuntimeState,
    command: ControlCommand,
    event: Event,
) -> bool {
    if before.state.accepts(command) {
        event == Event::StateChanged(SessionState::after(command))
    } else {
        event == Event::Status("cannot "@ + command.name()@ + " while "@ + before.state.name()@)
    }
}

impl RuntimeState {
    /// The session after a pause.
    pub open spec fn paused(self) -> RuntimeState {
        RuntimeState {
            state: SessionState::Paused,
            worker: SamplerState::Paused,
            ..self.with_samplers(SamplerState::Paused)
        }
    }

    /// The session after a restart.
    pub open spec fn restarted(self) -> RuntimeState {
        RuntimeState {
            state: SessionState::Running,
            worker: SamplerState::Sampling,
            ..self.with_samplers(SamplerState::Sampling)
        }
    }

    /// The session after it has been stopped.
    pub open spec fn stopped(self) -> RuntimeState {
        RuntimeState {
            state: SessionState::Stopped,
            worker: SamplerState::Absent,
            ..self.without_profilers()
        }
    }
}

impl PerfDroidRuntime {
    fn pause_profilers(&mut self) -> (r: Result<(), CoreError>)
        requires
            old(self).wf(),
            old(self)@.state is Running,
        ensures
            r is Ok,
            final(self).profilers_wf(),
            final(self)@ == old(self)@.with_samplers(SamplerState::Paused),
    {
        if let Some(p) = &mut self.cpu_clock_profiler {
            p.pause()?;
        }
        if let Some(p) = &mut self.cpu_usage_profiler {
            p.pause()?;
        }
        if let Some(p) = &mut self.fps_profiler {
            p.pause()?;
        }
        if let Some(p) = &mut self.battery_temperature_profiler {
            p.pause()?;
        }
        if let Some(p) = &mut self.battery_voltage_profiler {
            p.pause()?;
        }
        if let Some(p) = &mut self.battery_current_profiler {
            p.pause()?;
        }
        if let Some(p) = &mut self.battery_power_profiler {
            p.pause()?;
        }
        Ok(())
    }

    fn restart_profilers(&mut self) -> (r: Result<(), CoreError>)
        requires
            old(self).wf(),
            old(self)@.state is Paused,
        ensures
            r is Ok,
            final(self).profilers_wf(),
            final(self)@ == old(self)@.with_samplers(SamplerState::Sampling),
    {
        if let Some(p) = &mut self.cpu_clock_profiler {
            p.restart()?;
        }
        if let Some(p) = &mut self.cpu_usage_profiler {
            p.restart()?;
        }
        if let Some(p) = &mut self.fps_profiler {
            p.restart()?;
        }
        if let Some(p) = &mut self.battery_temperature_profiler {
            p.restart()?;
        }
        if let Some(p) = &mut self.battery_voltage_profiler {
            p.restart()?;
        }
        if let Some(p) = &mut self.battery_current_profiler {
            p.restart()?;
        }
        if let Some(p) = &mut self.battery_power_profiler {
            p.restart()?;
        }
        Ok(())
    }

    fn stop_profilers(&mut self) -> (r: Result<(), CoreError>)
        requires
            old(self).profilers_wf(),
        ensures
            r is Ok,
            final(self)@.without_profilers() == old(self)@.without_profilers(),
    {
        if let Some(p) = &mut self.cpu_clock_profiler {
            p.stop()?;
        }
        if let Some(p) = &mut self.cpu_usage_profiler {
            p.stop()?;
        }
        if let Some(p) = &mut self.fps_profiler {
            p.stop()?;
        }
        if let Some(p) = &mut self.battery_temperature_profiler {
            p.stop()?;
        }
        if let Some(p) = &mut self.battery_voltage_profiler {
            p.stop()?;
        }
        if let Some(p) = &mut self.battery_current_profiler {
            p.stop()?;
        }
        if let Some(p) = &mut self.battery_power_profiler {
            p.stop()?;
        }
        Ok(())
    }

    /// Pauses all profilers and the worker.
    pub fn pause(&mut self) -> (r: Result<AggregatorEvent, CoreError>)
        requires
            old(self).wf(),
        ensures
            final(self).wf(),
            commanded(old(self)@, final(self)@, ControlCommand::Pause, old(self)@.paused(), r),
    {
        match ensure_transition(self.state, ControlCommand::Pause) {
            Err(e) => Err(e),
            Ok(_) => match self.pause_profilers() {
                Err(e) => Err(e),
                Ok(_) => {
                    self.worker = SamplerState::Paused;
                    self.state = SessionState::Paused;
                    Ok(AggregatorEvent::StateChanged(SessionState::Paused))
                },
            },
        }
    }

    /// Resumes all profilers and the worker.
    pub fn restart(&mut self) -> (r: Result<AggregatorEvent, CoreError>)
        requires
            old(self).wf(),
        ensures
            final(self).wf(),
            commanded(
                old(self)@,
                final(self)@,
                ControlCommand::Restart,
                old(self)@.restarted(),
                r,
            ),
    {
        match ensure_transition(self.state, ControlCommand::Restart) {
            Err(e) => Err(e),
            Ok(_) => match self.restart_profilers() {
                Err(e) => Err(e),
                Ok(_) => {
                    self.worker = SamplerState::Sampling;
                    self.state = SessionState::Running;
                    Ok(AggregatorEvent::StateChanged(SessionState::Running))
                },
            },
        }
    }

    /// Ends the worker and all profilers, and lets go of the profilers.
    pub fn stop(&mut self) -> (r: Result<AggregatorEvent, CoreError>)
        requires
            old(self).wf(),
        ensures
            final(self).wf(),
            commanded(old(self)@, final(self)@, ControlCommand::Stop, old(self)@.stopped(), r),
    {
        match ensure_transition(self.state, ControlCommand::Stop) {
            Err(e) => Err(e),
            Ok(_) => {
                self.worker = SamplerState::Absent;
                match self.stop_profilers() {
                    Err(e) => Err(e),
                    Ok(_) => {
                        self.cpu_clock_profiler = None;
                        self.cpu_usage_profiler = None;
                        self.fps_profiler = None;
                        self.battery_temperature_profiler = None;
                        self.battery_voltage_profiler = None;
                        self.battery_current_profiler = None;
                        self.battery_power_profiler = None;
                        self.state = SessionState::Stopped;
                        Ok(AggregatorEvent::StateChanged(SessionState::Stopped))
                    },
                }
            },
        }
    }

    /// Pauses the session, or says why that is not possible.
    pub fn request_pause(&mut self) -> (r: AggregatorEvent)
        requires
            old(self).wf(),
        ensures
            final(self).wf(),
            answers(old(self)@, ControlCommand::Pause, r@),
            final(self)@ == if old(self)@.state.accepts(ControlCommand::Pause) {
                old(self)@.paused()
            } else {
                old(self)@
            },
    {
        match self.pause() {
            Ok(event) => event,
            Err(e) => report(&e),
        }
    }

    /// Resumes the session, or says why that is not possible.
    pub fn request_restart(&mut self) -> (r: AggregatorEvent)
        requires
            old(self).wf(),
        ensures
            final(self).wf(),
            answers(old(self)@, ControlCommand::Restart, r@),
            final(self)@ == if old(self)@.state.accepts(ControlCommand::Restart) {
                old(self)@.restarted()
            } else {
                old(self)@
            },
    {
        match self.restart() {
            Ok(event) => event,
            Err(e) => report(&e),
        }
    }

    /// Stops the session, or says why that is not possible.
    pub fn request_stop(&mut self) -> (r: AggregatorEvent)
        requires
            old(self).wf(),
        ensures
            final(self).wf(),
            answers(old(self)@, ControlCommand::Stop, r@),
            final(self)@ == if old(self)@.state.accepts(ControlCommand::Stop) {
                old(self)@.stopped()
            } else {
                old(self)@
            },
    {
        match self.stop() {
            Ok(event) => event,
            Err(e) => report(&e),
        }
    }

    /// Begins a start, or says why that is not possible.
    pub fn request_start(&mut self, hz: u64) -> (r: Result<(), AggregatorEvent>)
        requires
            old(self).wf(),
        ensures
            final(self).wf(),
            if old(self)@.state.accepts(ControlCommand::Start) {
                &&& r is Ok
                &&& final(self)@ == (RuntimeState {
                    selected_hz: runtime::allowed_hz(hz),
                    ..old(self)@
                })
            } else {
                &&& r matches Err(event) && answers(old(self)@, ControlCommand::Start, event@)
                &&& final(self)@ == old(self)@
            },
    {
        match self.begin_start(hz) {
            Ok(_) => Ok(()),
            Err(e) => Err(report(&e)),
        }
    }
}

/// A pause can be undone: a session that is paused and resumed is as before.
pub proof fn law_restart_undoes_pause(s: RuntimeState)
    requires
        s.wf(),
        s.state.accepts(ControlCommand::Pause),
    ensures
        s.paused().wf(),
        s.paused().state.accepts(ControlCommand::Restart),
        s.paused().restarted() == s,
{
}

/// After a stop the session can be connected again, and nothing of the old device is left but
/// its description and what was registered.
pub proof fn law_stop_makes_way(s: RuntimeState)
    requires
        s.wf(),
        s.state.accepts(ControlCommand::Stop),
    ensures
        s.stopped().wf(),
        s.stopped().state.accepts(ControlCommand::Connect),
        forall|c: Channel| (#[trigger] s.stopped().link(c)) is None,
        s.stopped().selected_hz == s.selected_hz,
        s.stopped().package_name == s.package_name,
{
}

// ---------------------------------------------------------------------------
// Collecting
// ---------------------------------------------------------------------------

impl RuntimeState {
    /// The key, unit and values that the profiler of a channel contributes, where it is attached.
    pub open spec fn reading(self, channel: Channel) -> Option<
        (Seq<char>, Seq<char>, Seq<i64>),
    > {
        match channel {
            Channel::CpuClock => match self.clock {
                Some(p) => Some(
                    ("CPU_CLOCK"@, "MHz"@, aggregation::clock_values(p.readings)),
                ),
                None => None,
            },
            Channel::CpuUsage => match self.usage {
                Some(p) => Some(("CPU_USAGE"@, "%"@, cpu_usage::values_of(p.readings))),
                None => None,
            },
            Channel::Fps => match self.fps {
                Some(p) => Some(("FPS"@, "FPS"@, seq![p.value])),
                None => None,
            },
            Channel::BatteryTemperature => match self.temperature {
                Some(p) => Some(("BATTERY_TEMP"@, "0.1C"@, seq![p.value])),
                None => None,
            },
            Channel::BatteryVoltage => match self.voltage {
                Some(p) => Some(("VOLTAGE"@, "mV"@, seq![p.value])),
                None => None,
            },
            Channel::BatteryCurrent => match self.current {
                Some(p) => Some(("CURRENT"@, "mA"@, seq![p.value])),
                None => None,
            },
            Channel::BatteryPower => match self.power {
                Some(p) => Some(("POWER"@, "mW"@, seq![p.value])),
                None => None,
            },
        }
    }
}

/// The event for a reading at the given time: there is none without a reading, nor for more
/// values than a batch holds.
pub open spec fn reading_event(
    reading: Option<(Seq<char>, Seq<char>, Seq<i64>)>,
    timestamp_ms: u64,
) -> Option<Event> {
    match reading {
        Some((key, unit, values)) => if values.len() <= METRIC_VALUES_CAPACITY {
            Some(Event::MetricBatch((timestamp_ms, (key, unit, types::padded(values)))))
        } else {
            None
        },
        None => None,
    }
}

impl PerfDroidRuntime {
    /// The latest values of the profiler of a channel, as an event at the given time.
    pub fn collect(&self, channel: Channel, timestamp_ms: u64) -> (r: Option<AggregatorEvent>)
        requires
            self.wf(),
        ensures
            runtime::viewed(r) == reading_event(self@.reading(channel), timestamp_ms),
    {
        match channel {
            Channel::CpuClock => match &self.cpu_clock_profiler {
                Some(p) => stamp(CpuClockDataPlane::build_metric_batch(p), timestamp_ms),
                None => None,
            },
            Channel::CpuUsage => match &self.cpu_usage_profiler {
                Some(p) => stamp(CpuUsageDataPlane::build_metric_batch(p), timestamp_ms),
                None => None,
            },
            Channel::Fps => match &self.fps_profiler {
                Some(p) => stamp(FpsDataPlane::build_metric_batch(p), timestamp_ms),
                None => None,
            },
            Channel::BatteryTemperature => match &self.battery_temperature_profiler {
                Some(p) => stamp(BatteryDataPlane::build_temperature_batch(p), timestamp_ms),
                None => None,
            },
            Channel::BatteryVoltage => match &self.battery_voltage_profiler {
                Some(p) => stamp(BatteryDataPlane::build_power_batch(p), timestamp_ms),
                None => None,
            },
            Channel::BatteryCurrent => match &self.battery_current_profiler {
                Some(p) => stamp(BatteryDataPlane::build_power_batch(p), timestamp_ms),
                None => None,
            },
            Channel::BatteryPower => match &self.battery_power_profiler {
                Some(p) => stamp(BatteryDataPlane::build_power_batch(p), timestamp_ms),
                None => None,
            },
        }
    }
}

/// What is collected of a channel is stored in that channel.
pub proof fn law_readings_reach_their_channel(s: RuntimeState, channel: Channel)
    requires
        s.reading(channel) is Some,
    ensures
        crate::storage::channel_of(s.reading(channel)->Some_0.0) == Some(channel),
{
    reveal_strlit("CPU_CLOCK");
    reveal_strlit("CPU_USAGE");
    reveal_strlit("FPS");
    reveal_strlit("BATTERY_TEMP");
    reveal_strlit("VOLTAGE");
    reveal_strlit("CURRENT");
    reveal_strlit("POWER");
    assert("CPU_CLOCK"@.len() == 9);
    assert("CPU_USAGE"@.len() == 9);
    assert("CPU_CLOCK"@[4] == 'C');
    assert("CPU_USAGE"@[4] == 'U');
    assert("FPS"@.len() == 3);
    assert("BATTERY_TEMP"@.len() == 12);
    assert("VOLTAGE"@.len() == 7);
    assert("VOLTAGE"@[0] == 'V');
    assert("CURRENT"@.len() == 7);
    assert("CURRENT"@[0] == 'C');
    assert("POWER"@.len() == 5);
}

/// A pause pauses the worker and the sampler of every attached profiler, a restart makes all of
/// them sample, and a stop lets go of all profilers. What is read of the channels, the device, the
/// package and the sampling rate stay through a pause and a restart.
pub proof fn law_commands_reach_every_profiler(s: RuntimeState, channel: Channel)
    ensures
        s.paused().state == SessionState::Paused,
        s.paused().worker == SamplerState::Paused,
        s.link(channel) is Some <==> s.paused().link(channel) is Some,
        s.link(channel) matches Some(link) ==> s.paused().link(channel)->Some_0.sampler
            == SamplerState::Paused && s.paused().link(channel)->Some_0.connected == link.connected,
        s.paused().reading(channel) == s.reading(channel),
        s.restarted().state == SessionState::Running,
        s.restarted().worker == SamplerState::Sampling,
        s.link(channel) is Some <==> s.restarted().link(channel) is Some,
        s.link(channel) matches Some(link) ==> s.restarted().link(channel)->Some_0.sampler
            == SamplerState::Sampling && s.restarted().link(channel)->Some_0.connected
            == link.connected,
        s.restarted().reading(channel) == s.reading(channel),
        s.stopped().state == SessionState::Stopped,
        s.stopped().worker == SamplerState::Absent,
        s.stopped().link(channel) is None,
        s.stopped().reading(channel) is None,
        s.paused().selected_hz == s.selected_hz && s.restarted().selected_hz == s.selected_hz
            && s.stopped().selected_hz == s.selected_hz,
        s.paused().package_name == s.package_name && s.restarted().package_name == s.package_name
            && s.stopped().package_name == s.package_name,
        s.paused().device == s.device && s.restarted().device == s.device,
{
}

/// What is collected of a battery channel is the latest value of the profiler of that metric, under
/// the metric's key and in its unit; of the other channels it is what their profilers hold.
pub proof fn law_readings_come_from_their_profilers(s: RuntimeState, channel: Channel, p: PowerState)
    requires
        s.wf(),
        s.voltage == Some(p) || s.current == Some(p) || s.power == Some(p),
        channel is BatteryVoltage || channel is BatteryCurrent || channel is BatteryPower,
        p.metric.key()@ == channel.title()@,
    ensures
        s.reading(channel) == Some((p.metric.key()@, p.metric.unit_name()@, seq![p.value])),
        s.fps matches Some(f) ==> s.reading(Channel::Fps) == Some(
            ("FPS"@, "FPS"@, seq![f.value]),
        ),
        s.temperature matches Some(t) ==> s.reading(Channel::BatteryTemperature) == Some(
            ("BATTERY_TEMP"@, "0.1C"@, seq![t.value]),
        ),
{
    reveal_strlit("VOLTAGE");
    reveal_strlit("CURRENT");
    reveal_strlit("POWER");
    assert("VOLTAGE"@[0] == 'V');
    assert("CURRENT"@[0] == 'C');
    assert("POWER"@[0] == 'P');
}

/// A reading of at most ten values becomes one event, with its key, its unit, its time and its
/// values each at their place.
pub proof fn law_readings_become_events(
    key: Seq<char>,
    unit: Seq<char>,
    values: Seq<i64>,
    timestamp_ms: u64,
    i: int,
)
    requires
        values.len() <= 10,
        0 <= i < 10,
    ensures
        reading_event(Some((key, unit, values)), timestamp_ms) matches Some(
            Event::MetricBatch((time, (k, u, shown))),
        ) && time == timestamp_ms && k == key && u == unit && shown.len() == 10 && shown[i] == if i
            < values.len() {
            values[i]
        } else {
            -1i64
        },
        reading_event(None, timestamp_ms) is None,
{
}

} // verus!
