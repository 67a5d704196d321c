//! The profiler of the battery temperature.

use vstd::prelude::*;

use crate::constants::INVALID_METRIC_VALUE;
use crate::errors;
use crate::errors::CoreError;
use crate::number;
use crate::number::read_i64;
use crate::profiler::power_supply;
use crate::profiler::sampler;
use crate::profiler::sampler::{Link, SamplerState};
use crate::text;
use crate::text::{after_prefix, chars_of, split_lines, split_words, trimmed, CharClass};
use crate::types::{CollectorMetadata, ProfilerMetadata};

verus! {

/// The key of the profiler.
pub const PROFILER_KEY: &'static str = "BATTERY_TEMP";

/// The key of its collector.
pub const COLLECTOR_KEY: &'static str = "battery";

/// The unit of its value: tenths of a degree Celsius.
pub const UNIT_DECI_C: &'static str = "0.1C";

/// The command that prints the state of the battery.
pub const BATTERY_DUMP_COMMAND: &'static str = "dumpsys battery";

/// The temperature in a line of the form `temperature: <number> ...`.
pub open spec fn temperature_line(line: Seq<char>) -> Option<i64> {
    match text::strip_prefix(text::trim(line), "temperature:"@) {
        Some(rest) => {
            let fields = text::words(text::trim(rest));
            if fields.len() > 0 {
                number::parse_i64(fields[0])
            } else {
                None
            }
        },
        None => None,
    }
}

/// The temperature in the first line of a dump that gives it.
pub open spec fn battery_temperature(output: Seq<char>) -> Option<i64> {
    text::first_some(text::lines(output), |line: Seq<char>| temperature_line(line))
}

/// The temperature in a dump, or the invalid value.
pub open spec fn temperature_or_invalid(output: Seq<char>) -> i64 {
    match battery_temperature(output) {
        Some(value) => value,
        None => INVALID_METRIC_VALUE,
    }
}

fn parse_temperature_line(line: &[char]) -> (r: Option<i64>)
    ensures
        r == temperature_line(line@),
{
    match after_prefix(trimmed(line), "temperature:") {
        Some(rest) => {
            let fields = split_words(trimmed(rest));
            if fields.len() > 0 {
                assert(text::views(fields@)[0] == fields@[0]@);
                read_i64(fields[0])
            } else {
                None
            }
        },
        None => None,
    }
}

/// Reads the temperature from a dump.
pub fn parse_battery_temperature(output: &str) -> (r: Option<i64>)
    ensures
        r == battery_temperature(output@),
{
    let chars = chars_of(output);
    let lines = split_lines(chars.as_slice());
    let ghost all = text::lines(output@);
    let ghost f = |line: Seq<char>| temperature_line(line);
    let mut i: usize = 0;
    proof {
        text::lemma_first_some_at(all, f, 0);
    }
    while i < lines.len()
        invariant
            i <= lines@.len(),
            all == text::lines(output@),
            all == text::views(lines@),
            f == (|line: Seq<char>| temperature_line(line)),
            text::first_some(all, f) == text::first_some(all.skip(i as int), f),
        decreases lines@.len() - i,
    {
        proof {
            text::lemma_first_some_at(all, f, i as int);
        }
        let value = parse_temperature_line(lines[i]);
        if value.is_some() {
            return value;
        }
        i = i + 1;
    }
    proof {
        text::lemma_first_some_at(all, f, i as int);
    }
    None
}

/// A printed temperature is read back, with or without white space and more behind it.
pub proof fn law_printed_temperature(before: Seq<char>, n: int, rest: Seq<char>)
    requires
        i64::MIN <= n <= i64::MAX,
        text::is_made_of(before, CharClass::White),
    ensures
        temperature_line(before + "temperature: "@ + number::decimal_int(n)) == Some(n as i64),
        rest.len() > 0 && !text::is_white(rest.last()) ==> temperature_line(
            before + "temperature: "@ + number::decimal_int(n) + " "@ + rest,
        ) == Some(n as i64),
{
    reveal_strlit(" ");
    let d = number::decimal_int(n);
    let none = Seq::<char>::empty();
    power_supply::lemma_decimal_has_no_white(n);
    power_supply::lemma_printed(none, n, none);
    assert(none + d + none =~= d);
    text::lemma_trim_nothing(d);
    text::law_words(d, ' ', rest);
    assert(!CharClass::White.holds(d[0]) && !CharClass::White.holds(d[d.len() - 1]));
    lemma_temperature_text(before, d);
    if rest.len() > 0 && !text::is_white(rest.last()) {
        let body = d + seq![' '] + rest;
        lemma_temperature_text(before, body);
        assert(before + "temperature: "@ + body =~= before + "temperature: "@ + d + " "@ + rest);
    }
}

proof fn lemma_temperature_text(before: Seq<char>, body: Seq<char>)
    requires
        text::is_made_of(before, CharClass::White),
        body.len() > 0,
        !text::is_white(body[0]) && !text::is_white(body.last()),
        text::words(body).len() > 0,
    ensures
        temperature_line(before + "temperature: "@ + body) == number::parse_i64(
            text::words(body)[0],
        ),
{
    lemma_trimmed_line(before, body);
    lemma_stripped_line(body);
    lemma_trimmed_body(body);
}

proof fn lemma_trimmed_line(before: Seq<char>, body: Seq<char>)
    requires
        text::is_made_of(before, CharClass::White),
        body.len() > 0,
        !text::is_white(body.last()),
    ensures
        text::trim(before + "temperature: "@ + body) == "temperature: "@ + body,
{
    let none = Seq::<char>::empty();
    let line = "temperature: "@ + body;
    reveal_strlit("temperature: ");
    assert(line[0] == 't' && line.last() == body.last());
    assert(before + line + none =~= before + "temperature: "@ + body);
    text::law_trim(before, line, none, CharClass::White);
}

proof fn lemma_stripped_line(body: Seq<char>)
    ensures
        text::strip_prefix("temperature: "@ + body, "temperature:"@) == Some(seq![' '] + body),
{
    reveal_strlit("temperature: ");
    reveal_strlit("temperature:");
    assert("temperature:"@ + (seq![' '] + body) =~= "temperature: "@ + body);
    text::law_strip(seq![' '] + body, "temperature:"@);
}

proof fn lemma_trimmed_body(body: Seq<char>)
    requires
        body.len() > 0,
        !text::is_white(body[0]) && !text::is_white(body.last()),
    ensures
        text::trim(seq![' '] + body) == body,
{
    let none = Seq::<char>::empty();
    assert(seq![' '] + body + none =~= seq![' '] + body);
    text::law_trim(seq![' '], body, none, CharClass::White);
}

/// The temperature of a dump is that of its first line that gives one; the lines before it do not
/// matter, and neither do those behind it.
pub proof fn law_first_temperature_counts(line: Seq<char>, rest: Seq<char>)
    requires
        text::is_free_of(line, CharClass::One('\n')),
        line.len() == 0 || line.last() != '\r',
    ensures
        battery_temperature(line + seq!['\n'] + rest) == if temperature_line(line) is Some {
            temperature_line(line)
        } else {
            battery_temperature(rest)
        },
        battery_temperature(Seq::empty()) is None,
{
    text::law_lines_give_in_order(line, rest, |line: Seq<char>| temperature_line(line));
}

/// The collector of the profiler: what it is and its latest value.
#[derive(Debug)]
pub struct BatteryTemperatureCollector {
    metadata: CollectorMetadata,
    value_deci_c: i64,
}

/// The profiler of the battery temperature.
#[derive(Debug)]
pub struct BatteryTemperatureProfiler {
    serial: Option<String>,
    sample_interval_ns: u64,
    metadata: ProfilerMetadata,
    collector: BatteryTemperatureCollector,
    link: Link,
}

/// What the profiler holds, abstractly.
pub struct TemperatureState {
    /// The serial number of the device, where one is chosen.
    pub serial: Option<Seq<char>>,
    /// The interval between samples, in nanoseconds.
    pub sample_interval_ns: u64,
    /// The latest value.
    pub value: i64,
    /// The connection and the sampler.
    pub link: Link,
}

/// What the registry is told of the profiler.
pub open spec fn description() -> (Seq<char>, Seq<(Seq<char>, Seq<char>, nat)>) {
    (PROFILER_KEY@, seq![(COLLECTOR_KEY@, UNIT_DECI_C@, 0nat)])
}

/// The message for a dump without a temperature.
pub open spec fn unusable_text() -> &'static str {
    "failed to read a usable battery temperature from `adb shell dumpsys battery`"
}

impl View for BatteryTemperatureProfiler {
    type V = TemperatureState;

    closed spec fn view(&self) -> TemperatureState {
        TemperatureState {
            serial: text::optional(self.serial),
            sample_interval_ns: self.sample_interval_ns,
            value: self.collector.value_deci_c,
            link: self.link,
        }
    }
}

impl BatteryTemperatureCollector {
    /// The collector, without a value.
    fn new() -> (r: Result<BatteryTemperatureCollector, CoreError>)
        ensures
            r matches Ok(c) && c.metadata@ == (COLLECTOR_KEY@, UNIT_DECI_C@, 0nat)
                && c.value_deci_c == INVALID_METRIC_VALUE,
    {
        proof {
            reveal_strlit("battery");
            reveal_strlit("0.1C");
        }
        match CollectorMetadata::new(String::from_str(COLLECTOR_KEY), UNIT_DECI_C, 0) {
            Ok(metadata) => Ok(
                BatteryTemperatureCollector { metadata, value_deci_c: INVALID_METRIC_VALUE },
            ),
            Err(e) => Err(e),
        }
    }
}

impl BatteryTemperatureProfiler {
    /// What always holds of the profiler: its description is fixed, and a sampler is there only
    /// on a connection.
    pub closed spec fn wf(self) -> bool {
        self.metadata@ == description() && self.link.wf()
    }

    /// The profiler, not yet connected.
    pub fn new(serial: Option<String>, sample_interval_ns: u64) -> (r: Result<
        BatteryTemperatureProfiler,
        CoreError,
    >)
        ensures
            r matches Ok(p) && p.wf() && p@ == (TemperatureState {
                serial: text::optional(serial),
                sample_interval_ns,
                value: INVALID_METRIC_VALUE,
                link: Link::idle(),
            }),
    {
        proof {
            reveal_strlit("BATTERY_TEMP");
        }
        match BatteryTemperatureCollector::new() {
            Ok(collector) => {
                let mut collectors: Vec<CollectorMetadata> = Vec::new();
                collectors.push(collector.metadata.clone());
                assert(text::views(collectors@) =~= description().1);
                match ProfilerMetadata::new(PROFILER_KEY, collectors) {
                    Ok(metadata) => Ok(
                        BatteryTemperatureProfiler {
                            serial,
                            sample_interval_ns,
                            metadata,
                            collector,
                            link: Link::new(),
                        },
                    ),
                    Err(e) => Err(e),
                }
            },
            Err(e) => Err(e),
        }
    }

    /// What the registry is told of the profiler.
    pub fn metadata_clone(&self) -> (r: ProfilerMetadata)
        requires
            self.wf(),
        ensures
            r@ == description(),
    {
        self.metadata.clone()
    }

    /// The latest value.
    pub fn snapshot_value(&self) -> (r: i64)
        ensures
            r == self@.value,
    {
        self.collector.value_deci_c
    }

    /// The interval between samples, in nanoseconds.
    pub fn sample_interval_ns(&self) -> (r: u64)
        ensures
            r == self@.sample_interval_ns,
    {
        self.sample_interval_ns
    }

    /// The connection and the sampler.
    pub fn link(&self) -> (r: Link)
        ensures
            r == self@.link,
    {
        self.link
    }

    /// Whether the sampler pauses.
    pub fn is_paused(&self) -> (r: bool)
        ensures
            r == (self@.link.sampler is Paused),
    {
        matches!(self.link.sampler, SamplerState::Paused)
    }

    /// Takes up the reply to the dump command: the temperature in it, or its error.
    pub fn sample_once(&mut self, reply: Result<String, CoreError>) -> (r: Result<(), CoreError>)
        requires
            old(self).wf(),
        ensures
            final(self).wf(),
            match reply {
                Ok(output) => r is Ok && final(self)@ == (TemperatureState {
                    value: temperature_or_invalid(output@),
                    ..old(self)@
                }),
                Err(e) => r == Err::<(), CoreError>(e) && final(self)@ == old(self)@,
            },
    {
        match reply {
            Err(e) => Err(e),
            Ok(output) => {
                self.collector.value_deci_c = match parse_battery_temperature(output.as_str()) {
                    Some(value) => value,
                    None => INVALID_METRIC_VALUE,
                };
                Ok(())
            },
        }
    }

    /// Takes up a reply in the loop of the sampler: an error makes the value invalid.
    pub fn tick(&mut self, reply: Result<String, CoreError>)
        requires
            old(self).wf(),
        ensures
            final(self).wf(),
            final(self)@ == (TemperatureState {
                value: match reply {
                    Ok(output) => temperature_or_invalid(output@),
                    Err(_) => INVALID_METRIC_VALUE,
                },
                ..old(self)@
            }),
    {
        if self.sample_once(reply).is_err() {
            self.collector.value_deci_c = INVALID_METRIC_VALUE;
        }
    }

    /// Connects with the reply to the dump command, which must give a temperature.
    pub fn connect(&mut self, reply: Result<String, CoreError>) -> (r: Result<(), CoreError>)
        requires
            old(self).wf(),
        ensures
            final(self).wf(),
            match reply {
                Err(e) => r == Err::<(), CoreError>(e) && final(self)@ == old(self)@,
                Ok(output) => {
                    let value = temperature_or_invalid(output@);
                    if value == INVALID_METRIC_VALUE {
                        &&& r matches Err(e) && errors::is_runtime(e, unusable_text()@)
                        &&& final(self)@ == (TemperatureState { value, ..old(self)@ })
                    } else {
                        &&& r is Ok
                        &&& final(self)@ == (TemperatureState {
                            value,
                            link: Link { connected: true, ..old(self)@.link },
                            ..old(self)@
                        })
                    }
                },
            },
    {
        match self.sample_once(reply) {
            Err(e) => Err(e),
            Ok(_) => {
                if self.snapshot_value() == INVALID_METRIC_VALUE {
                    return Err(
                        CoreError::runtime(
                            "failed to read a usable battery temperature from `adb shell dumpsys battery`",
                        ),
                    );
                }
                self.link.connected = true;
                Ok(())
            },
        }
    }

    /// Begins a start. A sampler that is there goes on sampling. Where the result is `Ok(true)`,
    /// there is none and one has to be started.
    pub fn begin_start(&mut self) -> (r: Result<bool, CoreError>)
        requires
            old(self).wf(),
        ensures
            final(self).wf(),
            match r {
                Err(e) => {
                    &&& !old(self)@.link.connected
                    &&& errors::is_runtime(
                        e,
                        sampler::not_connected_text(PROFILER_KEY@, "start"@),
                    )
                    &&& final(self)@ == old(self)@
                },
                Ok(needed) => {
                    &&& old(self)@.link.connected
                    &&& needed == (old(self)@.link.sampler is Absent)
                    &&& final(self)@ == if needed {
                        old(self)@
                    } else {
                        (TemperatureState {
                            link: Link { sampler: SamplerState::Sampling, ..old(self)@.link },
                            ..old(self)@
                        })
                    }
                },
            },
    {
        self.link.begin_start(PROFILER_KEY)
    }

    /// Notes that a sampler has been started.
    pub fn finish_start(&mut self)
        requires
            old(self).wf(),
            old(self)@.link.connected,
        ensures
            final(self).wf(),
            final(self)@ == (TemperatureState {
                link: Link { sampler: SamplerState::Sampling, ..old(self)@.link },
                ..old(self)@
            }),
    {
        self.link.sampler = SamplerState::Sampling;
    }

    /// Pauses the sampler.
    pub fn pause(&mut self) -> (r: Result<(), CoreError>)
        requires
            old(self).wf(),
        ensures
            final(self).wf(),
            final(self)@ == (TemperatureState { link: final(self)@.link, ..old(self)@ }),
            Link::switched(
                old(self)@.link,
                final(self)@.link,
                r,
                PROFILER_KEY@,
                "pause"@,
                SamplerState::Paused,
            ),
    {
        self.link.pause(PROFILER_KEY)
    }

    /// Resumes the sampler.
    pub fn restart(&mut self) -> (r: Result<(), CoreError>)
        requires
            old(self).wf(),
        ensures
            final(self).wf(),
            final(self)@ == (TemperatureState { link: final(self)@.link, ..old(self)@ }),
            Link::switched(
                old(self)@.link,
                final(self)@.link,
                r,
                PROFILER_KEY@,
                "restart"@,
                SamplerState::Sampling,
            ),
    {
        self.link.restart(PROFILER_KEY)
    }

    /// Ends sampling and the connection.
    pub fn stop(&mut self) -> (r: Result<(), CoreError>)
        requires
            old(self).wf(),
        ensures
            r is Ok,
            final(self).wf(),
            final(self)@ == (TemperatureState {
                value: INVALID_METRIC_VALUE,
                link: Link::idle(),
                ..old(self)@
            }),
    {
        self.link.sampler = SamplerState::Absent;
        self.collector.value_deci_c = INVALID_METRIC_VALUE;
        self.link.connected = false;
        Ok(())
    }
}

} // verus!
