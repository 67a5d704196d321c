//! The profiler of the CPU clock rates, by frequency policy.

use vstd::prelude::*;

use crate::constants::INVALID_METRIC_VALUE;
use crate::errors;
use crate::errors::CoreError;
use crate::number;
use crate::number::{read_i64, write_u64};
use crate::profiler::power_supply;
use crate::profiler::sampler;
use crate::profiler::sampler::{Link, SamplerState};
use crate::text;
use crate::text::{chars_of, cut, joined, split_lines, string_of, trimmed, CharClass};
use crate::types::{CollectorMetadata, ProfilerMetadata};

verus! {

/// The key of the profiler.
pub const PROFILER_KEY: &'static str = "CPU_CLOCK";

/// The unit of its values.
pub const UNIT_MHZ: &'static str = "MHz";

/// The command that lists the frequency policies and their cores.
pub const POLICY_DISCOVERY_COMMAND: &'static str = "for p in /sys/devices/system/cpu/cpufreq/policy*; do bn=$(basename $p); cpus=$(cat $p/related_cpus 2>/dev/null); echo $bn:$cpus; done";

/// A frequency policy and the cores that it governs.
#[derive(Debug)]
pub struct CpuPolicy {
    /// The name of the policy.
    pub policy_name: String,
    /// The cores, as the device writes them.
    pub related_cpus: String,
}

impl View for CpuPolicy {
    type V = (Seq<char>, Seq<char>);

    open spec fn view(&self) -> (Seq<char>, Seq<char>) {
        (self.policy_name@, self.related_cpus@)
    }
}

// ---------------------------------------------------------------------------
// What the device prints
// ---------------------------------------------------------------------------

/// The policy in a line of the form `<name>:<cores>`.
pub open spec fn policy_line(line: Seq<char>) -> Option<(Seq<char>, Seq<char>)> {
    match text::split_once(text::trim(line), ":"@) {
        Some(parts) => Some((text::trim(parts.0), text::trim(parts.1))),
        None => None,
    }
}

/// The policies in a listing.
pub open spec fn policies(output: Seq<char>) -> Seq<(Seq<char>, Seq<char>)> {
    text::lines(output).filter_map(|line: Seq<char>| policy_line(line))
}

/// The megahertz in a line that is a number of kilohertz. A negative number stands for a rate
/// that cannot be read.
pub open spec fn rate_line(line: Seq<char>) -> Option<i64> {
    match number::parse_i64(text::trim(line)) {
        Some(raw) => Some(
            if raw < 0 {
                INVALID_METRIC_VALUE
            } else {
                (raw / 1000) as i64
            },
        ),
        None => None,
    }
}

/// The megahertz in the lines of a sample.
pub open spec fn rates(output: Seq<char>) -> Seq<i64> {
    text::lines(output).filter_map(|line: Seq<char>| rate_line(line))
}

/// The command that prints the rate of one policy.
pub open spec fn rate_command(policy: Seq<char>) -> Seq<char> {
    "cat /sys/devices/system/cpu/cpufreq/"@ + policy + "/scaling_cur_freq 2>/dev/null || echo -1"@
}

/// The command that prints the rates of policies, one per line.
pub open spec fn sampling_command(names: Seq<Seq<char>>) -> Seq<char> {
    "for x in 1; do "@ + text::join(
        names.map_values(|name: Seq<char>| rate_command(name)),
        "; "@,
    ) + "; done"@
}

fn parse_policy_line(line: &[char]) -> (r: Option<CpuPolicy>)
    ensures
        match r {
            Some(policy) => policy_line(line@) == Some(policy@),
            None => policy_line(line@) is None,
        },
{
    match cut(trimmed(line), ":") {
        Some(parts) => Some(
            CpuPolicy {
                policy_name: string_of(trimmed(parts.0)),
                related_cpus: string_of(trimmed(parts.1)),
            },
        ),
        None => None,
    }
}

/// Reads the policies from a listing.
pub fn parse_policy_listing(output: &str) -> (r: Vec<CpuPolicy>)
    ensures
        text::views(r@) == policies(output@),
{
    broadcast use text::lemma_views_push;

    let chars = chars_of(output);
    let lines = split_lines(chars.as_slice());
    let ghost all = text::lines(output@);
    let ghost f = |line: Seq<char>| policy_line(line);
    let mut out: Vec<CpuPolicy> = Vec::new();
    let mut i: usize = 0;
    assert(all.take(0) =~= Seq::empty());
    assert(text::views(out@) =~= all.take(0).filter_map(f));
    while i < lines.len()
        invariant
            i <= lines@.len(),
            all == text::views(lines@),
            text::views(out@) == all.take(i as int).filter_map(f),
            f == (|line: Seq<char>| policy_line(line)),
        decreases lines@.len() - i,
    {
        proof {
            all.lemma_filter_map_take_succ(f, i as int);
        }
        let ghost before = out@;
        if let Some(policy) = parse_policy_line(lines[i]) {
            out.push(policy);
            assert(text::views(out@) == text::views(before).push(policy@));
        }
        i = i + 1;
    }
    assert(all.take(i as int) =~= all);
    out
}

/// Reads the megahertz from a sample.
pub fn parse_sampling_output(output: &str) -> (r: Vec<i64>)
    ensures
        r@ == rates(output@),
{
    let chars = chars_of(output);
    let lines = split_lines(chars.as_slice());
    let ghost all = text::lines(output@);
    let ghost f = |line: Seq<char>| rate_line(line);
    let mut out: Vec<i64> = Vec::new();
    let mut i: usize = 0;
    assert(all.take(0) =~= Seq::empty());
    assert(out@ =~= all.take(0).filter_map(f));
    while i < lines.len()
        invariant
            i <= lines@.len(),
            all == text::views(lines@),
            out@ == all.take(i as int).filter_map(f),
            f == (|line: Seq<char>| rate_line(line)),
        decreases lines@.len() - i,
    {
        proof {
            all.lemma_filter_map_take_succ(f, i as int);
        }
        if let Some(raw) = read_i64(trimmed(lines[i])) {
            let rate: i64 = if raw < 0 {
                INVALID_METRIC_VALUE
            } else {
                raw / 1000
            };
            out.push(rate);
        }
        i = i + 1;
    }
    assert(all.take(i as int) =~= all);
    out
}

/// The command that prints the rates of policies, one per line.
pub fn build_sampling_command(policy_names: &Vec<String>) -> (r: String)
    ensures
        r@ == sampling_command(text::views(policy_names@)),
{
    let ghost names = text::views(policy_names@);
    let ghost all = names.map_values(|name: Seq<char>| rate_command(name));
    let mut commands: Vec<String> = Vec::new();
    let mut i: usize = 0;
    while i < policy_names.len()
        invariant
            i <= policy_names@.len(),
            commands@.len() == i,
            names == text::views(policy_names@),
            forall|j: int| 0 <= j < i ==> (#[trigger] commands@[j])@ == rate_command(names[j]),
        decreases policy_names@.len() - i,
    {
        let mut command = String::from_str("cat /sys/devices/system/cpu/cpufreq/");
        command.append(policy_names[i].as_str());
        command.append("/scaling_cur_freq 2>/dev/null || echo -1");
        commands.push(command);
        i = i + 1;
    }
    assert(text::views(commands@) =~= all);
    let mut out = String::from_str("for x in 1; do ");
    let list = joined(&commands, "; ");
    out.append(list.as_str());
    out.append("; done");
    out
}

/// A printed number of kilohertz is read as megahertz, parts of a megahertz dropped; a negative
/// number as no rate.
pub proof fn law_printed_rates(before: Seq<char>, khz: int, behind: Seq<char>)
    requires
        i64::MIN <= khz <= i64::MAX,
        text::is_made_of(before, CharClass::White),
        text::is_made_of(behind, CharClass::White),
    ensures
        khz >= 0 ==> (rate_line(before + number::decimal_int(khz) + behind) matches Some(mhz)
            && mhz * 1000 <= khz < mhz * 1000 + 1000),
        khz < 0 ==> rate_line(before + number::decimal_int(khz) + behind) == Some(
            INVALID_METRIC_VALUE,
        ),
{
    power_supply::lemma_printed(before, khz, behind);
}

/// The rates of a sample are those of its lines, in their order.
pub proof fn law_rates_in_order(line: Seq<char>, rest: Seq<char>)
    requires
        text::is_free_of(line, CharClass::One('\n')),
        line.len() == 0 || line.last() != '\r',
    ensures
        rates(line + seq!['\n'] + rest) == match rate_line(line) {
            Some(rate) => seq![rate] + rates(rest),
            None => rates(rest),
        },
        rates(Seq::empty()).len() == 0,
{
    text::law_lines_give_in_order(line, rest, |line: Seq<char>| rate_line(line));
}

/// A line of a name, a colon and cores gives that policy with these cores, and the policies of a
/// listing are those of its lines, in their order.
pub proof fn law_listed_policies(name: Seq<char>, cpus: Seq<char>, rest: Seq<char>)
    requires
        text::is_free_of(name, CharClass::One(':')),
        text::is_free_of(name, CharClass::One('\n')),
        text::is_free_of(cpus, CharClass::One('\n')),
        name.len() > 0 && !text::is_white(name[0]) && !text::is_white(name.last()),
        cpus.len() > 0 && !text::is_white(cpus[0]) && !text::is_white(cpus.last()),
    ensures
        policy_line(name + ":"@ + cpus) == Some((name, cpus)),
        policies(name + ":"@ + cpus + "\n"@ + rest) == seq![(name, cpus)] + policies(rest),
        policies(Seq::empty()).len() == 0,
{
    reveal_strlit(":");
    reveal_strlit("\n");
    let line = name + ":"@ + cpus;
    assert(":"@ =~= seq![':']);
    assert("\n"@ =~= seq!['\n']);
    text::lemma_trim_nothing(line);
    text::lemma_trim_nothing(name);
    text::lemma_trim_nothing(cpus);
    text::law_split_once(name, ':', cpus);
    assert forall|i: int| 0 <= i < line.len() implies !CharClass::One('\n').holds(
        #[trigger] line[i],
    ) by {
        if i < name.len() {
            assert(!CharClass::One('\n').holds(name[i]));
        } else if i > name.len() {
            assert(!CharClass::One('\n').holds(cpus[i - name.len() - 1]));
        }
    }
    text::law_lines_give_in_order(line, rest, |line: Seq<char>| policy_line(line));
}

/// The sampling command asks for the rate of every policy.
pub proof fn law_every_policy_is_asked_for(names: Seq<Seq<char>>, i: int)
    requires
        0 <= i < names.len(),
    ensures
        text::contains(
            sampling_command(names),
            "/cpufreq/"@ + names[i] + "/scaling_cur_freq"@,
        ),
{
    reveal_strlit("/cpufreq/");
    reveal_strlit("/scaling_cur_freq");
    reveal_strlit("cat /sys/devices/system/cpu/cpufreq/");
    reveal_strlit("/scaling_cur_freq 2>/dev/null || echo -1");
    let commands = names.map_values(|name: Seq<char>| rate_command(name));
    let asked = "/cpufreq/"@ + names[i] + "/scaling_cur_freq"@;
    let command = rate_command(names[i]);
    let at = 27;
    assert(command.subrange(at, at + asked.len()) =~= asked);
    assert(text::occurs_at(command, asked, at));
    text::law_joined_parts(commands, "; "@, i);
    let list = text::join(commands, "; "@);
    lemma_contains_transitive(list, command, asked);
    text::lemma_contains_within("for x in 1; do "@, list, "; done"@, asked);
}

proof fn lemma_contains_transitive(s: Seq<char>, p: Seq<char>, q: Seq<char>)
    requires
        text::contains(s, p),
        text::contains(p, q),
    ensures
        text::contains(s, q),
{
    let i = choose|i: int| text::occurs_at(s, p, i);
    let before = s.take(i);
    let behind = s.skip(i + p.len());
    assert(before + p + behind =~= s) by {
        assert(s.subrange(i, i + p.len()) == p);
    }
    text::lemma_contains_within(before, p, behind, q);
}

// ---------------------------------------------------------------------------
// The profiler
// ---------------------------------------------------------------------------

/// The collector of one policy: what it is and its latest value.
#[derive(Debug)]
pub struct CpuClockCollector {
    metadata: CollectorMetadata,
    policy_name: String,
    related_cpus: String,
    value_mhz: i64,
}

/// The collector of one policy, abstractly.
pub struct ClockReading {
    /// The name of the policy.
    pub policy: Seq<char>,
    /// The cores, as the device writes them.
    pub cpus: Seq<char>,
    /// What the registry is told of the collector.
    pub described: (Seq<char>, Seq<char>, nat),
    /// The latest value.
    pub value: i64,
}

impl View for CpuClockCollector {
    type V = ClockReading;

    closed spec fn view(&self) -> ClockReading {
        ClockReading {
            policy: self.policy_name@,
            cpus: self.related_cpus@,
            described: self.metadata@,
            value: self.value_mhz,
        }
    }
}

/// The collector of the policy at a place in the listing, without a value.
pub open spec fn fresh_reading(policy: (Seq<char>, Seq<char>), order: nat) -> ClockReading {
    ClockReading {
        policy: policy.0,
        cpus: policy.1,
        described: (policy.0, UNIT_MHZ@, order),
        value: INVALID_METRIC_VALUE,
    }
}

/// The collectors of policies, without values.
pub open spec fn fresh_readings(listed: Seq<(Seq<char>, Seq<char>)>) -> Seq<ClockReading> {
    Seq::new(listed.len(), |i: int| fresh_reading(listed[i], i as nat))
}

/// The same collector with another value.
pub open spec fn with_value(reading: ClockReading, value: i64) -> ClockReading {
    ClockReading { value, ..reading }
}

/// The same collectors with other values.
pub open spec fn with_values(readings: Seq<ClockReading>, values: Seq<i64>) -> Seq<ClockReading> {
    Seq::new(readings.len(), |i: int| with_value(readings[i], values[i]))
}

/// The same collectors without values.
pub open spec fn all_invalid(readings: Seq<ClockReading>) -> Seq<ClockReading> {
    readings.map_values(|reading: ClockReading| with_value(reading, INVALID_METRIC_VALUE))
}

/// What the registry is told of the collectors.
pub open spec fn descriptions(readings: Seq<ClockReading>) -> Seq<(Seq<char>, Seq<char>, nat)> {
    readings.map_values(|reading: ClockReading| reading.described)
}

/// The latest values.
pub open spec fn values_of(readings: Seq<ClockReading>) -> Seq<i64> {
    readings.map_values(|reading: ClockReading| reading.value)
}

/// A sample gives each policy the value at its place and changes nothing else of the policies;
/// a failed one leaves no policy a value.
pub proof fn law_values_are_stored(readings: Seq<ClockReading>, values: Seq<i64>, i: int)
    requires
        values.len() == readings.len(),
        0 <= i < readings.len(),
    ensures
        values_of(with_values(readings, values)) == values,
        with_values(readings, values)[i].policy == readings[i].policy,
        with_values(readings, values)[i].cpus == readings[i].cpus,
        descriptions(with_values(readings, values)) == descriptions(readings),
        values_of(all_invalid(readings))[i] == INVALID_METRIC_VALUE,
        all_invalid(readings)[i].policy == readings[i].policy,
        descriptions(all_invalid(readings)) == descriptions(readings),
{
    assert(values_of(with_values(readings, values)) =~= values);
    assert(descriptions(with_values(readings, values)) =~= descriptions(readings));
    assert(descriptions(all_invalid(readings)) =~= descriptions(readings));
}

/// A listing gives each policy a collector at its place, named for it and without a value.
pub proof fn law_listed_policies_get_collectors(listed: Seq<(Seq<char>, Seq<char>)>, i: int)
    requires
        0 <= i < listed.len(),
    ensures
        fresh_readings(listed).len() == listed.len(),
        fresh_readings(listed)[i].policy == listed[i].0,
        fresh_readings(listed)[i].cpus == listed[i].1,
        fresh_readings(listed)[i].value == INVALID_METRIC_VALUE,
        descriptions(fresh_readings(listed))[i] == (listed[i].0, "MHz"@, i as nat),
{
}

impl CpuClockCollector {
    /// The collector of a policy, without a value.
    fn new(policy: CpuPolicy, order: usize) -> (r: Result<CpuClockCollector, CoreError>)
        ensures
            r is Ok <==> policy@.0.len() > 0,
            r matches Ok(c) ==> c@ == fresh_reading(policy@, order as nat),
            r matches Err(e) ==> errors::is_empty_field(e, "collector_key"@),
    {
        proof {
            reveal_strlit("MHz");
        }
        match CollectorMetadata::new(policy.policy_name.clone(), UNIT_MHZ, order) {
            Ok(metadata) => Ok(
                CpuClockCollector {
                    metadata,
                    policy_name: policy.policy_name,
                    related_cpus: policy.related_cpus,
                    value_mhz: INVALID_METRIC_VALUE,
                },
            ),
            Err(e) => Err(e),
        }
    }

    /// The name of the policy.
    pub fn policy_name(&self) -> (r: &str)
        ensures
            r@ == self@.policy,
    {
        self.policy_name.as_str()
    }

    /// The cores, as the device writes them.
    pub fn related_cpus(&self) -> (r: &str)
        ensures
            r@ == self@.cpus,
    {
        self.related_cpus.as_str()
    }
}

/// The profiler of the CPU clock rates.
#[derive(Debug)]
pub struct CpuClockProfiler {
    serial: Option<String>,
    sample_interval_ns: u64,
    metadata: ProfilerMetadata,
    collectors: Vec<CpuClockCollector>,
    link: Link,
}

/// What the profiler holds, abstractly.
pub struct ClockState {
    /// The serial number of the device, where one is chosen.
    pub serial: Option<Seq<char>>,
    /// The interval between samples, in nanoseconds.
    pub sample_interval_ns: u64,
    /// What the registry is told of the profiler.
    pub described: (Seq<char>, Seq<(Seq<char>, Seq<char>, nat)>),
    /// The collectors, one for each policy.
    pub readings: Seq<ClockReading>,
    /// The connection and the sampler.
    pub link: Link,
}

/// What the registry is told of a profiler that has not been connected.
pub open spec fn initial_description() -> (Seq<char>, Seq<(Seq<char>, Seq<char>, nat)>) {
    (PROFILER_KEY@, seq![("policy0"@, UNIT_MHZ@, 0nat)])
}

/// The message for a device without frequency policies.
pub open spec fn no_policy_text() -> &'static str {
    "no readable CPU frequency policy was found on the target device"
}

/// The message for a sample with the wrong number of values.
pub open spec fn wrong_count_text(found: nat, expected: nat) -> Seq<char> {
    "CPU_CLOCK sample returned "@ + number::decimal(found) + " values, expected "@
        + number::decimal(expected)
}

impl View for CpuClockProfiler {
    type V = ClockState;

    closed spec fn view(&self) -> ClockState {
        ClockState {
            serial: text::optional(self.serial),
            sample_interval_ns: self.sample_interval_ns,
            described: self.metadata@,
            readings: text::views(self.collectors@),
            link: self.link,
        }
    }
}

impl ClockState {
    /// What always holds of the profiler: a sampler is there only on a connection, a connection
    /// only with collectors, and what the registry is told of the profiler fits its collectors,
    /// where it has some.
    pub open spec fn wf(self) -> bool {
        &&& self.link.wf()
        &&& self.link.connected ==> self.readings.len() > 0
        &&& self.described.0 == PROFILER_KEY@
        &&& self.readings.len() > 0 ==> self.described.1 == descriptions(self.readings)
        &&& forall|i: int|
            0 <= i < self.readings.len() ==> (#[trigger] self.readings[i]).described == (
                self.readings[i].policy,
                UNIT_MHZ@,
                i as nat,
            )
    }
}

/// Gives new values to collectors.
fn store_values(collectors: &mut Vec<CpuClockCollector>, values: &[i64])
    requires
        old(collectors)@.len() == values@.len(),
    ensures
        text::views(final(collectors)@) == with_values(text::views(old(collectors)@), values@),
{
    let ghost before = text::views(collectors@);
    let mut i: usize = 0;
    while i < collectors.len()
        invariant
            i <= collectors@.len(),
            before.len() == collectors@.len(),
            before.len() == values@.len(),
            forall|j: int|
                0 <= j < i ==> (#[trigger] collectors@[j])@ == with_value(before[j], values@[j]),
            forall|j: int| i <= j < before.len() ==> (#[trigger] collectors@[j])@ == before[j],
        decreases collectors@.len() - i,
    {
        collectors[i].value_mhz = values[i];
        i = i + 1;
    }
    assert(text::views(collectors@) =~= with_values(before, values@));
}

/// Makes all values invalid.
fn mark_all_invalid(collectors: &mut Vec<CpuClockCollector>)
    ensures
        text::views(final(collectors)@) == all_invalid(text::views(old(collectors)@)),
{
    let ghost before = text::views(collectors@);
    let mut i: usize = 0;
    while i < collectors.len()
        invariant
            i <= collectors@.len(),
            before.len() == collectors@.len(),
            forall|j: int|
                0 <= j < i ==> (#[trigger] collectors@[j])@ == with_value(
                    before[j],
                    INVALID_METRIC_VALUE,
                ),
            forall|j: int| i <= j < before.len() ==> (#[trigger] collectors@[j])@ == before[j],
        decreases collectors@.len() - i,
    {
        collectors[i].value_mhz = INVALID_METRIC_VALUE;
        i = i + 1;
    }
    assert(text::views(collectors@) =~= all_invalid(before));
}

/// Whether all policies have a name.
pub open spec fn all_named(listed: Seq<(Seq<char>, Seq<char>)>) -> bool {
    forall|i: int| 0 <= i < listed.len() ==> (#[trigger] listed[i]).0.len() > 0
}

/// Whether `r` is what a listing of policies comes to: the policies in it, of which there must be
/// one, or the error of the command.
pub open spec fn is_discovery(r: Result<Vec<CpuPolicy>, CoreError>, reply: Result<String, CoreError>) -> bool {
    match reply {
        Err(e) => r == Err::<Vec<CpuPolicy>, CoreError>(e),
        Ok(output) => if policies(output@).len() == 0 {
            r matches Err(e) && errors::is_runtime(e, no_policy_text()@)
        } else {
            r matches Ok(found) && text::views(found@) == policies(output@)
        },
    }
}

impl CpuClockProfiler {
    /// What always holds of the profiler.
    pub open spec fn wf(self) -> bool {
        self@.wf()
    }

    /// The profiler, not yet connected.
    pub fn new(serial: Option<String>, sample_interval_ns: u64) -> (r: Result<
        CpuClockProfiler,
        CoreError,
    >)
        ensures
            r matches Ok(p) && p.wf() && p@ == (ClockState {
                serial: text::optional(serial),
                sample_interval_ns,
                described: initial_description(),
                readings: Seq::empty(),
                link: Link::idle(),
            }),
    {
        proof {
            reveal_strlit("CPU_CLOCK");
            reveal_strlit("policy0");
            reveal_strlit("MHz");
        }
        match CollectorMetadata::new(String::from_str("policy0"), UNIT_MHZ, 0) {
            Ok(collector) => {
                let mut described: Vec<CollectorMetadata> = Vec::new();
                described.push(collector);
                assert(text::views(described@) =~= initial_description().1);
                match ProfilerMetadata::new(PROFILER_KEY, described) {
                    Ok(metadata) => {
                        let p = CpuClockProfiler {
                            serial,
                            sample_interval_ns,
                            metadata,
                            collectors: Vec::new(),
                            link: Link::new(),
                        };
                        assert(p@.readings =~= Seq::empty());
                        Ok(p)
                    },
                    Err(e) => Err(e),
                }
            },
            Err(e) => Err(e),
        }
    }

    /// The policies in the reply to the listing command.
    pub fn discover_policies(&self, reply: Result<String, CoreError>) -> (r: Result<
        Vec<CpuPolicy>,
        CoreError,
    >)
        ensures
            is_discovery(r, reply),
    {
        match reply {
            Err(e) => Err(e),
            Ok(output) => {
                let found = parse_policy_listing(output.as_str());
                assert(text::views(found@).len() == found@.len());
                if found.len() == 0 {
                    return Err(
                        CoreError::runtime(
                            "no readable CPU frequency policy was found on the target device",
                        ),
                    );
                }
                Ok(found)
            },
        }
    }

    /// The latest values.
    pub fn snapshot_values(&self) -> (r: Vec<i64>)
        ensures
            r@ == values_of(self@.readings),
    {
        let mut out: Vec<i64> = Vec::new();
        let mut i: usize = 0;
        while i < self.collectors.len()
            invariant
                i <= self.collectors@.len(),
                out@.len() == i,
                forall|j: int|
                    0 <= j < i ==> #[trigger] out@[j] == self.collectors@[j]@.value,
            decreases self.collectors@.len() - i,
        {
            out.push(self.collectors[i].value_mhz);
            i = i + 1;
        }
        assert(out@ =~= values_of(self@.readings));
        out
    }

    /// What users see of the collectors.
    pub fn collector_labels(&self) -> (r: Vec<String>)
        ensures
            text::views(r@) == self@.readings.map_values(
                |reading: ClockReading| reading.policy + " ("@ + reading.cpus + ")"@,
            ),
    {
        let mut out: Vec<String> = Vec::new();
        let mut i: usize = 0;
        while i < self.collectors.len()
            invariant
                i <= self.collectors@.len(),
                out@.len() == i,
                forall|j: int|
                    0 <= j < i ==> (#[trigger] out@[j])@ == self.collectors@[j]@.policy + " ("@
                        + self.collectors@[j]@.cpus + ")"@,
            decreases self.collectors@.len() - i,
        {
            let collector = &self.collectors[i];
            let mut label = String::from_str(collector.policy_name());
            label.append(" (");
            label.append(collector.related_cpus());
            label.append(")");
            out.push(label);
            i = i + 1;
        }
        assert(text::views(out@) =~= self@.readings.map_values(
            |reading: ClockReading| reading.policy + " ("@ + reading.cpus + ")"@,
        ));
        out
    }

    /// What the registry is told of the profiler.
    pub fn metadata_clone(&self) -> (r: ProfilerMetadata)
        ensures
            r@ == self@.described,
    {
        self.metadata.clone()
    }

    /// The interval between samples, in nanoseconds.
    pub fn sample_interval_ns(&self) -> (r: u64)
        ensures
            r == self@.sample_interval_ns,
    {
        self.sample_interval_ns
    }

    /// The connection and the sampler.
    pub fn link(&self) -> (r: Link)
        ensures
            r == self@.link,
    {
        self.link
    }

    /// Whether the sampler pauses.
    pub fn is_paused(&self) -> (r: bool)
        ensures
            r == (self@.link.sampler is Paused),
    {
        matches!(self.link.sampler, SamplerState::Paused)
    }

    /// The collectors of policies, without values.
    fn create_collectors(listed: Vec<CpuPolicy>) -> (r: Result<Vec<CpuClockCollector>, CoreError>)
        ensures
            r is Ok <==> all_named(text::views(listed@)),
            r matches Ok(collectors) ==> text::views(collectors@) == fresh_readings(
                text::views(listed@),
            ),
            r matches Err(e) ==> errors::is_empty_field(e, "collector_key"@),
    {
        let ghost all = text::views(listed@);
        let ghost originals = listed@;
        let mut out: Vec<CpuClockCollector> = Vec::new();
        let mut order: usize = 0;
        let total: usize = listed.len();
        for policy in it: listed
            invariant
                it.seq() == originals,
                all == text::views(originals),
                total == originals.len(),
                order == it.index(),
                out@.len() == order,
                forall|j: int| 0 <= j < order ==> (#[trigger] all[j]).0.len() > 0,
                forall|j: int|
                    0 <= j < order ==> (#[trigger] out@[j])@ == fresh_reading(all[j], j as nat),
        {
            assert(policy@ == all[order as int]);
            match CpuClockCollector::new(policy, order) {
                Ok(collector) => {
                    out.push(collector);
                },
                Err(e) => {
                    return Err(e);
                },
            }
            order = order + 1;
        }
        assert(text::views(out@) =~= fresh_readings(all));
        Ok(out)
    }

    /// Connects with the reply to the listing command: one collector for each policy.
    pub fn connect(&mut self, reply: Result<String, CoreError>) -> (r: Result<(), CoreError>)
        requires
            old(self).wf(),
        ensures
            final(self).wf(),
            match reply {
                Err(e) => r == Err::<(), CoreError>(e) && final(self)@ == old(self)@,
                Ok(output) => {
                    let listed = policies(output@);
                    if listed.len() == 0 {
                        &&& r matches Err(e) && errors::is_runtime(e, no_policy_text()@)
                        &&& final(self)@ == old(self)@
                    } else if !all_named(listed) {
                        &&& r matches Err(e) && errors::is_empty_field(e, "collector_key"@)
                        &&& final(self)@ == old(self)@
                    } else {
                        &&& r is Ok
                        &&& final(self)@ == (ClockState {
                            described: (PROFILER_KEY@, descriptions(fresh_readings(listed))),
                            readings: fresh_readings(listed),
                            link: Link { connected: true, ..old(self)@.link },
                            ..old(self)@
                        })
                    }
                },
            },
    {
        match self.discover_policies(reply) {
            Err(e) => Err(e),
            Ok(found) => match CpuClockProfiler::create_collectors(found) {
                Err(e) => Err(e),
                Ok(collectors) => {
                    proof {
                        reveal_strlit("CPU_CLOCK");
                    }
                    let mut described: Vec<CollectorMetadata> = Vec::new();
                    let mut i: usize = 0;
                    while i < collectors.len()
                        invariant
                            i <= collectors@.len(),
                            described@.len() == i,
                            forall|j: int|
                                0 <= j < i ==> (#[trigger] described@[j])@
                                    == collectors@[j]@.described,
                        decreases collectors@.len() - i,
                    {
                        described.push(collectors[i].metadata.clone());
                        i = i + 1;
                    }
                    assert(text::views(described@) =~= descriptions(text::views(collectors@)));
                    match ProfilerMetadata::new(PROFILER_KEY, described) {
                        Err(e) => Err(e),
                        Ok(metadata) => {
                            self.collectors = collectors;
                            self.metadata = metadata;
                            self.link.connected = true;
                            Ok(())
                        },
                    }
                },
            },
        }
    }

    /// The command that prints the rates of the policies.
    pub fn sampling_command(&self) -> (r: String)
        ensures
            r@ == sampling_command(
                self@.readings.map_values(|reading: ClockReading| reading.policy),
            ),
    {
        let mut names: Vec<String> = Vec::new();
        let mut i: usize = 0;
        while i < self.collectors.len()
            invariant
                i <= self.collectors@.len(),
                names@.len() == i,
                forall|j: int|
                    0 <= j < i ==> (#[trigger] names@[j])@ == self.collectors@[j]@.policy,
            decreases self.collectors@.len() - i,
        {
            names.push(self.collectors[i].policy_name.clone());
            i = i + 1;
        }
        assert(text::views(names@) =~= self@.readings.map_values(
            |reading: ClockReading| reading.policy,
        ));
        build_sampling_command(&names)
    }

    /// Takes up the reply to the sampling command: one value for each policy. A reply with
    /// another number of values makes all of them invalid.
    pub fn sample_once(&mut self, reply: Result<String, CoreError>) -> (r: Result<(), CoreError>)
        requires
            old(self).wf(),
        ensures
            final(self).wf(),
            match reply {
                Err(e) => r == Err::<(), CoreError>(e) && final(self)@ == old(self)@,
                Ok(output) => {
                    let found = rates(output@);
                    if found.len() == old(self)@.readings.len() {
                        &&& r is Ok
                        &&& final(self)@ == (ClockState {
                            readings: with_values(old(self)@.readings, found),
                            ..old(self)@
                        })
                    } else {
                        &&& r matches Err(e) && errors::is_runtime(
                            e,
                            wrong_count_text(found.len(), old(self)@.readings.len()),
                        )
                        &&& final(self)@ == (ClockState {
                            readings: all_invalid(old(self)@.readings),
                            ..old(self)@
                        })
                    }
                },
            },
    {
        match reply {
            Err(e) => Err(e),
            Ok(output) => {
                let values = parse_sampling_output(output.as_str());
                if values.len() != self.collectors.len() {
                    let expected: usize = self.collectors.len();
                    mark_all_invalid(&mut self.collectors);
                    assert(descriptions(self@.readings) =~= descriptions(old(self)@.readings));
                    let mut message = String::from_str("CPU_CLOCK sample returned ");
                    let found_text = write_u64(values.len() as u64);
                    message.append(found_text.as_str());
                    message.append(" values, expected ");
                    let expected_text = write_u64(expected as u64);
                    message.append(expected_text.as_str());
                    return Err(CoreError::Runtime(message));
                }
                store_values(&mut self.collectors, values.as_slice());
                assert(descriptions(self@.readings) =~= descriptions(old(self)@.readings));
                Ok(())
            },
        }
    }

    /// Takes up a reply in the loop of the sampler: an error makes all values invalid.
    pub fn tick(&mut self, reply: Result<String, CoreError>)
        requires
            old(self).wf(),
        ensures
            final(self).wf(),
            final(self)@ == (ClockState {
                readings: match reply {
                    Ok(output) => if rates(output@).len() == old(self)@.readings.len() {
                        with_values(old(self)@.readings, rates(output@))
                    } else {
                        all_invalid(old(self)@.readings)
                    },
                    Err(_) => all_invalid(old(self)@.readings),
                },
                ..old(self)@
            }),
    {
        if self.sample_once(reply).is_err() {
            mark_all_invalid(&mut self.collectors);
            assert(descriptions(self@.readings) =~= descriptions(old(self)@.readings));
            assert(self@.readings =~= all_invalid(old(self)@.readings));
        }
    }

    /// Begins a start. A sampler that is there goes on sampling. Where the result is `Ok(true)`,
    /// there is none and one has to be started.
    pub fn begin_start(&mut self) -> (r: Result<bool, CoreError>)
        requires
            old(self).wf(),
        ensures
            final(self).wf(),
            match r {
                Err(e) => {
                    &&& !old(self)@.link.connected
                    &&& errors::is_runtime(
                        e,
                        sampler::not_connected_text(PROFILER_KEY@, "start"@),
                    )
                    &&& final(self)@ == old(self)@
                },
                Ok(needed) => {
                    &&& old(self)@.link.connected
                    &&& needed == (old(self)@.link.sampler is Absent)
                    &&& final(self)@ == if needed {
                        old(self)@
                    } else {
                        (ClockState {
                            link: Link { sampler: SamplerState::Sampling, ..old(self)@.link },
                            ..old(self)@
                        })
                    }
                },
            },
    {
        self.link.begin_start(PROFILER_KEY)
    }

    /// Notes that a sampler has been started.
    pub fn finish_start(&mut self)
        requires
            old(self).wf(),
            old(self)@.link.connected,
        ensures
            final(self).wf(),
            final(self)@ == (ClockState {
                link: Link { sampler: SamplerState::Sampling, ..old(self)@.link },
                ..old(self)@
            }),
    {
        self.link.sampler = SamplerState::Sampling;
    }

    /// Pauses the sampler.
    pub fn pause(&mut self) -> (r: Result<(), CoreError>)
        requires
            old(self).wf(),
        ensures
            final(self).wf(),
            final(self)@ == (ClockState { link: final(self)@.link, ..old(self)@ }),
            Link::switched(
                old(self)@.link,
                final(self)@.link,
                r,
                PROFILER_KEY@,
                "pause"@,
                SamplerState::Paused,
            ),
    {
        self.link.pause(PROFILER_KEY)
    }

    /// Resumes the sampler.
    pub fn restart(&mut self) -> (r: Result<(), CoreError>)
        requires
            old(self).wf(),
        ensures
            final(self).wf(),
            final(self)@ == (ClockState { link: final(self)@.link, ..old(self)@ }),
            Link::switched(
                old(self)@.link,
                final(self)@.link,
                r,
                PROFILER_KEY@,
                "restart"@,
                SamplerState::Sampling,
            ),
    {
        self.link.restart(PROFILER_KEY)
    }

    /// Ends sampling and the connection.
    pub fn stop(&mut self) -> (r: Result<(), CoreError>)
        requires
            old(self).wf(),
        ensures
            r is Ok,
            final(self).wf(),
            final(self)@ == (ClockState {
                readings: all_invalid(old(self)@.readings),
                link: Link::idle(),
                ..old(self)@
            }),
    {
        self.link.sampler = SamplerState::Absent;
        mark_all_invalid(&mut self.collectors);
        assert(descriptions(self@.readings) =~= descriptions(old(self)@.readings));
        self.link.connected = false;
        Ok(())
    }
}

} // verus!
