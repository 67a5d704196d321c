//! The profiler of the CPU utilisation, by frequency policy.

use vstd::prelude::*;

use crate::constants::INVALID_METRIC_VALUE;
use crate::errors;
use crate::errors::CoreError;
use crate::names;
use crate::names::sort_names;
use crate::number;
use crate::number::{read_unsigned, write_u64};
use crate::profiler::power_supply;
use crate::profiler::sampler;
use crate::profiler::sampler::{Link, SamplerState};
use crate::storage;
use crate::text;
use crate::text::{
    after_prefix, chars_of, cut, has_prefix, split_at_class, split_lines, split_words, string_of,
    trimmed, CharClass,
};
use crate::types::{CollectorMetadata, ProfilerMetadata};

verus! {

/// The key of the profiler.
pub const PROFILER_KEY: &'static str = "CPU_USAGE";

/// The unit of its values.
pub const UNIT_PERCENT: &'static str = "%";

/// The command that prints the tick counters of the cores.
pub const CPU_STAT_COMMAND: &'static str = "cat /proc/stat";

/// The command that lists the frequency policies and their cores.
pub const POLICY_DISCOVERY_COMMAND: &'static str = "for p in /sys/devices/system/cpu/cpufreq/policy*; do bn=$(basename $p); cpus=$(cat $p/related_cpus 2>/dev/null); echo $bn:$cpus; done";

/// The tick counters of a core.
#[derive(Debug, Clone, Copy, PartialEq, Eq, Structural)]
pub struct CpuTick {
    /// All ticks.
    pub total: u64,
    /// The ticks in which the core was idle or waited for input and output.
    pub idle: u64,
}

/// A frequency policy and the names of its cores.
#[derive(Debug)]
pub struct PolicyGroup {
    /// The name of the policy.
    pub name: String,
    /// The names of its cores, in alphabetical order, each once.
    pub core_names: Vec<String>,
}

impl View for PolicyGroup {
    type V = (Seq<char>, Seq<Seq<char>>);

    open spec fn view(&self) -> (Seq<char>, Seq<Seq<char>>) {
        (self.name@, text::views(self.core_names@))
    }
}

// ---------------------------------------------------------------------------
// Lists of cores
// ---------------------------------------------------------------------------

/// The name of a core.
pub open spec fn core_name(cpu: nat) -> Seq<char> {
    "cpu"@ + number::decimal(cpu)
}

/// Reads an unsigned 32-bit number.
pub open spec fn core_number(s: Seq<char>) -> Option<nat> {
    number::parse_unsigned(s, u32::MAX as nat)
}

/// The cores from one number to another, both of them included.
pub open spec fn core_range(first: nat, last: nat) -> Seq<Seq<char>> {
    if first <= last {
        Seq::new((last - first + 1) as nat, |i: int| core_name((first + i) as nat))
    } else {
        Seq::empty()
    }
}

/// The cores that one item of a list names: a range `<first>-<last>` or a number. Other items
/// name none.
pub open spec fn item_cores(item: Seq<char>) -> Seq<Seq<char>> {
    match text::split_once(item, "-"@) {
        Some(ends) => match (core_number(ends.0), core_number(ends.1)) {
            (Some(first), Some(last)) => core_range(first, last),
            _ => Seq::empty(),
        },
        None => match core_number(item) {
            Some(cpu) => seq![core_name(cpu)],
            None => Seq::empty(),
        },
    }
}

/// The cores that a list names, in the order in which it names them.
pub open spec fn listed_cores(raw: Seq<char>) -> Seq<Seq<char>> {
    text::split_on(raw, CharClass::ListBreak).flat_map(
        |item: Seq<char>| item_cores(text::trim(item)),
    )
}

/// The cores that a list names, in alphabetical order, each once.
pub open spec fn cores(raw: Seq<char>) -> Seq<Seq<char>> {
    names::sorted_set(listed_cores(raw))
}

fn make_core_name(cpu: u64) -> (r: Vec<char>)
    ensures
        r@ == core_name(cpu as nat),
{
    let mut out = String::from_str("cpu");
    let digits = write_u64(cpu);
    out.append(digits.as_str());
    chars_of(out.as_str())
}

/// Adds the cores that one item of a list names.
fn push_item_cores(out: &mut Vec<Vec<char>>, item: &[char])
    ensures
        text::views(final(out)@) == text::views(old(out)@) + item_cores(item@),
{
    broadcast use text::lemma_views_push;

    let ghost before = text::views(out@);
    if let Some(ends) = cut(item, "-") {
        let first = read_unsigned(ends.0, u32::MAX as u64);
        let last = read_unsigned(ends.1, u32::MAX as u64);
        if let Some(first) = first {
            if let Some(last) = last {
                if first <= last {
                    let ghost all = core_range(first as nat, last as nat);
                    let mut cpu: u64 = first;
                    assert(text::views(out@) =~= before + all.take(0));
                    while cpu <= last
                        invariant
                            first <= cpu <= last + 1,
                            last <= u32::MAX,
                            all == core_range(first as nat, last as nat),
                            text::views(out@) == before + all.take(cpu - first),
                        decreases last + 1 - cpu,
                    {
                        let name = make_core_name(cpu);
                        let ghost done = out@;
                        out.push(name);
                        assert(text::views(out@) == text::views(done).push(name@));
                        assert(text::views(out@) =~= before + all.take(cpu - first + 1));
                        cpu = cpu + 1;
                    }
                    assert(all.take(cpu - first) =~= all);
                    return;
                }
            }
        }
    } else if let Some(cpu) = read_unsigned(item, u32::MAX as u64) {
        let name = make_core_name(cpu);
        out.push(name);
        assert(text::views(out@) =~= before + item_cores(item@));
        return;
    }
    assert(text::views(out@) =~= before + item_cores(item@));
}

fn parse_cores(raw: &[char]) -> (r: Vec<String>)
    ensures
        text::views(r@) == cores(raw@),
{
    let items = split_at_class(raw, CharClass::ListBreak);
    let ghost all = text::split_on(raw@, CharClass::ListBreak);
    let ghost f = |item: Seq<char>| item_cores(text::trim(item));
    let mut listed: Vec<Vec<char>> = Vec::new();
    let mut i: usize = 0;
    assert(all.take(0) =~= Seq::empty());
    assert(all.take(0).flat_map(f) =~= Seq::empty());
    assert(text::views(listed@) =~= all.take(0).flat_map(f));
    while i < items.len()
        invariant
            i <= items@.len(),
            all == text::views(items@),
            f == (|item: Seq<char>| item_cores(text::trim(item))),
            text::views(listed@) == all.take(i as int).flat_map(f),
        decreases items@.len() - i,
    {
        proof {
            all.lemma_flat_map_take_append(f, i as int);
        }
        push_item_cores(&mut listed, trimmed(items[i]));
        i = i + 1;
    }
    assert(all.take(i as int) =~= all);
    let sorted = sort_names(listed);
    let mut out: Vec<String> = Vec::new();
    let mut k: usize = 0;
    while k < sorted.len()
        invariant
            k <= sorted@.len(),
            out@.len() == k,
            forall|j: int| 0 <= j < k ==> (#[trigger] out@[j])@ == sorted@[j]@,
        decreases sorted@.len() - k,
    {
        out.push(string_of(sorted[k].as_slice()));
        k = k + 1;
    }
    assert(text::views(out@) =~= text::views(sorted@));
    out
}

/// Reads the cores that a list names.
pub fn parse_related_cpu_set(raw: &str) -> (r: Vec<String>)
    ensures
        text::views(r@) == cores(raw@),
{
    let chars = chars_of(raw);
    parse_cores(chars.as_slice())
}

// ---------------------------------------------------------------------------
// Policies
// ---------------------------------------------------------------------------

/// The policy in a line of the form `policy<...>:<cores>`. A line that names no core gives none.
pub open spec fn group_line(line: Seq<char>) -> Option<(Seq<char>, Seq<Seq<char>>)> {
    match text::split_once(text::trim(line), ":"@) {
        Some(parts) => if "policy"@.is_prefix_of(parts.0) && cores(parts.1).len() > 0 {
            Some((text::trim(parts.0), cores(parts.1)))
        } else {
            None
        },
        None => None,
    }
}

/// The policies in a listing.
pub open spec fn groups(output: Seq<char>) -> Seq<(Seq<char>, Seq<Seq<char>>)> {
    text::lines(output).filter_map(|line: Seq<char>| group_line(line))
}

fn parse_group_line(line: &[char]) -> (r: Option<PolicyGroup>)
    ensures
        match r {
            Some(group) => group_line(line@) == Some(group@),
            None => group_line(line@) is None,
        },
{
    match cut(trimmed(line), ":") {
        Some(parts) => {
            if !has_prefix(parts.0, "policy") {
                return None;
            }
            let core_names = parse_cores(parts.1);
            assert(text::views(core_names@).len() == core_names@.len());
            if core_names.len() == 0 {
                return None;
            }
            Some(PolicyGroup { name: string_of(trimmed(parts.0)), core_names })
        },
        None => None,
    }
}

/// Reads the policies from a listing.
pub fn parse_policy_listing(output: &str) -> (r: Vec<PolicyGroup>)
    ensures
        text::views(r@) == groups(output@),
{
    broadcast use text::lemma_views_push;

    let chars = chars_of(output);
    let lines = split_lines(chars.as_slice());
    let ghost all = text::lines(output@);
    let ghost f = |line: Seq<char>| group_line(line);
    let mut out: Vec<PolicyGroup> = Vec::new();
    let mut i: usize = 0;
    assert(all.take(0) =~= Seq::empty());
    assert(text::views(out@) =~= all.take(0).filter_map(f));
    while i < lines.len()
        invariant
            i <= lines@.len(),
            all == text::views(lines@),
            text::views(out@) == all.take(i as int).filter_map(f),
            f == (|line: Seq<char>| group_line(line)),
        decreases lines@.len() - i,
    {
        proof {
            all.lemma_filter_map_take_succ(f, i as int);
        }
        let ghost before = out@;
        if let Some(group) = parse_group_line(lines[i]) {
            out.push(group);
            assert(text::views(out@) == text::views(before).push(group@));
        }
        i = i + 1;
    }
    assert(all.take(i as int) =~= all);
    out
}

// ---------------------------------------------------------------------------
// Tick counters
// ---------------------------------------------------------------------------

/// The sum of counters.
pub open spec fn sum(counters: Seq<nat>) -> nat
    decreases counters.len(),
{
    if counters.len() == 0 {
        0
    } else {
        sum(counters.drop_last()) + counters.last()
    }
}

/// The numbers that fields write, if each of them writes one.
pub open spec fn counters(fields: Seq<Seq<char>>) -> Option<Seq<nat>>
    decreases fields.len(),
{
    if fields.len() == 0 {
        Some(Seq::empty())
    } else {
        match (counters(fields.drop_last()), number::parse_unsigned(fields.last(), u64::MAX as nat)) {
            (Some(before), Some(n)) => Some(before.push(n)),
            _ => None,
        }
    }
}

/// Whether a field is the name of a single core: `cpu` and a number.
pub open spec fn is_core(field: Seq<char>) -> bool {
    match text::strip_prefix(field, "cpu"@) {
        Some(suffix) => suffix.len() > 0 && number::all_digits(suffix),
        None => false,
    }
}

/// The core and its counters in a line of the form `cpu<number> <counter> ...` with at least four
/// counters.
pub open spec fn stat_line(line: Seq<char>) -> Option<(Seq<char>, Seq<nat>)> {
    let fields = text::words(line);
    if fields.len() > 0 && is_core(fields[0]) {
        match counters(fields.skip(1)) {
            Some(values) => if values.len() >= 4 {
                Some((fields[0], values))
            } else {
                None
            },
            None => None,
        }
    } else {
        None
    }
}

/// Whether the counters of a line add up to a number that fits a counter.
pub open spec fn line_fits(line: Seq<char>) -> bool {
    stat_line(line) matches Some(row) ==> sum(row.1) <= u64::MAX
}

/// Whether the counters of every line add up to a number that fits a counter.
pub open spec fn fits(output: Seq<char>) -> bool {
    forall|i: int| 0 <= i < text::lines(output).len() ==> line_fits(#[trigger] text::lines(output)[i])
}

/// The idle and the total ticks of counters: the fourth counter is that of idle ticks, the fifth
/// that of ticks spent waiting for input and output.
pub open spec fn tick_of(values: Seq<nat>) -> CpuTick {
    CpuTick {
        total: sum(values) as u64,
        idle: (values[3] + if values.len() > 4 {
            values[4]
        } else {
            0
        }) as u64,
    }
}

/// The core and its tick counters in a line.
pub open spec fn tick_line(line: Seq<char>) -> Option<(Seq<char>, CpuTick)> {
    match stat_line(line) {
        Some(row) => Some((row.0, tick_of(row.1))),
        None => None,
    }
}

/// The tick counters of the cores, in the order in which they are printed.
pub open spec fn ticks(output: Seq<char>) -> Seq<(Seq<char>, CpuTick)> {
    text::lines(output).filter_map(|line: Seq<char>| tick_line(line))
}

/// A core and its tick counters.
pub open spec fn tick_view(row: (String, CpuTick)) -> (Seq<char>, CpuTick) {
    (row.0@, row.1)
}

/// Cores and their tick counters.
pub open spec fn tick_views(rows: Seq<(String, CpuTick)>) -> Seq<(Seq<char>, CpuTick)> {
    rows.map_values(|row: (String, CpuTick)| tick_view(row))
}

fn read_counters(fields: &Vec<&[char]>) -> (r: Option<Vec<u64>>)
    requires
        fields@.len() > 0,
    ensures
        match r {
            Some(values) => counters(text::views(fields@).skip(1)) == Some(
                values@.map_values(|v: u64| v as nat),
            ),
            None => counters(text::views(fields@).skip(1)) is None,
        },
{
    let ghost all = text::views(fields@).skip(1);
    let mut out: Vec<u64> = Vec::new();
    let mut i: usize = 1;
    assert(out@.map_values(|v: u64| v as nat) =~= Seq::empty());
    assert(all.take(0) =~= Seq::empty());
    while i < fields.len()
        invariant
            1 <= i <= fields@.len(),
            all == text::views(fields@).skip(1),
            counters(all.take(i - 1)) == Some(out@.map_values(|v: u64| v as nat)),
        decreases fields@.len() - i,
    {
        let ghost before = out@.map_values(|v: u64| v as nat);
        assert(all.take(i as int).drop_last() =~= all.take(i - 1));
        assert(all.take(i as int).last() == fields@[i as int]@);
        match read_unsigned(fields[i], u64::MAX) {
            Some(n) => {
                out.push(n);
                assert(out@.map_values(|v: u64| v as nat) =~= before.push(n as nat));
            },
            None => {
                proof {
                    lemma_counters_prefix(all, i as int);
                }
                return None;
            },
        }
        i = i + 1;
    }
    assert(all.take(i - 1) =~= all);
    Some(out)
}

/// Where the first fields do not all write numbers, neither do all fields.
proof fn lemma_counters_prefix(fields: Seq<Seq<char>>, n: int)
    requires
        0 <= n <= fields.len(),
        counters(fields.take(n)) is None,
    ensures
        counters(fields) is None,
    decreases fields.len(),
{
    if n < fields.len() {
        assert(fields.drop_last().take(n) =~= fields.take(n));
        lemma_counters_prefix(fields.drop_last(), n);
    } else {
        assert(fields.take(n) =~= fields);
    }
}

/// The first counters add up to no more than all of them.
proof fn lemma_sum_monotone(values: Seq<nat>, n: int)
    requires
        0 <= n <= values.len(),
    ensures
        sum(values.take(n)) <= sum(values),
    decreases values.len(),
{
    if n < values.len() {
        assert(values.drop_last().take(n) =~= values.take(n));
        lemma_sum_monotone(values.drop_last(), n);
    } else {
        assert(values.take(n) =~= values);
    }
}

/// Adds up counters, if the sum fits a counter.
fn add_up(values: &Vec<u64>) -> (r: Option<u64>)
    ensures
        match r {
            Some(total) => total == sum(values@.map_values(|v: u64| v as nat)),
            None => sum(values@.map_values(|v: u64| v as nat)) > u64::MAX,
        },
{
    let ghost all = values@.map_values(|v: u64| v as nat);
    let mut total: u64 = 0;
    let mut i: usize = 0;
    assert(all.take(0) =~= Seq::empty());
    while i < values.len()
        invariant
            i <= values@.len(),
            all == values@.map_values(|v: u64| v as nat),
            total == sum(all.take(i as int)),
        decreases values@.len() - i,
    {
        assert(all.take(i + 1).drop_last() =~= all.take(i as int));
        proof {
            lemma_sum_monotone(all, i + 1);
        }
        if values[i] > u64::MAX - total {
            return None;
        }
        total = total + values[i];
        i = i + 1;
    }
    assert(all.take(i as int) =~= all);
    Some(total)
}

fn is_core_field(field: &[char]) -> (r: bool)
    ensures
        r == is_core(field@),
{
    match after_prefix(field, "cpu") {
        Some(suffix) => {
            if suffix.len() == 0 {
                return false;
            }
            let mut i: usize = 0;
            while i < suffix.len()
                invariant
                    i <= suffix@.len(),
                    text::strip_prefix(field@, "cpu"@) == Some(suffix@),
                    forall|j: int| 0 <= j < i ==> text::is_digit(#[trigger] suffix@[j]),
                decreases suffix@.len() - i,
            {
                if !CharClass::Digit.test(suffix[i]) {
                    return false;
                }
                i = i + 1;
            }
            true
        },
        None => false,
    }
}

/// The core and its counters in a line.
fn read_stat_line<'a>(line: &'a [char]) -> (r: Option<(&'a [char], Vec<u64>)>)
    ensures
        match r {
            Some(row) => stat_line(line@) == Some((row.0@, row.1@.map_values(|v: u64| v as nat))),
            None => stat_line(line@) is None,
        },
{
    let fields = split_words(line);
    assert(text::views(fields@).len() == fields@.len());
    if fields.len() == 0 {
        return None;
    }
    assert(text::views(fields@)[0] == fields@[0]@);
    if !is_core_field(fields[0]) {
        return None;
    }
    match read_counters(&fields) {
        Some(values) => {
            assert(values@.map_values(|v: u64| v as nat).len() == values@.len());
            if values.len() < 4 {
                return None;
            }
            Some((fields[0], values))
        },
        None => None,
    }
}

/// Tests whether the counters of every line add up to a number that fits a counter.
pub fn cpu_stat_fits(output: &str) -> (r: bool)
    ensures
        r == fits(output@),
{
    let chars = chars_of(output);
    let lines = split_lines(chars.as_slice());
    let ghost all = text::lines(output@);
    let mut i: usize = 0;
    while i < lines.len()
        invariant
            i <= lines@.len(),
            all == text::lines(output@),
            all == text::views(lines@),
            forall|j: int| 0 <= j < i ==> line_fits(#[trigger] all[j]),
        decreases lines@.len() - i,
    {
        assert(all[i as int] == lines@[i as int]@);
        if let Some(row) = read_stat_line(lines[i]) {
            if add_up(&row.1).is_none() {
                assert(!line_fits(all[i as int]));
                return false;
            }
        }
        i = i + 1;
    }
    true
}

fn read_tick_line(line: &[char]) -> (r: Option<(String, CpuTick)>)
    requires
        line_fits(line@),
    ensures
        match r {
            Some(row) => tick_line(line@) == Some(tick_view(row)),
            None => tick_line(line@) is None,
        },
{
    match read_stat_line(line) {
        Some(row) => {
            let values = row.1;
            let ghost all = values@.map_values(|v: u64| v as nat);
            assert(all.len() == values@.len());
            match add_up(&values) {
                Some(total) => {
                    proof {
                        lemma_idle_fits(all);
                    }
                    let waiting: u64 = if values.len() > 4 {
                        values[4]
                    } else {
                        0
                    };
                    assert(all[3] == values@[3]);
                    let idle: u64 = values[3] + waiting;
                    Some((string_of(row.0), CpuTick { total, idle }))
                },
                None => None,
            }
        },
        None => None,
    }
}

/// The idle ticks are among all ticks.
proof fn lemma_idle_fits(values: Seq<nat>)
    requires
        values.len() >= 4,
    ensures
        values[3] + (if values.len() > 4 {
            values[4]
        } else {
            0
        }) <= sum(values),
{
    reveal_with_fuel(sum, 3);
    if values.len() > 4 {
        lemma_sum_monotone(values, 5);
        let five = values.take(5);
        assert(five.last() == values[4]);
        assert(five.drop_last().last() == values[3]);
    } else {
        assert(values.last() == values[3]);
    }
}

/// Reads the core and its tick counters from a line.
pub fn parse_cpu_line(line: &str) -> (r: Option<(String, CpuTick)>)
    requires
        line_fits(line@),
    ensures
        match r {
            Some(row) => tick_line(line@) == Some(tick_view(row)),
            None => tick_line(line@) is None,
        },
{
    let chars = chars_of(line);
    read_tick_line(chars.as_slice())
}

/// Reads the tick counters of the cores.
pub fn parse_cpu_stat(output: &str) -> (r: Vec<(String, CpuTick)>)
    requires
        fits(output@),
    ensures
        tick_views(r@) == ticks(output@),
{
    let chars = chars_of(output);
    let lines = split_lines(chars.as_slice());
    let ghost all = text::lines(output@);
    let ghost f = |line: Seq<char>| tick_line(line);
    let mut out: Vec<(String, CpuTick)> = Vec::new();
    let mut i: usize = 0;
    assert(all.take(0) =~= Seq::empty());
    assert(tick_views(out@) =~= all.take(0).filter_map(f));
    while i < lines.len()
        invariant
            i <= lines@.len(),
            fits(output@),
            all == text::lines(output@),
            all == text::views(lines@),
            tick_views(out@) == all.take(i as int).filter_map(f),
            f == (|line: Seq<char>| tick_line(line)),
        decreases lines@.len() - i,
    {
        proof {
            all.lemma_filter_map_take_succ(f, i as int);
            assert(line_fits(text::lines(output@)[i as int]));
            assert(all[i as int] == lines@[i as int]@);
        }
        let ghost before = out@;
        if let Some(row) = read_tick_line(lines[i]) {
            out.push(row);
            assert(tick_views(out@) =~= tick_views(before).push(tick_view(row)));
        }
        i = i + 1;
    }
    assert(all.take(i as int) =~= all);
    out
}

// ---------------------------------------------------------------------------
// Load
// ---------------------------------------------------------------------------

/// The ticks of a policy between two samples.
#[derive(Debug, Clone, Copy, PartialEq, Eq, Structural)]
pub struct Load {
    /// The ticks in which its cores were busy.
    pub busy: u64,
    /// All ticks of its cores.
    pub total: u64,
}

/// The counters of a row, if it is that of the given core.
pub open spec fn tick_if(row: (Seq<char>, CpuTick), core: Seq<char>) -> Option<CpuTick> {
    if row.0 == core {
        Some(row.1)
    } else {
        None
    }
}

/// The counters of a core; of several rows for one core the last counts.
pub open spec fn find_tick(rows: Seq<(Seq<char>, CpuTick)>, core: Seq<char>) -> Option<CpuTick> {
    text::last_some(rows, |row: (Seq<char>, CpuTick)| tick_if(row, core))
}

/// Whether there are counters of every core.
pub open spec fn has_all(rows: Seq<(Seq<char>, CpuTick)>, group: Seq<Seq<char>>) -> bool {
    forall|i: int| 0 <= i < group.len() ==> find_tick(rows, #[trigger] group[i]) is Some
}

/// All ticks of the cores.
pub open spec fn total_of(rows: Seq<(Seq<char>, CpuTick)>, group: Seq<Seq<char>>) -> nat
    decreases group.len(),
{
    if group.len() == 0 {
        0
    } else {
        total_of(rows, group.drop_last()) + (find_tick(rows, group.last())->0).total as nat
    }
}

/// The idle ticks of the cores.
pub open spec fn idle_of(rows: Seq<(Seq<char>, CpuTick)>, group: Seq<Seq<char>>) -> nat
    decreases group.len(),
{
    if group.len() == 0 {
        0
    } else {
        idle_of(rows, group.drop_last()) + (find_tick(rows, group.last())->0).idle as nat
    }
}

/// A number, or the largest counter where it does not fit.
pub open spec fn capped(n: nat) -> u64 {
    if n <= u64::MAX {
        n as u64
    } else {
        u64::MAX
    }
}

/// The load of the cores of a policy between two samples. There is none where a core is missing
/// from a sample or no tick has passed.
pub open spec fn load(
    group: Seq<Seq<char>>,
    current: Seq<(Seq<char>, CpuTick)>,
    previous: Seq<(Seq<char>, CpuTick)>,
) -> Option<Load> {
    if !has_all(current, group) || !has_all(previous, group) {
        None
    } else {
        let total = storage::minus(
            capped(total_of(current, group)),
            capped(total_of(previous, group)),
        );
        let idle = storage::minus(
            capped(idle_of(current, group)),
            capped(idle_of(previous, group)),
        );
        if total == 0 {
            None
        } else {
            Some(Load { busy: storage::minus(total, idle), total })
        }
    }
}

/// A load is a share: no more ticks were busy than passed, and some passed.
pub proof fn law_load_is_a_share(
    group: Seq<Seq<char>>,
    current: Seq<(Seq<char>, CpuTick)>,
    previous: Seq<(Seq<char>, CpuTick)>,
)
    ensures
        load(group, current, previous) matches Some(l) ==> l.busy <= l.total && l.total > 0,
{
}

/// Two equal samples show no load: nothing has passed between them.
pub proof fn law_no_load_without_ticks(group: Seq<Seq<char>>, rows: Seq<(Seq<char>, CpuTick)>)
    ensures
        load(group, rows, rows) is None,
{
}

fn lookup(rows: &Vec<(String, CpuTick)>, core: &str) -> (r: Option<CpuTick>)
    ensures
        r == find_tick(tick_views(rows@), core@),
{
    let ghost all = tick_views(rows@);
    let ghost f = |row: (Seq<char>, CpuTick)| tick_if(row, core@);
    let mut n: usize = rows.len();
    proof {
        text::lemma_last_some_at(all, f, all.len() as int);
    }
    while n > 0
        invariant
            n <= rows@.len(),
            all == tick_views(rows@),
            f == (|row: (Seq<char>, CpuTick)| tick_if(row, core@)),
            text::last_some(all, f) == text::last_some(all.take(n as int), f),
        decreases n,
    {
        proof {
            text::lemma_last_some_at(all, f, n as int);
        }
        let row = &rows[n - 1];
        assert(all[n - 1] == tick_view(*row));
        if text::same_str(row.0.as_str(), core) {
            return Some(row.1);
        }
        n = n - 1;
    }
    proof {
        text::lemma_last_some_at(all, f, 0);
    }
    None
}

/// The load of the cores of a policy between two samples.
pub fn policy_load(
    core_names: &Vec<String>,
    current: &Vec<(String, CpuTick)>,
    previous: &Vec<(String, CpuTick)>,
) -> (r: Option<Load>)
    ensures
        r == load(text::views(core_names@), tick_views(current@), tick_views(previous@)),
{
    let ghost group = text::views(core_names@);
    let ghost now = tick_views(current@);
    let ghost then = tick_views(previous@);
    let mut current_total: u64 = 0;
    let mut current_idle: u64 = 0;
    let mut previous_total: u64 = 0;
    let mut previous_idle: u64 = 0;
    let mut i: usize = 0;
    while i < core_names.len()
        invariant
            i <= core_names@.len(),
            group == text::views(core_names@),
            now == tick_views(current@),
            then == tick_views(previous@),
            forall|j: int|
                0 <= j < i ==> find_tick(now, #[trigger] group[j]) is Some && find_tick(
                    then,
                    group[j],
                ) is Some,
            current_total == capped(total_of(now, group.take(i as int))),
            current_idle == capped(idle_of(now, group.take(i as int))),
            previous_total == capped(total_of(then, group.take(i as int))),
            previous_idle == capped(idle_of(then, group.take(i as int))),
        decreases core_names@.len() - i,
    {
        let core = core_names[i].as_str();
        assert(core@ == group[i as int]);
        assert(group.take(i + 1).drop_last() =~= group.take(i as int));
        let current_tick = match lookup(current, core) {
            Some(tick) => tick,
            None => {
                assert(!has_all(now, group));
                return None;
            },
        };
        let previous_tick = match lookup(previous, core) {
            Some(tick) => tick,
            None => {
                assert(!has_all(then, group));
                return None;
            },
        };
        current_total = current_total.saturating_add(current_tick.total);
        current_idle = current_idle.saturating_add(current_tick.idle);
        previous_total = previous_total.saturating_add(previous_tick.total);
        previous_idle = previous_idle.saturating_add(previous_tick.idle);
        i = i + 1;
    }
    assert(group.take(i as int) =~= group);
    let total_delta: u64 = current_total.saturating_sub(previous_total);
    let idle_delta: u64 = current_idle.saturating_sub(previous_idle);
    if total_delta == 0 {
        return None;
    }
    Some(Load { busy: total_delta.saturating_sub(idle_delta), total: total_delta })
}

/// A rounded percentage within its range.
pub open spec fn percentage(rounded: i64) -> i64 {
    if rounded < 0 {
        0
    } else if rounded > 100 {
        100
    } else {
        rounded
    }
}

/// A percentage within its range stays, and others stop at its ends.
pub proof fn law_percentage(rounded: i64)
    ensures
        0 <= rounded <= 100 ==> percentage(rounded) == rounded,
        rounded <= 0 ==> percentage(rounded) == 0,
        rounded >= 100 ==> percentage(rounded) == 100,
{
}

/// A rounded percentage within its range.
pub fn clamp_percentage(rounded: i64) -> (r: i64)
    ensures
        r == percentage(rounded),
        0 <= r <= 100,
{
    if rounded < 0 {
        0
    } else if rounded > 100 {
        100
    } else {
        rounded
    }
}

// ---------------------------------------------------------------------------
// What loads and counters mean
// ---------------------------------------------------------------------------

/// The sum of a list of numbers.
pub open spec fn summed(numbers: Seq<int>) -> int {
    numbers.fold_left(0int, |a: int, b: int| a + b)
}

/// By how much all ticks of the cores grew from one sample to another.
pub open spec fn total_growth(now: Seq<CpuTick>, earlier: Seq<CpuTick>) -> int {
    summed(Seq::new(now.len(), |i: int| now[i].total - earlier[i].total))
}

/// By how much the idle ticks of the cores grew from one sample to another.
pub open spec fn idle_growth(now: Seq<CpuTick>, earlier: Seq<CpuTick>) -> int {
    summed(Seq::new(now.len(), |i: int| now[i].idle - earlier[i].idle))
}

/// Whether a sample holds the given counters of the cores, and their sums are counters too.
pub open spec fn shows(
    rows: Seq<(Seq<char>, CpuTick)>,
    group: Seq<Seq<char>>,
    counters: Seq<CpuTick>,
) -> bool {
    &&& counters.len() == group.len()
    &&& forall|i: int|
        0 <= i < group.len() ==> find_tick(rows, #[trigger] group[i]) == Some(counters[i])
    &&& summed(Seq::new(counters.len(), |i: int| counters[i].total as int)) <= u64::MAX
    &&& summed(Seq::new(counters.len(), |i: int| counters[i].idle as int)) <= u64::MAX
}

proof fn lemma_summed_push(numbers: Seq<int>, n: int)
    ensures
        summed(numbers.push(n)) == summed(numbers) + n,
        summed(Seq::<int>::empty()) == 0,
{
    assert(numbers.push(n).drop_last() =~= numbers);
}

proof fn lemma_sums(
    rows: Seq<(Seq<char>, CpuTick)>,
    group: Seq<Seq<char>>,
    counters: Seq<CpuTick>,
)
    requires
        counters.len() == group.len(),
        forall|i: int|
            0 <= i < group.len() ==> find_tick(rows, #[trigger] group[i]) == Some(counters[i]),
    ensures
        total_of(rows, group) == summed(
            Seq::new(counters.len(), |i: int| counters[i].total as int),
        ),
        idle_of(rows, group) == summed(
            Seq::new(counters.len(), |i: int| counters[i].idle as int),
        ),
    decreases group.len(),
{
    let totals = Seq::new(counters.len(), |i: int| counters[i].total as int);
    let idles = Seq::new(counters.len(), |i: int| counters[i].idle as int);
    if group.len() == 0 {
        assert(totals =~= Seq::empty());
        assert(idles =~= Seq::empty());
        lemma_summed_push(totals, 0);
    } else {
        let g = group.drop_last();
        let c = counters.drop_last();
        assert forall|i: int| 0 <= i < g.len() implies find_tick(rows, #[trigger] g[i]) == Some(
            c[i],
        ) by {
            assert(g[i] == group[i]);
        }
        lemma_sums(rows, g, c);
        let t = Seq::new(c.len(), |i: int| c[i].total as int);
        let d = Seq::new(c.len(), |i: int| c[i].idle as int);
        assert(totals =~= t.push(counters.last().total as int));
        assert(idles =~= d.push(counters.last().idle as int));
        lemma_summed_push(t, counters.last().total as int);
        lemma_summed_push(d, counters.last().idle as int);
        assert(find_tick(rows, group[group.len() - 1]) == Some(counters.last()));
    }
}

proof fn lemma_growth(now: Seq<CpuTick>, earlier: Seq<CpuTick>)
    requires
        now.len() == earlier.len(),
    ensures
        total_growth(now, earlier) == summed(Seq::new(now.len(), |i: int| now[i].total as int))
            - summed(Seq::new(earlier.len(), |i: int| earlier[i].total as int)),
        idle_growth(now, earlier) == summed(Seq::new(now.len(), |i: int| now[i].idle as int))
            - summed(Seq::new(earlier.len(), |i: int| earlier[i].idle as int)),
    decreases now.len(),
{
    let n = now.len();
    let totals = Seq::new(n, |i: int| now[i].total - earlier[i].total);
    let idles = Seq::new(n, |i: int| now[i].idle - earlier[i].idle);
    let tn = Seq::new(n, |i: int| now[i].total as int);
    let te = Seq::new(n, |i: int| earlier[i].total as int);
    let dn = Seq::new(n, |i: int| now[i].idle as int);
    let de = Seq::new(n, |i: int| earlier[i].idle as int);
    if n == 0 {
        assert(totals =~= Seq::empty());
        assert(idles =~= Seq::empty());
        assert(tn =~= Seq::empty());
        assert(te =~= Seq::empty());
        assert(dn =~= Seq::empty());
        assert(de =~= Seq::empty());
    } else {
        let a = now.drop_last();
        let b = earlier.drop_last();
        let m = a.len();
        lemma_growth(a, b);
        let x = now.last();
        let y = earlier.last();
        assert(totals =~= Seq::new(m, |i: int| a[i].total - b[i].total).push(x.total - y.total));
        assert(idles =~= Seq::new(m, |i: int| a[i].idle - b[i].idle).push(x.idle - y.idle));
        assert(tn =~= Seq::new(m, |i: int| a[i].total as int).push(x.total as int));
        assert(te =~= Seq::new(m, |i: int| b[i].total as int).push(y.total as int));
        assert(dn =~= Seq::new(m, |i: int| a[i].idle as int).push(x.idle as int));
        assert(de =~= Seq::new(m, |i: int| b[i].idle as int).push(y.idle as int));
        lemma_summed_push(
            Seq::new(m, |i: int| a[i].total - b[i].total),
            x.total - y.total,
        );
        lemma_summed_push(Seq::new(m, |i: int| a[i].idle - b[i].idle), x.idle - y.idle);
        lemma_summed_push(Seq::new(m, |i: int| a[i].total as int), x.total as int);
        lemma_summed_push(Seq::new(m, |i: int| b[i].total as int), y.total as int);
        lemma_summed_push(Seq::new(m, |i: int| a[i].idle as int), x.idle as int);
        lemma_summed_push(Seq::new(m, |i: int| b[i].idle as int), y.idle as int);
    }
}

/// Busy and idle ticks make up all ticks: where the counters of the cores grew, the load is what
/// they grew by without the idle ticks, of all that they grew by. No growth shows no load. Idle
/// counters that fell back count as no idle ticks, and those that grew by more than all ticks as
/// all of them.
pub proof fn law_busy_and_idle_make_up_all(
    group: Seq<Seq<char>>,
    current: Seq<(Seq<char>, CpuTick)>,
    previous: Seq<(Seq<char>, CpuTick)>,
    now: Seq<CpuTick>,
    earlier: Seq<CpuTick>,
)
    requires
        shows(current, group, now),
        shows(previous, group, earlier),
    ensures
        total_growth(now, earlier) <= 0 ==> load(group, current, previous) is None,
        total_growth(now, earlier) > 0 ==> (load(group, current, previous) matches Some(l)
            && l.total == total_growth(now, earlier) && (0 <= idle_growth(now, earlier)
            <= total_growth(now, earlier) ==> l.busy + idle_growth(now, earlier) == l.total) && (
        idle_growth(now, earlier) < 0 ==> l.busy == l.total) && (idle_growth(now, earlier)
            > total_growth(now, earlier) ==> l.busy == 0)),
{
    lemma_sums(current, group, now);
    lemma_sums(previous, group, earlier);
    lemma_growth(now, earlier);
}

/// The more of its ticks a policy was idle, the lower its load: by as many ticks as it was idle
/// longer.
pub proof fn law_load_falls_with_idle_ticks(
    group: Seq<Seq<char>>,
    a: Seq<(Seq<char>, CpuTick)>,
    b: Seq<(Seq<char>, CpuTick)>,
    previous: Seq<(Seq<char>, CpuTick)>,
    now_a: Seq<CpuTick>,
    now_b: Seq<CpuTick>,
    earlier: Seq<CpuTick>,
)
    requires
        shows(a, group, now_a),
        shows(b, group, now_b),
        shows(previous, group, earlier),
        total_growth(now_a, earlier) == total_growth(now_b, earlier) > 0,
        0 <= idle_growth(now_a, earlier) <= idle_growth(now_b, earlier) <= total_growth(
            now_b,
            earlier,
        ),
    ensures
        load(group, a, previous) matches Some(la) && load(group, b, previous) matches Some(lb)
            && la.total == lb.total && la.busy - lb.busy == idle_growth(now_b, earlier)
            - idle_growth(now_a, earlier),
{
    law_busy_and_idle_make_up_all(group, a, previous, now_a, earlier);
    law_busy_and_idle_make_up_all(group, b, previous, now_b, earlier);
}

/// A policy whose cores were idle throughout has no busy tick, and one whose cores were never idle
/// was busy throughout.
pub proof fn law_idle_and_busy_throughout(
    group: Seq<Seq<char>>,
    current: Seq<(Seq<char>, CpuTick)>,
    previous: Seq<(Seq<char>, CpuTick)>,
    now: Seq<CpuTick>,
    earlier: Seq<CpuTick>,
)
    requires
        shows(current, group, now),
        shows(previous, group, earlier),
        total_growth(now, earlier) > 0,
    ensures
        (forall|i: int|
            0 <= i < now.len() ==> (#[trigger] now[i]).idle - earlier[i].idle == now[i].total
                - earlier[i].total) ==> (load(group, current, previous) matches Some(l) && l.busy
            == 0),
        (forall|i: int| 0 <= i < now.len() ==> (#[trigger] now[i]).idle == earlier[i].idle) ==> (
        load(group, current, previous) matches Some(l) && l.busy == l.total),
{
    law_busy_and_idle_make_up_all(group, current, previous, now, earlier);
    let totals = Seq::new(now.len(), |i: int| now[i].total - earlier[i].total);
    let idles = Seq::new(now.len(), |i: int| now[i].idle - earlier[i].idle);
    if forall|i: int|
        0 <= i < now.len() ==> (#[trigger] now[i]).idle - earlier[i].idle == now[i].total
            - earlier[i].total {
        assert(idles =~= totals);
    }
    if forall|i: int| 0 <= i < now.len() ==> (#[trigger] now[i]).idle == earlier[i].idle {
        lemma_sum_of_zeros(idles);
    }
}

proof fn lemma_sum_of_zeros(numbers: Seq<int>)
    requires
        forall|i: int| 0 <= i < numbers.len() ==> numbers[i] == 0,
    ensures
        summed(numbers) == 0,
    decreases numbers.len(),
{
    if numbers.len() > 0 {
        lemma_sum_of_zeros(numbers.drop_last());
        lemma_summed_push(numbers.drop_last(), 0);
        assert(numbers.drop_last().push(0) =~= numbers);
    }
}

/// A policy has a load only where both samples have all of its cores.
pub proof fn law_load_needs_every_core(
    group: Seq<Seq<char>>,
    current: Seq<(Seq<char>, CpuTick)>,
    previous: Seq<(Seq<char>, CpuTick)>,
    i: int,
)
    requires
        0 <= i < group.len(),
        find_tick(current, group[i]) is None || find_tick(previous, group[i]) is None,
    ensures
        load(group, current, previous) is None,
{
}

/// The last row of a core gives its counters, and rows of other cores do not matter.
pub proof fn law_last_row_counts(
    rows: Seq<(Seq<char>, CpuTick)>,
    core: Seq<char>,
    other: Seq<char>,
    tick: CpuTick,
)
    ensures
        find_tick(rows.push((core, tick)), core) == Some(tick),
        other != core ==> find_tick(rows.push((other, tick)), core) == find_tick(rows, core),
        find_tick(Seq::empty(), core) is None,
{
    assert(rows.push((core, tick)).drop_last() =~= rows);
    assert(rows.push((other, tick)).drop_last() =~= rows);
}

/// A printed line of counters gives the core, the sum of all counters, and the sum of the fourth
/// and the fifth as the idle ticks.
pub proof fn law_printed_counters(cpu: nat, values: Seq<nat>)
    requires
        values.len() >= 4,
        forall|i: int| 0 <= i < values.len() ==> (#[trigger] values[i]) <= u64::MAX,
        summed(values.map_values(|v: nat| v as int)) <= u64::MAX,
    ensures
        ({
            let fields = seq!["cpu"@ + number::decimal(cpu)] + values.map_values(
                |v: nat| number::decimal(v),
            );
            tick_line(text::join(fields, seq![' '])) matches Some(row) && row.0 == "cpu"@
                + number::decimal(cpu) && row.1.total == summed(
                values.map_values(|v: nat| v as int),
            ) && row.1.idle == values[3] + if values.len() > 4 {
                values[4]
            } else {
                0
            }
        }),
{
    let decimals = values.map_values(|v: nat| number::decimal(v));
    let core = "cpu"@ + number::decimal(cpu);
    let fields = seq![core] + decimals;
    reveal_strlit("cpu");
    number::lemma_decimal(cpu);
    assert forall|i: int| 0 <= i < fields.len() implies (#[trigger] fields[i]).len() > 0
        && text::is_free_of(fields[i], CharClass::White) by {
        if i > 0 {
            number::lemma_decimal(values[i - 1]);
            power_supply::lemma_decimal_has_no_white(values[i - 1] as int);
        } else {
            power_supply::lemma_decimal_has_no_white(cpu as int);
        }
    }
    text::law_joined_words(fields);
    text::law_strip(number::decimal(cpu), "cpu"@);
    assert(fields.skip(1) =~= decimals);
    lemma_counters_of_decimals(values);
    lemma_sum_is_summed(values);
    lemma_idle_fits(values);
}

proof fn lemma_counters_of_decimals(values: Seq<nat>)
    requires
        forall|i: int| 0 <= i < values.len() ==> (#[trigger] values[i]) <= u64::MAX,
    ensures
        counters(values.map_values(|v: nat| number::decimal(v))) == Some(values),
    decreases values.len(),
{
    let decimals = values.map_values(|v: nat| number::decimal(v));
    if values.len() > 0 {
        let before = values.drop_last();
        assert forall|i: int| 0 <= i < before.len() implies (#[trigger] before[i])
            <= u64::MAX by {
            assert(before[i] == values[i]);
        }
        lemma_counters_of_decimals(before);
        assert(decimals.drop_last() =~= before.map_values(|v: nat| number::decimal(v)));
        assert(values[values.len() - 1] <= u64::MAX);
        number::law_parse_decimal(values.last(), u64::MAX as nat);
        assert(before.push(values.last()) =~= values);
    } else {
        assert(decimals =~= Seq::empty());
        assert(values =~= Seq::empty());
    }
}

proof fn lemma_sum_is_summed(values: Seq<nat>)
    ensures
        sum(values) == summed(values.map_values(|v: nat| v as int)),
    decreases values.len(),
{
    let numbers = values.map_values(|v: nat| v as int);
    if values.len() > 0 {
        lemma_sum_is_summed(values.drop_last());
        let before = values.drop_last().map_values(|v: nat| v as int);
        lemma_summed_push(before, values.last() as int);
        assert(before.push(values.last() as int) =~= numbers);
    } else {
        assert(numbers =~= Seq::empty());
    }
}

/// The rows of the counters and the policies of a listing are those of the lines, in their order.
pub proof fn law_rows_in_order(line: Seq<char>, rest: Seq<char>)
    requires
        text::is_free_of(line, CharClass::One('\n')),
        line.len() == 0 || line.last() != '\r',
    ensures
        ticks(line + seq!['\n'] + rest) == match tick_line(line) {
            Some(row) => seq![row] + ticks(rest),
            None => ticks(rest),
        },
        groups(line + seq!['\n'] + rest) == match group_line(line) {
            Some(group) => seq![group] + groups(rest),
            None => groups(rest),
        },
        ticks(Seq::empty()).len() == 0,
        groups(Seq::empty()).len() == 0,
{
    text::law_lines_give_in_order(line, rest, |line: Seq<char>| tick_line(line));
    text::law_lines_give_in_order(line, rest, |line: Seq<char>| group_line(line));
}

/// The line that sums up all cores is not a core's.
pub proof fn law_summary_line_is_no_core(rest: Seq<char>)
    ensures
        tick_line("cpu "@ + rest) is None,
        tick_line("intr "@ + rest) is None,
{
    reveal_strlit("cpu");
    reveal_strlit("cpu ");
    reveal_strlit("intr ");
    let cpu = seq!['c', 'p', 'u'];
    let intr = seq!['i', 'n', 't', 'r'];
    text::law_words(cpu, ' ', rest);
    text::law_words(intr, ' ', rest);
    assert("cpu "@ + rest =~= cpu + seq![' '] + rest);
    assert("intr "@ + rest =~= intr + seq![' '] + rest);
    assert(!"cpu"@.is_prefix_of(intr)) by {
        assert("cpu"@[0] != intr[0]);
    }
}

/// A printed range names all cores from its first number to its last, and a printed number its
/// core.
pub proof fn law_printed_items(first: nat, last: nat)
    requires
        first <= last <= u32::MAX,
    ensures
        item_cores(number::decimal(first)) == seq!["cpu"@ + number::decimal(first)],
        item_cores(number::decimal(first) + "-"@ + number::decimal(last)).len() == last - first + 1,
        forall|n: nat|
            first <= n <= last ==> item_cores(
                number::decimal(first) + "-"@ + number::decimal(last),
            )[n - first] == "cpu"@ + #[trigger] number::decimal(n),
{
    reveal_strlit("-");
    number::lemma_decimal(first);
    number::lemma_decimal(last);
    assert("-"@ =~= seq!['-']);
    text::law_split_once(number::decimal(first), '-', number::decimal(last));
    number::law_parse_decimal(first, u32::MAX as nat);
    number::law_parse_decimal(last, u32::MAX as nat);
}

/// A list names the cores of its first item and those of the rest; the order of the names is that
/// of the list.
pub proof fn law_listed_items(item: Seq<char>, separator: char, rest: Seq<char>)
    requires
        text::is_free_of(item, CharClass::ListBreak),
        CharClass::ListBreak.holds(separator),
    ensures
        listed_cores(item) == item_cores(text::trim(item)),
        listed_cores(item + seq![separator] + rest) == item_cores(text::trim(item)) + listed_cores(
            rest,
        ),
{
    let f = |item: Seq<char>| item_cores(text::trim(item));
    text::law_split_on(item, separator, rest, CharClass::ListBreak);
    let behind = text::split_on(rest, CharClass::ListBreak);
    lemma_flat_map_first(item, behind, f);
    lemma_flat_map_first(item, Seq::empty(), f);
    assert(seq![item] + Seq::<Seq<char>>::empty() =~= seq![item]);
}

proof fn lemma_flat_map_first(
    first: Seq<char>,
    rest: Seq<Seq<char>>,
    f: spec_fn(Seq<char>) -> Seq<Seq<char>>,
)
    ensures
        (seq![first] + rest).flat_map(f) == f(first) + rest.flat_map(f),
    decreases rest.len(),
{
    let all = seq![first] + rest;
    if rest.len() == 0 {
        assert(all =~= Seq::<Seq<char>>::empty().push(first));
        Seq::<Seq<char>>::empty().lemma_flat_map_push(f, first);
        assert(rest.flat_map(f) =~= Seq::empty());
        assert(Seq::<Seq<char>>::empty().flat_map(f) =~= Seq::empty());
        assert(all.flat_map(f) =~= f(first) + rest.flat_map(f));
    } else {
        let before = rest.drop_last();
        lemma_flat_map_first(first, before, f);
        assert(all =~= (seq![first] + before).push(rest.last()));
        (seq![first] + before).lemma_flat_map_push(f, rest.last());
        assert(rest =~= before.push(rest.last()));
        before.lemma_flat_map_push(f, rest.last());
        assert(all.flat_map(f) =~= f(first) + rest.flat_map(f));
    }
}

/// A line of a policy's name, a colon and a list of cores gives that policy with the cores of the
/// list. A list without cores gives none.
pub proof fn law_policy_lines(suffix: Seq<char>, list: Seq<char>)
    requires
        text::is_free_of(suffix, CharClass::White),
        text::is_free_of(suffix, CharClass::One(':')),
        list.len() > 0,
        !text::is_white(list.last()),
    ensures
        group_line("policy"@ + suffix + ":"@ + list) == if cores(list).len() > 0 {
            Some(("policy"@ + suffix, cores(list)))
        } else {
            None
        },
{
    reveal_strlit("policy");
    reveal_strlit(":");
    let name = "policy"@ + suffix;
    let line = name + ":"@ + list;
    assert(":"@ =~= seq![':']);
    assert forall|i: int| 0 <= i < name.len() implies !CharClass::One(':').holds(
        #[trigger] name[i],
    ) && !text::is_white(name[i]) by {
        if i >= 6 {
            assert(name[i] == suffix[i - 6]);
            assert(!CharClass::One(':').holds(suffix[i - 6]));
            assert(!CharClass::White.holds(suffix[i - 6]));
        }
    }
    text::lemma_trim_nothing(line);
    text::lemma_trim_nothing(name);
    text::law_split_once(name, ':', list);
    assert("policy"@.is_prefix_of(name));
}

// ---------------------------------------------------------------------------
// The profiler
// ---------------------------------------------------------------------------

/// The collector of one policy: what it is and its latest value.
#[derive(Debug)]
pub struct CpuUsageCollector {
    metadata: CollectorMetadata,
    value_percent: i64,
}

/// The collector of one policy, abstractly.
pub struct UsageReading {
    /// What the registry is told of the collector.
    pub described: (Seq<char>, Seq<char>, nat),
    /// The latest value.
    pub value: i64,
}

impl View for CpuUsageCollector {
    type V = UsageReading;

    closed spec fn view(&self) -> UsageReading {
        UsageReading { described: self.metadata@, value: self.value_percent }
    }
}

/// The collector of the policy at a place in the listing, without a value.
pub open spec fn fresh_reading(name: Seq<char>, order: nat) -> UsageReading {
    UsageReading { described: (name, UNIT_PERCENT@, order), value: INVALID_METRIC_VALUE }
}

/// The collectors of policies, without values.
pub open spec fn fresh_readings(listed: Seq<(Seq<char>, Seq<Seq<char>>)>) -> Seq<UsageReading> {
    Seq::new(listed.len(), |i: int| fresh_reading(listed[i].0, i as nat))
}

/// The same collector with another value.
pub open spec fn with_value(reading: UsageReading, value: i64) -> UsageReading {
    UsageReading { value, ..reading }
}

/// The same collectors with other values.
pub open spec fn with_values(readings: Seq<UsageReading>, values: Seq<i64>) -> Seq<UsageReading> {
    Seq::new(readings.len(), |i: int| with_value(readings[i], values[i]))
}

/// The same collectors without values.
pub open spec fn all_invalid(readings: Seq<UsageReading>) -> Seq<UsageReading> {
    readings.map_values(|reading: UsageReading| with_value(reading, INVALID_METRIC_VALUE))
}

/// What the registry is told of the collectors.
pub open spec fn descriptions(readings: Seq<UsageReading>) -> Seq<(Seq<char>, Seq<char>, nat)> {
    readings.map_values(|reading: UsageReading| reading.described)
}

/// The latest values.
pub open spec fn values_of(readings: Seq<UsageReading>) -> Seq<i64> {
    readings.map_values(|reading: UsageReading| reading.value)
}

/// A sample gives each policy the value at its place and changes nothing else of the policies;
/// a failed one leaves no policy a value.
pub proof fn law_values_are_stored(readings: Seq<UsageReading>, values: Seq<i64>, i: int)
    requires
        values.len() == readings.len(),
        0 <= i < readings.len(),
    ensures
        values_of(with_values(readings, values)) == values,
        descriptions(with_values(readings, values)) == descriptions(readings),
        values_of(all_invalid(readings))[i] == INVALID_METRIC_VALUE,
        descriptions(all_invalid(readings)) == descriptions(readings),
{
    assert(values_of(with_values(readings, values)) =~= values);
    assert(descriptions(with_values(readings, values)) =~= descriptions(readings));
    assert(descriptions(all_invalid(readings)) =~= descriptions(readings));
}

/// A listing gives each policy a collector at its place, named for it and without a value.
pub proof fn law_listed_policies_get_collectors(
    listed: Seq<(Seq<char>, Seq<Seq<char>>)>,
    i: int,
)
    requires
        0 <= i < listed.len(),
    ensures
        fresh_readings(listed).len() == listed.len(),
        fresh_readings(listed)[i].value == INVALID_METRIC_VALUE,
        descriptions(fresh_readings(listed))[i] == (listed[i].0, "%"@, i as nat),
{
}

impl CpuUsageCollector {
    /// The collector of a policy, without a value.
    fn new(collector_key: String, order: usize) -> (r: Result<CpuUsageCollector, CoreError>)
        ensures
            r is Ok <==> collector_key@.len() > 0,
            r matches Ok(c) ==> c@ == fresh_reading(collector_key@, order as nat),
    {
        proof {
            reveal_strlit("%");
        }
        match CollectorMetadata::new(collector_key, UNIT_PERCENT, order) {
            Ok(metadata) => Ok(
                CpuUsageCollector { metadata, value_percent: INVALID_METRIC_VALUE },
            ),
            Err(e) => Err(e),
        }
    }
}

/// The profiler of the CPU utilisation.
#[derive(Debug)]
pub struct CpuUsageProfiler {
    serial: Option<String>,
    sample_interval_ns: u64,
    metadata: ProfilerMetadata,
    policies: Vec<PolicyGroup>,
    collectors: Vec<CpuUsageCollector>,
    previous: Option<Vec<(String, CpuTick)>>,
    link: Link,
}

/// What the profiler holds, abstractly.
pub struct UsageState {
    /// The serial number of the device, where one is chosen.
    pub serial: Option<Seq<char>>,
    /// The interval between samples, in nanoseconds.
    pub sample_interval_ns: u64,
    /// What the registry is told of the profiler.
    pub described: (Seq<char>, Seq<(Seq<char>, Seq<char>, nat)>),
    /// The policies and their cores.
    pub policies: Seq<(Seq<char>, Seq<Seq<char>>)>,
    /// The collectors, one for each policy.
    pub readings: Seq<UsageReading>,
    /// The counters of the latest sample, if there was one.
    pub previous: Option<Seq<(Seq<char>, CpuTick)>>,
    /// The connection and the sampler.
    pub link: Link,
}

/// The counters of a sample, if there was one.
pub open spec fn sample_view(previous: Option<Vec<(String, CpuTick)>>) -> Option<
    Seq<(Seq<char>, CpuTick)>,
> {
    match previous {
        Some(rows) => Some(tick_views(rows@)),
        None => None,
    }
}

/// What the registry is told of a profiler that has not been connected.
pub open spec fn initial_description() -> (Seq<char>, Seq<(Seq<char>, Seq<char>, nat)>) {
    (PROFILER_KEY@, seq![("policy0"@, UNIT_PERCENT@, 0nat)])
}

/// The message for a device without frequency policies.
pub open spec fn no_policy_text() -> &'static str {
    "no readable CPU usage policy was found on the target device"
}

impl View for CpuUsageProfiler {
    type V = UsageState;

    closed spec fn view(&self) -> UsageState {
        UsageState {
            serial: text::optional(self.serial),
            sample_interval_ns: self.sample_interval_ns,
            described: self.metadata@,
            policies: text::views(self.policies@),
            readings: text::views(self.collectors@),
            previous: sample_view(self.previous),
            link: self.link,
        }
    }
}

impl UsageState {
    /// What always holds of the profiler: a sampler is there only on a connection, a connection
    /// only with policies, there is one collector for each policy, and what the registry is told
    /// of the profiler fits its collectors, where it has some.
    pub open spec fn wf(self) -> bool {
        &&& self.link.wf()
        &&& self.link.connected ==> self.policies.len() > 0
        &&& self.policies.len() == self.readings.len()
        &&& self.described.0 == PROFILER_KEY@
        &&& self.readings.len() > 0 ==> self.described.1 == descriptions(self.readings)
        &&& forall|i: int|
            0 <= i < self.readings.len() ==> (#[trigger] self.readings[i]).described == (
                self.policies[i].0,
                UNIT_PERCENT@,
                i as nat,
            )
    }

    /// The loads of the policies that a reply shows, where there is something to compare it with.
    pub open spec fn loads(self, reply: Result<String, CoreError>) -> Seq<Option<Load>> {
        Seq::new(
            self.policies.len(),
            |i: int|
                match (reply, self.previous) {
                    (Ok(output), Some(previous)) => if ticks(output@).len() > 0 {
                        load(self.policies[i].1, ticks(output@), previous)
                    } else {
                        None
                    },
                    _ => None,
                },
        )
    }

    /// The counters to compare the next sample with: those of the reply, if it has any.
    pub open spec fn remembered(self, reply: Result<String, CoreError>) -> Option<
        Seq<(Seq<char>, CpuTick)>,
    > {
        match reply {
            Ok(output) => if ticks(output@).len() > 0 {
                Some(ticks(output@))
            } else {
                self.previous
            },
            Err(_) => self.previous,
        }
    }

    /// The values that a reply leads to, with the loads as rounded percentages.
    pub open spec fn values(self, reply: Result<String, CoreError>, rounded: Seq<i64>) -> Seq<i64> {
        Seq::new(
            self.policies.len(),
            |i: int|
                if self.loads(reply)[i] is Some {
                    percentage(rounded[i])
                } else {
                    INVALID_METRIC_VALUE
                },
        )
    }
}

/// Gives new values to collectors.
fn store_values(collectors: &mut Vec<CpuUsageCollector>, values: &Vec<i64>)
    requires
        old(collectors)@.len() == values@.len(),
    ensures
        text::views(final(collectors)@) == with_values(text::views(old(collectors)@), values@),
{
    let ghost before = text::views(collectors@);
    let mut i: usize = 0;
    while i < collectors.len()
        invariant
            i <= collectors@.len(),
            before.len() == collectors@.len(),
            before.len() == values@.len(),
            forall|j: int|
                0 <= j < i ==> (#[trigger] collectors@[j])@ == with_value(before[j], values@[j]),
            forall|j: int| i <= j < before.len() ==> (#[trigger] collectors@[j])@ == before[j],
        decreases collectors@.len() - i,
    {
        collectors[i].value_percent = values[i];
        i = i + 1;
    }
    assert(text::views(collectors@) =~= with_values(before, values@));
}

/// Makes all values invalid.
fn mark_all_invalid(collectors: &mut Vec<CpuUsageCollector>)
    ensures
        text::views(final(collectors)@) == all_invalid(text::views(old(collectors)@)),
{
    let ghost before = text::views(collectors@);
    let mut i: usize = 0;
    while i < collectors.len()
        invariant
            i <= collectors@.len(),
            before.len() == collectors@.len(),
            forall|j: int|
                0 <= j < i ==> (#[trigger] collectors@[j])@ == with_value(
                    before[j],
                    INVALID_METRIC_VALUE,
                ),
            forall|j: int| i <= j < before.len() ==> (#[trigger] collectors@[j])@ == before[j],
        decreases collectors@.len() - i,
    {
        collectors[i].value_percent = INVALID_METRIC_VALUE;
        i = i + 1;
    }
    assert(text::views(collectors@) =~= all_invalid(before));
}

/// A name that begins with a letter is not empty without the white space around it.
proof fn lemma_policy_name_is_not_empty(name: Seq<char>)
    requires
        "policy"@.is_prefix_of(name),
    ensures
        text::trim(name).len() > 0,
{
    reveal_strlit("policy");
    assert(name[0] == "policy"@[0]);
    assert(!text::is_white(name[0]));
    assert(text::trim_start_of(name, CharClass::White) == name);
    lemma_trim_end_keeps_first(name);
}

proof fn lemma_trim_end_keeps_first(s: Seq<char>)
    requires
        s.len() > 0,
        !text::is_white(s[0]),
    ensures
        text::trim_end_of(s, CharClass::White).len() > 0,
    decreases s.len(),
{
    if text::is_white(s.last()) {
        lemma_trim_end_keeps_first(s.drop_last());
    }
}

/// Every policy in a listing has a name and a core.
pub proof fn law_groups_are_named(output: Seq<char>)
    ensures
        forall|i: int|
            0 <= i < groups(output).len() ==> (#[trigger] groups(output)[i]).0.len() > 0 && groups(
                output,
            )[i].1.len() > 0,
{
    let all = text::lines(output);
    let f = |line: Seq<char>| group_line(line);
    assert forall|i: int| 0 <= i < groups(output).len() implies (#[trigger] groups(output)[i]).0.len()
        > 0 && groups(output)[i].1.len() > 0 by {
        let group = groups(output)[i];
        assert(all.filter_map(f).contains(group));
        all.lemma_filter_map_contains(f, group);
        let line = choose|line: Seq<char>| #[trigger] all.contains(line) && f(line) == Some(group);
        if let Some(parts) = text::split_once(text::trim(line), ":"@) {
            if "policy"@.is_prefix_of(parts.0) {
                lemma_policy_name_is_not_empty(parts.0);
            }
        }
    }
}

impl CpuUsageProfiler {
    /// What always holds of the profiler.
    pub open spec fn wf(self) -> bool {
        self@.wf()
    }

    /// The profiler, not yet connected.
    pub fn new(serial: Option<String>, sample_interval_ns: u64) -> (r: Result<
        CpuUsageProfiler,
        CoreError,
    >)
        ensures
            r matches Ok(p) && p.wf() && p@ == (UsageState {
                serial: text::optional(serial),
                sample_interval_ns,
                described: initial_description(),
                policies: Seq::empty(),
                readings: Seq::empty(),
                previous: None,
                link: Link::idle(),
            }),
    {
        proof {
            reveal_strlit("CPU_USAGE");
            reveal_strlit("policy0");
            reveal_strlit("%");
        }
        match CollectorMetadata::new(String::from_str("policy0"), UNIT_PERCENT, 0) {
            Ok(collector) => {
                let mut described: Vec<CollectorMetadata> = Vec::new();
                described.push(collector);
                assert(text::views(described@) =~= initial_description().1);
                match ProfilerMetadata::new(PROFILER_KEY, described) {
                    Ok(metadata) => {
                        let p = CpuUsageProfiler {
                            serial,
                            sample_interval_ns,
                            metadata,
                            policies: Vec::new(),
                            collectors: Vec::new(),
                            previous: None,
                            link: Link::new(),
                        };
                        assert(p@.readings =~= Seq::empty());
                        assert(p@.policies =~= Seq::empty());
                        Ok(p)
                    },
                    Err(e) => Err(e),
                }
            },
            Err(e) => Err(e),
        }
    }

    /// What the registry is told of the profiler.
    pub fn metadata_clone(&self) -> (r: ProfilerMetadata)
        ensures
            r@ == self@.described,
    {
        self.metadata.clone()
    }

    /// The latest values.
    pub fn snapshot_values(&self) -> (r: Vec<i64>)
        ensures
            r@ == values_of(self@.readings),
    {
        let mut out: Vec<i64> = Vec::new();
        let mut i: usize = 0;
        while i < self.collectors.len()
            invariant
                i <= self.collectors@.len(),
                out@.len() == i,
                forall|j: int|
                    0 <= j < i ==> #[trigger] out@[j] == self.collectors@[j]@.value,
            decreases self.collectors@.len() - i,
        {
            out.push(self.collectors[i].value_percent);
            i = i + 1;
        }
        assert(out@ =~= values_of(self@.readings));
        out
    }

    /// The interval between samples, in nanoseconds.
    pub fn sample_interval_ns(&self) -> (r: u64)
        ensures
            r == self@.sample_interval_ns,
    {
        self.sample_interval_ns
    }

    /// The connection and the sampler.
    pub fn link(&self) -> (r: Link)
        ensures
            r == self@.link,
    {
        self.link
    }

    /// Whether the sampler pauses.
    pub fn is_paused(&self) -> (r: bool)
        ensures
            r == (self@.link.sampler is Paused),
    {
        matches!(self.link.sampler, SamplerState::Paused)
    }

    /// The policies in the reply to the listing command.
    pub fn discover_policies(&self, reply: Result<String, CoreError>) -> (r: Result<
        Vec<PolicyGroup>,
        CoreError,
    >)
        ensures
            match reply {
                Err(e) => r == Err::<Vec<PolicyGroup>, CoreError>(e),
                Ok(output) => if groups(output@).len() == 0 {
                    r matches Err(e) && errors::is_runtime(e, no_policy_text()@)
                } else {
                    r matches Ok(found) && text::views(found@) == groups(output@)
                },
            },
    {
        match reply {
            Err(e) => Err(e),
            Ok(output) => {
                let found = parse_policy_listing(output.as_str());
                assert(text::views(found@).len() == found@.len());
                if found.len() == 0 {
                    return Err(
                        CoreError::runtime(
                            "no readable CPU usage policy was found on the target device",
                        ),
                    );
                }
                Ok(found)
            },
        }
    }

    /// The collectors of policies, without values.
    fn create_collectors(policies: &Vec<PolicyGroup>) -> (r: Result<
        Vec<CpuUsageCollector>,
        CoreError,
    >)
        requires
            forall|i: int|
                0 <= i < policies@.len() ==> (#[trigger] text::views(policies@)[i]).0.len() > 0,
        ensures
            r matches Ok(collectors) && text::views(collectors@) == fresh_readings(
                text::views(policies@),
            ),
    {
        let ghost all = text::views(policies@);
        let mut out: Vec<CpuUsageCollector> = Vec::new();
        let mut order: usize = 0;
        while order < policies.len()
            invariant
                order <= policies@.len(),
                all == text::views(policies@),
                out@.len() == order,
                forall|i: int| 0 <= i < policies@.len() ==> (#[trigger] all[i]).0.len() > 0,
                forall|j: int|
                    0 <= j < order ==> (#[trigger] out@[j])@ == fresh_reading(all[j].0, j as nat),
            decreases policies@.len() - order,
        {
            assert(all[order as int] == policies@[order as int]@);
            match CpuUsageCollector::new(policies[order].name.clone(), order) {
                Ok(collector) => {
                    out.push(collector);
                },
                Err(e) => {
                    return Err(e);
                },
            }
            order = order + 1;
        }
        assert(text::views(out@) =~= fresh_readings(all));
        Ok(out)
    }

    /// Connects with the reply to the listing command: one collector for each policy.
    pub fn connect(&mut self, reply: Result<String, CoreError>) -> (r: Result<(), CoreError>)
        requires
            old(self).wf(),
        ensures
            final(self).wf(),
            match reply {
                Err(e) => r == Err::<(), CoreError>(e) && final(self)@ == old(self)@,
                Ok(output) => {
                    let listed = groups(output@);
                    if listed.len() == 0 {
                        &&& r matches Err(e) && errors::is_runtime(e, no_policy_text()@)
                        &&& final(self)@ == old(self)@
                    } else {
                        &&& r is Ok
                        &&& final(self)@ == (UsageState {
                            described: (PROFILER_KEY@, descriptions(fresh_readings(listed))),
                            policies: listed,
                            readings: fresh_readings(listed),
                            link: Link { connected: true, ..old(self)@.link },
                            ..old(self)@
                        })
                    }
                },
            },
    {
        proof {
            if reply is Ok {
                law_groups_are_named(reply->Ok_0@);
            }
        }
        match self.discover_policies(reply) {
            Err(e) => Err(e),
            Ok(found) => match CpuUsageProfiler::create_collectors(&found) {
                Err(e) => Err(e),
                Ok(collectors) => {
                    proof {
                        reveal_strlit("CPU_USAGE");
                    }
                    let mut described: Vec<CollectorMetadata> = Vec::new();
                    let mut i: usize = 0;
                    while i < collectors.len()
                        invariant
                            i <= collectors@.len(),
                            described@.len() == i,
                            forall|j: int|
                                0 <= j < i ==> (#[trigger] described@[j])@
                                    == collectors@[j]@.described,
                        decreases collectors@.len() - i,
                    {
                        described.push(collectors[i].metadata.clone());
                        i = i + 1;
                    }
                    assert(text::views(described@) =~= descriptions(text::views(collectors@)));
                    match ProfilerMetadata::new(PROFILER_KEY, described) {
                        Err(e) => Err(e),
                        Ok(metadata) => {
                            self.policies = found;
                            self.collectors = collectors;
                            self.metadata = metadata;
                            self.link.connected = true;
                            Ok(())
                        },
                    }
                },
            },
        }
    }

    /// The loads of the policies that a reply to the counter command shows, where there is
    /// something to compare it with.
    pub fn measure(&self, reply: &Result<String, CoreError>) -> (r: Vec<Option<Load>>)
        requires
            *reply matches Ok(output) ==> fits(output@),
        ensures
            r@ == self@.loads(*reply),
    {
        let current: Option<Vec<(String, CpuTick)>> = match reply {
            Ok(output) => Some(parse_cpu_stat(output.as_str())),
            Err(_) => None,
        };
        let mut out: Vec<Option<Load>> = Vec::new();
        let mut i: usize = 0;
        while i < self.policies.len()
            invariant
                i <= self.policies@.len(),
                out@.len() == i,
                match *reply {
                    Ok(output) => current matches Some(rows) && tick_views(rows@) == ticks(output@),
                    Err(_) => current is None,
                },
                forall|j: int| 0 <= j < i ==> #[trigger] out@[j] == self@.loads(*reply)[j],
            decreases self.policies@.len() - i,
        {
            assert(self@.policies[i as int] == self.policies@[i as int]@);
            let l: Option<Load> = match (&current, &self.previous) {
                (Some(rows), Some(previous)) => {
                    assert(tick_views(rows@).len() == rows@.len());
                    if rows.len() > 0 {
                        policy_load(&self.policies[i].core_names, rows, previous)
                    } else {
                        None
                    }
                },
                _ => None,
            };
            out.push(l);
            i = i + 1;
        }
        assert(out@ =~= self@.loads(*reply));
        out
    }

    /// Takes up the reply to the counter command, with the loads that `measure` finds in it as
    /// rounded percentages. A policy without a load gets the invalid value.
    pub fn sample_once(&mut self, reply: Result<String, CoreError>, rounded: &[i64])
        requires
            old(self).wf(),
            reply matches Ok(output) ==> fits(output@),
            rounded@.len() == old(self)@.policies.len(),
        ensures
            final(self).wf(),
            final(self)@ == (UsageState {
                readings: with_values(
                    old(self)@.readings,
                    old(self)@.values(reply, rounded@),
                ),
                previous: old(self)@.remembered(reply),
                ..old(self)@
            }),
    {
        let loads = self.measure(&reply);
        let mut values: Vec<i64> = Vec::new();
        let mut i: usize = 0;
        while i < loads.len()
            invariant
                i <= loads@.len(),
                loads@ == old(self)@.loads(reply),
                rounded@.len() == loads@.len(),
                loads@.len() == old(self)@.policies.len(),
                values@.len() == i,
                forall|j: int|
                    0 <= j < i ==> #[trigger] values@[j] == old(self)@.values(reply, rounded@)[j],
            decreases loads@.len() - i,
        {
            let value: i64 = if loads[i].is_some() {
                clamp_percentage(rounded[i])
            } else {
                INVALID_METRIC_VALUE
            };
            values.push(value);
            i = i + 1;
        }
        assert(values@ =~= old(self)@.values(reply, rounded@));
        store_values(&mut self.collectors, &values);
        assert(descriptions(self@.readings) =~= descriptions(old(self)@.readings));
        if let Ok(output) = reply {
            let rows = parse_cpu_stat(output.as_str());
            assert(tick_views(rows@).len() == rows@.len());
            if rows.len() > 0 {
                self.previous = Some(rows);
            }
        }
    }

    /// Begins a start. A sampler that is there goes on sampling. Where the result is `Ok(true)`,
    /// there is none, one has to be started, and its first sample has nothing to be compared
    /// with.
    pub fn begin_start(&mut self) -> (r: Result<bool, CoreError>)
        requires
            old(self).wf(),
        ensures
            final(self).wf(),
            match r {
                Err(e) => {
                    &&& !old(self)@.link.connected
                    &&& errors::is_runtime(
                        e,
                        sampler::not_connected_text(PROFILER_KEY@, "start"@),
                    )
                    &&& final(self)@ == old(self)@
                },
                Ok(needed) => {
                    &&& old(self)@.link.connected
                    &&& needed == (old(self)@.link.sampler is Absent)
                    &&& final(self)@ == if needed {
                        (UsageState { previous: None, ..old(self)@ })
                    } else {
                        (UsageState {
                            link: Link { sampler: SamplerState::Sampling, ..old(self)@.link },
                            ..old(self)@
                        })
                    }
                },
            },
    {
        match self.link.begin_start(PROFILER_KEY) {
            Err(e) => Err(e),
            Ok(needed) => {
                if needed {
                    self.previous = None;
                }
                Ok(needed)
            },
        }
    }

    /// Notes that a sampler has been started.
    pub fn finish_start(&mut self)
        requires
            old(self).wf(),
            old(self)@.link.connected,
        ensures
            final(self).wf(),
            final(self)@ == (UsageState {
                link: Link { sampler: SamplerState::Sampling, ..old(self)@.link },
                ..old(self)@
            }),
    {
        self.link.sampler = SamplerState::Sampling;
    }

    /// Pauses the sampler.
    pub fn pause(&mut self) -> (r: Result<(), CoreError>)
        requires
            old(self).wf(),
        ensures
            final(self).wf(),
            final(self)@ == (UsageState { link: final(self)@.link, ..old(self)@ }),
            Link::switched(
                old(self)@.link,
                final(self)@.link,
                r,
                PROFILER_KEY@,
                "pause"@,
                SamplerState::Paused,
            ),
    {
        self.link.pause(PROFILER_KEY)
    }

    /// Resumes the sampler.
    pub fn restart(&mut self) -> (r: Result<(), CoreError>)
        requires
            old(self).wf(),
        ensures
            final(self).wf(),
            final(self)@ == (UsageState { link: final(self)@.link, ..old(self)@ }),
            Link::switched(
                old(self)@.link,
                final(self)@.link,
                r,
                PROFILER_KEY@,
                "restart"@,
                SamplerState::Sampling,
            ),
    {
        self.link.restart(PROFILER_KEY)
    }

    /// Ends sampling and the connection.
    pub fn stop(&mut self) -> (r: Result<(), CoreError>)
        requires
            old(self).wf(),
        ensures
            r is Ok,
            final(self).wf(),
            final(self)@ == (UsageState {
                readings: all_invalid(old(self)@.readings),
                link: Link::idle(),
                ..old(self)@
            }),
    {
        self.link.sampler = SamplerState::Absent;
        mark_all_invalid(&mut self.collectors);
        assert(descriptions(self@.readings) =~= descriptions(old(self)@.readings));
        self.link.connected = false;
        Ok(())
    }
}

/// A sample gives each policy the load of its own cores between the latest sample and this one, as
/// a percentage; without a sample before, without counters or without a load it has no value. The
/// counters of a sample are what the next one is compared with, and a failed one is forgotten.
pub proof fn law_samples(
    s: UsageState,
    reply: Result<String, CoreError>,
    rounded: Seq<i64>,
    i: int,
)
    requires
        0 <= i < s.policies.len(),
    ensures
        s.loads(reply).len() == s.policies.len(),
        s.previous is None || reply is Err ==> s.loads(reply)[i] is None && s.values(
            reply,
            rounded,
        )[i] == -1,
        reply matches Ok(output) && ticks(output@).len() > 0 ==> s.remembered(reply) == Some(
            ticks(reply->Ok_0@),
        ) && (s.previous matches Some(earlier) ==> s.loads(reply)[i] == load(
            s.policies[i].1,
            ticks(reply->Ok_0@),
            earlier,
        )),
        reply matches Ok(output) && ticks(output@).len() == 0 ==> s.remembered(reply) == s.previous
            && s.loads(reply)[i] is None,
        reply is Err ==> s.remembered(reply) == s.previous,
        s.loads(reply)[i] is None ==> s.values(reply, rounded)[i] == -1,
        s.loads(reply)[i] is Some && 0 <= rounded[i] <= 100 ==> s.values(reply, rounded)[i]
            == rounded[i],
{
}

} // verus!
