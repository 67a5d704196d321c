//! The profilers of battery voltage, current and power.
//!
//! Devices differ in where they report these. On connecting, a profiler tries one way of reading
//! after the other and keeps the first that gives a value.

use vstd::prelude::*;

use crate::constants::INVALID_METRIC_VALUE;
use crate::errors;
use crate::errors::CoreError;
use crate::number;
use crate::profiler::power_supply;
use crate::profiler::power_supply::{
    parse_dumpsys_voltage_mv, parse_first_line_value, parse_keyed_value, parse_micharge_snapshot,
    parse_plain_value, parse_scan_snapshot, power_from, PowerSnapshot, Quantity,
};
use crate::profiler::sampler::{Link, SamplerState};
use crate::shell;
use crate::shell::{Outcome, Progress};
use crate::text;
use crate::text::chars_of;
use crate::types::{CollectorMetadata, ProfilerMetadata};

verus! {

// ---------------------------------------------------------------------------
// Ways of reading
// ---------------------------------------------------------------------------

/// The ways of reading the voltage.
#[derive(Debug, Clone, Copy, PartialEq, Eq, Structural)]
pub enum VoltageReadStrategy {
    /// Files at fixed paths.
    FixedSysfs,
    /// Files that match a pattern.
    GlobSysfs,
    /// A scan of the power supply directories.
    PowerSupplyScan,
    /// The event files of the power supplies.
    Uevent,
    /// The dump of the battery service.
    DumpsysBattery,
    /// The charging log of Xiaomi devices.
    MiChargeLogcat,
}

/// The ways of reading the current.
#[derive(Debug, Clone, Copy, PartialEq, Eq, Structural)]
pub enum CurrentReadStrategy {
    /// Files at fixed paths.
    FixedSysfs,
}

/// The ways of reading the power.
#[derive(Debug, Clone, Copy, PartialEq, Eq, Structural)]
pub enum PowerReadStrategy {
    /// Voltage and current from files at fixed paths.
    FixedSysfs,
    /// Voltage and current each in its own way.
    Hybrid {
        /// How the voltage is read.
        voltage: VoltageReadStrategy,
        /// How the current is read.
        current: CurrentReadStrategy,
    },
}

/// The way of reading that a profiler has chosen.
#[derive(Debug, Clone, Copy, PartialEq, Eq, Structural)]
pub enum SelectedPowerStrategy {
    /// Of the voltage.
    Voltage(VoltageReadStrategy),
    /// Of the current.
    Current(CurrentReadStrategy),
    /// Of the power.
    Power(PowerReadStrategy),
}

/// The three metrics.
#[derive(Debug, Clone, Copy, PartialEq, Eq, Structural)]
pub enum PowerMetricKind {
    /// Voltage in millivolts.
    Voltage,
    /// Current in milliamperes.
    Current,
    /// Power in milliwatts.
    Power,
}

impl VoltageReadStrategy {
    /// What users see of a way of reading.
    pub open spec fn caption(self) -> &'static str {
        match self {
            VoltageReadStrategy::FixedSysfs => "sysfs fixed path",
            VoltageReadStrategy::GlobSysfs => "sysfs glob path",
            VoltageReadStrategy::PowerSupplyScan => "power_supply directory scan",
            VoltageReadStrategy::Uevent => "power_supply uevent",
            VoltageReadStrategy::DumpsysBattery => "dumpsys battery",
            VoltageReadStrategy::MiChargeLogcat => "xiaomi micharge logcat",
        }
    }

    /// What users see of a way of reading.
    pub fn label(self) -> (r: &'static str)
        ensures
            r@ == self.caption()@,
    {
        match self {
            VoltageReadStrategy::FixedSysfs => "sysfs fixed path",
            VoltageReadStrategy::GlobSysfs => "sysfs glob path",
            VoltageReadStrategy::PowerSupplyScan => "power_supply directory scan",
            VoltageReadStrategy::Uevent => "power_supply uevent",
            VoltageReadStrategy::DumpsysBattery => "dumpsys battery",
            VoltageReadStrategy::MiChargeLogcat => "xiaomi micharge logcat",
        }
    }
}

impl CurrentReadStrategy {
    /// What users see of a way of reading.
    pub fn label(self) -> (r: &'static str)
        ensures
            r@ == "sysfs fixed path"@,
    {
        "sysfs fixed path"
    }
}

impl PowerReadStrategy {
    /// What users see of a way of reading.
    pub open spec fn caption(self) -> Seq<char> {
        match self {
            PowerReadStrategy::FixedSysfs => "fixed sysfs pair"@,
            PowerReadStrategy::Hybrid { voltage, current } => "hybrid: voltage via "@
                + voltage.caption()@ + ", current via "@ + "sysfs fixed path"@,
        }
    }

    /// What users see of a way of reading.
    pub fn label(self) -> (r: String)
        ensures
            r@ == self.caption(),
    {
        match self {
            PowerReadStrategy::FixedSysfs => String::from_str("fixed sysfs pair"),
            PowerReadStrategy::Hybrid { voltage, current } => {
                let mut out = String::from_str("hybrid: voltage via ");
                out.append(voltage.label());
                out.append(", current via ");
                out.append(current.label());
                out
            },
        }
    }
}

impl SelectedPowerStrategy {
    /// What users see of a way of reading.
    pub open spec fn caption(self) -> Seq<char> {
        match self {
            SelectedPowerStrategy::Voltage(strategy) => strategy.caption()@,
            SelectedPowerStrategy::Current(_) => "sysfs fixed path"@,
            SelectedPowerStrategy::Power(strategy) => strategy.caption(),
        }
    }

    /// What users see of a way of reading.
    pub fn label(self) -> (r: String)
        ensures
            r@ == self.caption(),
    {
        match self {
            SelectedPowerStrategy::Voltage(strategy) => String::from_str(strategy.label()),
            SelectedPowerStrategy::Current(strategy) => String::from_str(strategy.label()),
            SelectedPowerStrategy::Power(strategy) => strategy.label(),
        }
    }
}

impl PowerMetricKind {
    /// The key of the profiler.
    pub open spec fn key(self) -> &'static str {
        match self {
            PowerMetricKind::Voltage => "VOLTAGE",
            PowerMetricKind::Current => "CURRENT",
            PowerMetricKind::Power => "POWER",
        }
    }

    /// The unit of the metric.
    pub open spec fn unit_name(self) -> &'static str {
        match self {
            PowerMetricKind::Voltage => "mV",
            PowerMetricKind::Current => "mA",
            PowerMetricKind::Power => "mW",
        }
    }

    /// The key of the profiler.
    pub fn profiler_key(self) -> (r: &'static str)
        ensures
            r@ == self.key()@,
    {
        match self {
            PowerMetricKind::Voltage => "VOLTAGE",
            PowerMetricKind::Current => "CURRENT",
            PowerMetricKind::Power => "POWER",
        }
    }

    /// The key of the collector.
    pub fn collector_key(self) -> (r: &'static str)
        ensures
            r@ == "battery"@,
    {
        "battery"
    }

    /// The unit of the metric.
    pub fn unit(self) -> (r: &'static str)
        ensures
            r@ == self.unit_name()@,
    {
        match self {
            PowerMetricKind::Voltage => "mV",
            PowerMetricKind::Current => "mA",
            PowerMetricKind::Power => "mW",
        }
    }
}

// ---------------------------------------------------------------------------
// Commands
// ---------------------------------------------------------------------------

/// The command that scans the power supply directories.
pub const POWER_SUPPLY_SCAN_COMMAND: &'static str = "for d in /sys/class/power_supply/* \"$(readlink -f /sys/class/power_supply/battery 2>/dev/null)\" /sys/devices/platform/soc/soc:mca_business_battery/power_supply/battery; do\n  [ -n \"$d\" ] || continue;\n  [ -d \"$d\" ] || continue;\n  echo \"== $d ==\";\n  [ -f \"$d/type\" ] && echo -n \"type=\" && cat \"$d/type\";\n  [ -f \"$d/current_now\" ] && echo -n \"current_now=\" && cat \"$d/current_now\";\n  [ -f \"$d/current_avg\" ] && echo -n \"current_avg=\" && cat \"$d/current_avg\";\n  [ -f \"$d/batt_current_ua_now\" ] && echo -n \"batt_current_ua_now=\" && cat \"$d/batt_current_ua_now\";\n  [ -f \"$d/voltage_now\" ] && echo -n \"voltage_now=\" && cat \"$d/voltage_now\";\n  [ -f \"$d/status\" ] && echo -n \"status=\" && cat \"$d/status\";\ndone 2>/dev/null";

/// The command that prints the charging log of Xiaomi devices.
pub const MICHARGE_LOGCAT_COMMAND: &'static str = "logcat -d -b system -s IMiCharge:E | tail -n 256";

/// The commands of a way of reading the voltage, in the order in which they are tried.
pub open spec fn voltage_commands(strategy: VoltageReadStrategy) -> Seq<Seq<char>> {
    match strategy {
        VoltageReadStrategy::FixedSysfs => seq![
            "cat /sys/class/power_supply/battery/voltage_now"@,
            "cat /sys/class/power_supply/Battery/voltage_now"@,
            "cat /sys/class/power_supply/maxfg/voltage_now"@,
            "cat /sys/class/power_supply/bms/voltage_now"@,
            "cat /sys/devices/platform/soc/soc:mca_business_battery/power_supply/battery/voltage_now"@,
        ],
        VoltageReadStrategy::GlobSysfs => seq!["cat /sys/class/power_supply/*/voltage_now"@],
        VoltageReadStrategy::PowerSupplyScan => seq![POWER_SUPPLY_SCAN_COMMAND@],
        VoltageReadStrategy::Uevent => seq!["cat /sys/class/power_supply/*/uevent"@],
        VoltageReadStrategy::DumpsysBattery => seq!["dumpsys battery"@],
        VoltageReadStrategy::MiChargeLogcat => seq![MICHARGE_LOGCAT_COMMAND@],
    }
}

/// The commands of reading the current, in the order in which they are tried.
pub open spec fn current_commands() -> Seq<Seq<char>> {
    seq![
        "cat /sys/class/power_supply/battery/current_now"@,
        "cat /sys/class/power_supply/Battery/current_now"@,
        "cat /sys/class/power_supply/maxfg/current_now"@,
        "cat /sys/class/power_supply/bms/current_now"@,
        "cat /sys/devices/platform/soc/soc:mca_business_battery/power_supply/battery/current_now"@,
    ]
}

/// The keys under which event files report the voltage.
pub open spec fn uevent_voltage_keys() -> Seq<Seq<char>> {
    seq!["POWER_SUPPLY_VOLTAGE_NOW"@, "POWER_SUPPLY_VOLTAGE_OCV"@]
}

/// How the output of a command is read.
#[derive(Debug, Clone, Copy, PartialEq, Eq, Structural)]
pub enum Reading {
    /// As a voltage, in the given way.
    Voltage(VoltageReadStrategy),
    /// As a current.
    Current,
}

impl Reading {
    /// The commands to try.
    pub open spec fn commands(self) -> Seq<Seq<char>> {
        match self {
            Reading::Voltage(strategy) => voltage_commands(strategy),
            Reading::Current => current_commands(),
        }
    }

    /// The value in the output of a command.
    pub open spec fn value(self, output: Seq<char>) -> Option<i64> {
        match self {
            Reading::Voltage(VoltageReadStrategy::FixedSysfs) => power_supply::plain_value(
                output,
                Quantity::Voltage,
            ),
            Reading::Voltage(VoltageReadStrategy::GlobSysfs) => power_supply::first_line_value(
                output,
                Quantity::Voltage,
            ),
            Reading::Voltage(VoltageReadStrategy::PowerSupplyScan) => power_supply::scan_snapshot(
                output,
            ).voltage_mv,
            Reading::Voltage(VoltageReadStrategy::Uevent) => power_supply::keyed_value(
                output,
                uevent_voltage_keys(),
                Quantity::Voltage,
            ),
            Reading::Voltage(VoltageReadStrategy::DumpsysBattery) => power_supply::dumpsys_voltage(
                output,
            ),
            Reading::Voltage(VoltageReadStrategy::MiChargeLogcat) => power_supply::micharge_snapshot(
                output,
            ).voltage_mv,
            Reading::Current => power_supply::plain_value(output, Quantity::Current),
        }
    }

    /// The value in what a command came to: nothing where it failed.
    pub open spec fn value_of(self, output: Option<Seq<char>>) -> Option<i64> {
        match output {
            Some(output) => self.value(output),
            None => None,
        }
    }

    /// The commands to try.
    pub fn command_list(self) -> (r: Vec<&'static str>)
        ensures
            text::views(r@) == self.commands(),
    {
        let r: Vec<&'static str> = match self {
            Reading::Voltage(VoltageReadStrategy::FixedSysfs) => vec![
                "cat /sys/class/power_supply/battery/voltage_now",
                "cat /sys/class/power_supply/Battery/voltage_now",
                "cat /sys/class/power_supply/maxfg/voltage_now",
                "cat /sys/class/power_supply/bms/voltage_now",
                "cat /sys/devices/platform/soc/soc:mca_business_battery/power_supply/battery/voltage_now",
            ],
            Reading::Voltage(VoltageReadStrategy::GlobSysfs) => vec![
                "cat /sys/class/power_supply/*/voltage_now",
            ],
            Reading::Voltage(VoltageReadStrategy::PowerSupplyScan) => vec![
                POWER_SUPPLY_SCAN_COMMAND,
            ],
            Reading::Voltage(VoltageReadStrategy::Uevent) => vec![
                "cat /sys/class/power_supply/*/uevent",
            ],
            Reading::Voltage(VoltageReadStrategy::DumpsysBattery) => vec!["dumpsys battery"],
            Reading::Voltage(VoltageReadStrategy::MiChargeLogcat) => vec![MICHARGE_LOGCAT_COMMAND],
            Reading::Current => vec![
                "cat /sys/class/power_supply/battery/current_now",
                "cat /sys/class/power_supply/Battery/current_now",
                "cat /sys/class/power_supply/maxfg/current_now",
                "cat /sys/class/power_supply/bms/current_now",
                "cat /sys/devices/platform/soc/soc:mca_business_battery/power_supply/battery/current_now",
            ],
        };
        assert(text::views(r@) =~= self.commands());
        r
    }

    /// Reads the value from the output of a command.
    pub fn read(self, output: &str) -> (r: Option<i64>)
        ensures
            r == self.value(output@),
    {
        match self {
            Reading::Voltage(VoltageReadStrategy::FixedSysfs) => {
                let chars = chars_of(output);
                parse_plain_value(chars.as_slice(), Quantity::Voltage)
            },
            Reading::Voltage(VoltageReadStrategy::GlobSysfs) => parse_first_line_value(
                output,
                Quantity::Voltage,
            ),
            Reading::Voltage(VoltageReadStrategy::PowerSupplyScan) => parse_scan_snapshot(
                output,
            ).voltage_mv,
            Reading::Voltage(VoltageReadStrategy::Uevent) => {
                let keys: Vec<&'static str> = vec![
                    "POWER_SUPPLY_VOLTAGE_NOW",
                    "POWER_SUPPLY_VOLTAGE_OCV",
                ];
                assert(text::views(keys@) =~= uevent_voltage_keys());
                parse_keyed_value(output, keys.as_slice(), Quantity::Voltage)
            },
            Reading::Voltage(VoltageReadStrategy::DumpsysBattery) => parse_dumpsys_voltage_mv(
                output,
            ),
            Reading::Voltage(VoltageReadStrategy::MiChargeLogcat) => parse_micharge_snapshot(
                output,
            ).voltage_mv,
            Reading::Current => {
                let chars = chars_of(output);
                parse_plain_value(chars.as_slice(), Quantity::Current)
            },
        }
    }
}

// ---------------------------------------------------------------------------
// Reading and probing
// ---------------------------------------------------------------------------

/// Tries commands one after the other until one gives a value. The replies from `at` on are
/// those of these commands.
pub open spec fn try_commands(
    reading: Reading,
    commands: Seq<Seq<char>>,
    outs: Seq<Option<Seq<char>>>,
    at: nat,
) -> Outcome<Option<i64>>
    decreases commands.len(),
{
    if commands.len() == 0 {
        Outcome::Done(None, at)
    } else if at >= outs.len() {
        Outcome::Run(commands[0])
    } else {
        match reading.value_of(outs[at as int]) {
            Some(value) => Outcome::Done(Some(value), at + 1),
            None => try_commands(reading, commands.skip(1), outs, at + 1),
        }
    }
}

/// Reads a value in a given way.
pub open spec fn query(reading: Reading, outs: Seq<Option<Seq<char>>>, at: nat) -> Outcome<
    Option<i64>,
> {
    try_commands(reading, reading.commands(), outs, at)
}

/// The ways of reading the voltage in the order in which they are tried.
pub open spec fn all_voltage_strategies() -> Seq<VoltageReadStrategy> {
    seq![
        VoltageReadStrategy::FixedSysfs,
        VoltageReadStrategy::GlobSysfs,
        VoltageReadStrategy::PowerSupplyScan,
        VoltageReadStrategy::Uevent,
        VoltageReadStrategy::DumpsysBattery,
        VoltageReadStrategy::MiChargeLogcat,
    ]
}

/// Tries ways of reading the voltage one after the other until one gives a value.
pub open spec fn probe_voltage(
    strategies: Seq<VoltageReadStrategy>,
    outs: Seq<Option<Seq<char>>>,
    at: nat,
) -> Outcome<Option<(VoltageReadStrategy, i64)>>
    decreases strategies.len(),
{
    if strategies.len() == 0 {
        Outcome::Done(None, at)
    } else {
        match query(Reading::Voltage(strategies[0]), outs, at) {
            Outcome::Run(command) => Outcome::Run(command),
            Outcome::Done(Some(value), used) => Outcome::Done(Some((strategies[0], value)), used),
            Outcome::Done(None, used) => probe_voltage(strategies.skip(1), outs, used),
        }
    }
}

/// Tries the one way of reading the current.
pub open spec fn probe_current(outs: Seq<Option<Seq<char>>>, at: nat) -> Outcome<
    Option<(CurrentReadStrategy, i64)>,
> {
    match query(Reading::Current, outs, at) {
        Outcome::Run(command) => Outcome::Run(command),
        Outcome::Done(Some(value), used) => Outcome::Done(
            Some((CurrentReadStrategy::FixedSysfs, value)),
            used,
        ),
        Outcome::Done(None, used) => Outcome::Done(None, used),
    }
}

/// Reads the voltage, then the current, and makes the power of both.
pub open spec fn read_pair(voltage: VoltageReadStrategy, outs: Seq<Option<Seq<char>>>, at: nat) -> Outcome<
    PowerSnapshot,
> {
    match query(Reading::Voltage(voltage), outs, at) {
        Outcome::Run(command) => Outcome::Run(command),
        Outcome::Done(voltage_mv, used) => match query(Reading::Current, outs, used) {
            Outcome::Run(command) => Outcome::Run(command),
            Outcome::Done(current_ma, used) => Outcome::Done(
                power_supply::snapshot_of(voltage_mv, current_ma),
                used,
            ),
        },
    }
}

/// Reads the power in a given way.
pub open spec fn read_power(
    strategy: PowerReadStrategy,
    outs: Seq<Option<Seq<char>>>,
    at: nat,
) -> Outcome<PowerSnapshot> {
    match strategy {
        PowerReadStrategy::FixedSysfs => read_pair(VoltageReadStrategy::FixedSysfs, outs, at),
        PowerReadStrategy::Hybrid { voltage, current } => read_pair(voltage, outs, at),
    }
}

/// Looks for a way of reading the power: the fixed files where both quantities are there, and
/// otherwise any way of reading the voltage together with one of reading the current.
pub open spec fn probe_power(outs: Seq<Option<Seq<char>>>, at: nat) -> Outcome<
    Option<(PowerReadStrategy, PowerSnapshot)>,
> {
    match read_power(PowerReadStrategy::FixedSysfs, outs, at) {
        Outcome::Run(command) => Outcome::Run(command),
        Outcome::Done(snapshot, used) => if snapshot.power_mw is Some {
            Outcome::Done(Some((PowerReadStrategy::FixedSysfs, snapshot)), used)
        } else {
            match probe_voltage(all_voltage_strategies(), outs, used) {
                Outcome::Run(command) => Outcome::Run(command),
                Outcome::Done(None, used) => Outcome::Done(None, used),
                Outcome::Done(Some(v), used) => match probe_current(outs, used) {
                    Outcome::Run(command) => Outcome::Run(command),
                    Outcome::Done(None, used) => Outcome::Done(None, used),
                    Outcome::Done(Some(c), used) => Outcome::Done(
                        Some(
                            (
                                PowerReadStrategy::Hybrid { voltage: v.0, current: c.0 },
                                power_supply::snapshot_of(Some(v.1), Some(c.1)),
                            ),
                        ),
                        used,
                    ),
                },
            }
        },
    }
}

/// The value of a metric in the readings of one moment.
pub open spec fn metric_value(metric: PowerMetricKind, snapshot: PowerSnapshot) -> i64 {
    let value = match metric {
        PowerMetricKind::Voltage => snapshot.voltage_mv,
        PowerMetricKind::Current => snapshot.current_ma,
        PowerMetricKind::Power => snapshot.power_mw,
    };
    match value {
        Some(value) => value,
        None => INVALID_METRIC_VALUE,
    }
}

/// Looks for a way of reading a metric.
pub open spec fn probe(metric: PowerMetricKind, outs: Seq<Option<Seq<char>>>) -> Outcome<
    Option<(SelectedPowerStrategy, i64)>,
> {
    match metric {
        PowerMetricKind::Voltage => match probe_voltage(all_voltage_strategies(), outs, 0) {
            Outcome::Run(command) => Outcome::Run(command),
            Outcome::Done(None, used) => Outcome::Done(None, used),
            Outcome::Done(Some(found), used) => Outcome::Done(
                Some((SelectedPowerStrategy::Voltage(found.0), found.1)),
                used,
            ),
        },
        PowerMetricKind::Current => match probe_current(outs, 0) {
            Outcome::Run(command) => Outcome::Run(command),
            Outcome::Done(None, used) => Outcome::Done(None, used),
            Outcome::Done(Some(found), used) => Outcome::Done(
                Some((SelectedPowerStrategy::Current(found.0), found.1)),
                used,
            ),
        },
        PowerMetricKind::Power => match probe_power(outs, 0) {
            Outcome::Run(command) => Outcome::Run(command),
            Outcome::Done(None, used) => Outcome::Done(None, used),
            Outcome::Done(Some(found), used) => Outcome::Done(
                Some((SelectedPowerStrategy::Power(found.0), metric_value(metric, found.1))),
                used,
            ),
        },
    }
}

/// Reads in the way that a profiler has chosen.
pub open spec fn read_selected(
    strategy: SelectedPowerStrategy,
    outs: Seq<Option<Seq<char>>>,
) -> Outcome<PowerSnapshot> {
    match strategy {
        SelectedPowerStrategy::Voltage(strategy) => match query(
            Reading::Voltage(strategy),
            outs,
            0,
        ) {
            Outcome::Run(command) => Outcome::Run(command),
            Outcome::Done(voltage_mv, used) => Outcome::Done(
                PowerSnapshot { voltage_mv, current_ma: None, power_mw: None },
                used,
            ),
        },
        SelectedPowerStrategy::Current(_) => match query(Reading::Current, outs, 0) {
            Outcome::Run(command) => Outcome::Run(command),
            Outcome::Done(current_ma, used) => Outcome::Done(
                PowerSnapshot { voltage_mv: None, current_ma, power_mw: None },
                used,
            ),
        },
        SelectedPowerStrategy::Power(strategy) => read_power(strategy, outs, 0),
    }
}

/// Commands are tried in order until the first that gives a value: a value comes from the last
/// reply used, and the replies before it gave none. A command is run only where all before it
/// gave none.
pub proof fn law_first_value_wins(
    reading: Reading,
    commands: Seq<Seq<char>>,
    outs: Seq<Option<Seq<char>>>,
    at: nat,
)
    requires
        at <= outs.len(),
    ensures
        match try_commands(reading, commands, outs, at) {
            Outcome::Done(Some(value), used) => {
                &&& at < used <= outs.len()
                &&& used - at <= commands.len()
                &&& reading.value_of(outs[used - 1]) == Some(value)
                &&& forall|i: int|
                    at <= i < used - 1 ==> reading.value_of(#[trigger] outs[i]) is None
            },
            Outcome::Done(None, used) => {
                &&& used == at + commands.len()
                &&& used <= outs.len()
                &&& forall|i: int| at <= i < used ==> reading.value_of(#[trigger] outs[i]) is None
            },
            Outcome::Run(command) => {
                &&& outs.len() - at < commands.len()
                &&& command == commands[outs.len() - at]
                &&& forall|i: int|
                    at <= i < outs.len() ==> reading.value_of(#[trigger] outs[i]) is None
            },
        },
    decreases commands.len(),
{
    if commands.len() > 0 && at < outs.len() && reading.value_of(outs[at as int]) is None {
        law_first_value_wins(reading, commands.skip(1), outs, at + 1);
    }
}

/// The number of commands of ways of reading the voltage.
pub open spec fn command_count(strategies: Seq<VoltageReadStrategy>) -> nat
    decreases strategies.len(),
{
    if strategies.len() == 0 {
        0
    } else {
        voltage_commands(strategies[0]).len() + command_count(strategies.skip(1))
    }
}

proof fn lemma_probe_voltage_ends(
    strategies: Seq<VoltageReadStrategy>,
    outs: Seq<Option<Seq<char>>>,
    at: nat,
)
    requires
        at <= outs.len(),
    ensures
        match probe_voltage(strategies, outs, at) {
            Outcome::Done(_, used) => at <= used <= outs.len() && used <= at + command_count(
                strategies,
            ),
            Outcome::Run(_) => outs.len() < at + command_count(strategies),
        },
    decreases strategies.len(),
{
    if strategies.len() > 0 {
        let reading = Reading::Voltage(strategies[0]);
        law_first_value_wins(reading, reading.commands(), outs, at);
        match query(reading, outs, at) {
            Outcome::Done(None, used) => {
                lemma_probe_voltage_ends(strategies.skip(1), outs, used);
            },
            _ => {},
        }
    }
}

/// Probing ends: after at most twenty-five replies it has chosen a way of reading, or found that
/// there is none.
pub proof fn law_probing_ends(metric: PowerMetricKind, outs: Seq<Option<Seq<char>>>)
    requires
        outs.len() >= 25,
    ensures
        probe(metric, outs) is Done,
{
    reveal_with_fuel(command_count, 7);
    assert(command_count(all_voltage_strategies()) == 10) by {
        let s = all_voltage_strategies();
        assert(s.skip(1)[0] == VoltageReadStrategy::GlobSysfs);
        assert(s.skip(1).skip(1)[0] == VoltageReadStrategy::PowerSupplyScan);
        assert(s.skip(1).skip(1).skip(1)[0] == VoltageReadStrategy::Uevent);
        assert(s.skip(1).skip(1).skip(1).skip(1)[0] == VoltageReadStrategy::DumpsysBattery);
        assert(s.skip(1).skip(1).skip(1).skip(1).skip(1)[0] == VoltageReadStrategy::MiChargeLogcat);
    }
    let fixed = Reading::Voltage(VoltageReadStrategy::FixedSysfs);
    lemma_probe_voltage_ends(all_voltage_strategies(), outs, 0);
    law_first_value_wins(Reading::Current, current_commands(), outs, 0);
    law_first_value_wins(fixed, fixed.commands(), outs, 0);
    if let Outcome::Done(_, n) = query(fixed, outs, 0) {
        law_first_value_wins(Reading::Current, current_commands(), outs, n);
    }
    if let Outcome::Done(_, n) = read_power(PowerReadStrategy::FixedSysfs, outs, 0) {
        lemma_probe_voltage_ends(all_voltage_strategies(), outs, n);
        if let Outcome::Done(_, m) = probe_voltage(all_voltage_strategies(), outs, n) {
            law_first_value_wins(Reading::Current, current_commands(), outs, m);
        }
    }
}

/// A way of reading that probing has chosen gives a valid value: voltages are positive, currents
/// and powers are not negative.
pub proof fn law_probed_values_are_valid(metric: PowerMetricKind, outs: Seq<Option<Seq<char>>>)
    ensures
        probe(metric, outs) matches Outcome::Done(Some(found), _) ==> found.1
            != INVALID_METRIC_VALUE,
{
    lemma_voltage_positive(all_voltage_strategies(), outs, 0);
    lemma_query_sign(Reading::Current, current_commands(), outs, 0);
    lemma_query_sign(
        Reading::Voltage(VoltageReadStrategy::FixedSysfs),
        voltage_commands(VoltageReadStrategy::FixedSysfs),
        outs,
        0,
    );
    if let Outcome::Done(v, n) = query(
        Reading::Voltage(VoltageReadStrategy::FixedSysfs),
        outs,
        0,
    ) {
        lemma_query_sign(Reading::Current, current_commands(), outs, n);
        if let Outcome::Done(c, m) = query(Reading::Current, outs, n) {
            if v is Some && c is Some {
                lemma_milliwatts_not_negative(v->0, c->0);
            }
            lemma_voltage_positive(all_voltage_strategies(), outs, m);
            if let Outcome::Done(Some(vv), k) = probe_voltage(all_voltage_strategies(), outs, m) {
                lemma_query_sign(Reading::Current, current_commands(), outs, k);
                if let Outcome::Done(Some(cc), _) = probe_current(outs, k) {
                    lemma_milliwatts_not_negative(vv.1, cc.1);
                }
            }
        }
    }
}

proof fn lemma_milliwatts_not_negative(voltage_mv: i64, current_ma: i64)
    requires
        voltage_mv >= 0,
        current_ma >= 0,
    ensures
        power_supply::milliwatts(voltage_mv, current_ma) >= 0,
{
    assert(voltage_mv * current_ma >= 0) by (nonlinear_arith)
        requires
            voltage_mv >= 0,
            current_ma >= 0,
    ;
}

proof fn lemma_reading_sign(reading: Reading, output: Seq<char>)
    ensures
        reading.value(output) matches Some(v) ==> if reading is Current {
            v >= 0
        } else {
            v > 0
        },
{
    match reading {
        Reading::Voltage(VoltageReadStrategy::GlobSysfs) => {
            lemma_first_some_satisfies(
                text::lines(output),
                |line: Seq<char>| power_supply::plain_value(line, Quantity::Voltage),
            );
        },
        Reading::Voltage(VoltageReadStrategy::Uevent) => {
            let keys = uevent_voltage_keys();
            assert forall|line: Seq<char>|
                is_positive(#[trigger] power_supply::keyed_by_any(line, keys, Quantity::Voltage)) by {
                lemma_first_some_satisfies(
                    keys,
                    |key: Seq<char>| power_supply::keyed_line(line, key, Quantity::Voltage),
                );
            }
            lemma_first_some_satisfies(
                text::lines(output),
                |line: Seq<char>| power_supply::keyed_by_any(line, keys, Quantity::Voltage),
            );
        },
        Reading::Voltage(VoltageReadStrategy::DumpsysBattery) => {
            lemma_first_some_satisfies(
                text::lines(output),
                |line: Seq<char>| power_supply::dumpsys_line(line),
            );
        },
        Reading::Voltage(VoltageReadStrategy::MiChargeLogcat) => {
            lemma_last_some_satisfies(
                text::lines(output),
                |line: Seq<char>| power_supply::micharge_value(line, 11, Quantity::Voltage),
            );
        },
        _ => {},
    }
}

spec fn is_positive(value: Option<i64>) -> bool {
    value matches Some(v) ==> v > 0
}

proof fn lemma_first_some_satisfies(s: Seq<Seq<char>>, f: spec_fn(Seq<char>) -> Option<i64>)
    requires
        forall|x: Seq<char>| is_positive(#[trigger] f(x)),
    ensures
        is_positive(text::first_some(s, f)),
    decreases s.len(),
{
    if s.len() > 0 {
        lemma_first_some_satisfies(s.skip(1), f);
    }
}

proof fn lemma_last_some_satisfies(s: Seq<Seq<char>>, f: spec_fn(Seq<char>) -> Option<i64>)
    requires
        forall|x: Seq<char>| is_positive(#[trigger] f(x)),
    ensures
        is_positive(text::last_some(s, f)),
    decreases s.len(),
{
    if s.len() > 0 {
        lemma_last_some_satisfies(s.drop_last(), f);
    }
}

proof fn lemma_query_sign(
    reading: Reading,
    commands: Seq<Seq<char>>,
    outs: Seq<Option<Seq<char>>>,
    at: nat,
)
    ensures
        try_commands(reading, commands, outs, at) matches Outcome::Done(Some(v), _)
            ==> if reading is Current {
            v >= 0
        } else {
            v > 0
        },
    decreases commands.len(),
{
    if commands.len() > 0 && at < outs.len() {
        if let Some(output) = outs[at as int] {
            lemma_reading_sign(reading, output);
        }
        lemma_query_sign(reading, commands.skip(1), outs, at + 1);
    }
}

proof fn lemma_voltage_positive(
    strategies: Seq<VoltageReadStrategy>,
    outs: Seq<Option<Seq<char>>>,
    at: nat,
)
    ensures
        probe_voltage(strategies, outs, at) matches Outcome::Done(Some(found), _) ==> found.1 > 0,
    decreases strategies.len(),
{
    if strategies.len() > 0 {
        let reading = Reading::Voltage(strategies[0]);
        lemma_query_sign(reading, reading.commands(), outs, at);
        if let Outcome::Done(None, used) = query(reading, outs, at) {
            lemma_voltage_positive(strategies.skip(1), outs, used);
        }
    }
}

// ---------------------------------------------------------------------------
// What the values mean
// ---------------------------------------------------------------------------

proof fn lemma_probed_voltage(
    strategies: Seq<VoltageReadStrategy>,
    outs: Seq<Option<Seq<char>>>,
    at: nat,
)
    requires
        at <= outs.len(),
    ensures
        probe_voltage(strategies, outs, at) matches Outcome::Done(found, used) ==> {
            &&& at <= used <= outs.len()
            &&& found matches Some(found) ==> at < used && Reading::Voltage(found.0).value_of(
                outs[used - 1],
            ) == Some(found.1)
        },
    decreases strategies.len(),
{
    if strategies.len() > 0 {
        let reading = Reading::Voltage(strategies[0]);
        law_first_value_wins(reading, reading.commands(), outs, at);
        if let Outcome::Done(None, used) = query(reading, outs, at) {
            lemma_probed_voltage(strategies.skip(1), outs, used);
        }
    }
}

/// Whether a power in milliwatts is that of a voltage in millivolts and a current in
/// milliamperes: their product, a thousandth of it, as far as it fits.
pub open spec fn is_power(power_mw: int, voltage_mv: int, current_ma: int) -> bool {
    if voltage_mv * current_ma <= i64::MAX {
        power_mw * 1000 <= voltage_mv * current_ma < power_mw * 1000 + 1000
    } else {
        power_mw == i64::MAX / 1000
    }
}

/// Whether a reply reads as a voltage in some way.
pub open spec fn reads_as_voltage(reply: Option<Seq<char>>, way: VoltageReadStrategy, mv: i64) -> bool {
    Reading::Voltage(way).value_of(reply) == Some(mv)
}

/// Whether a reply reads as a current.
pub open spec fn reads_as_current(reply: Option<Seq<char>>, ma: i64) -> bool {
    Reading::Current.value_of(reply) == Some(ma)
}

/// Whether a value is the power of a voltage and a current that replies read as, the voltage
/// before the current.
pub open spec fn is_power_of_replies(
    value: i64,
    way: VoltageReadStrategy,
    outs: Seq<Option<Seq<char>>>,
    i: int,
    j: int,
) -> bool {
    &&& 0 <= i < j < outs.len()
    &&& exists|mv: i64, ma: i64| #[trigger]
        reads_as_voltage(outs[i], way, mv) && #[trigger] reads_as_current(outs[j], ma) && mv > 0
            && ma >= 0 && is_power(value as int, mv as int, ma as int)
}

/// Whether a value is the power of a voltage that some reply before the given one reads as, in the
/// given way, and of the current that the given one reads as.
pub open spec fn is_power_at(
    value: i64,
    way: VoltageReadStrategy,
    outs: Seq<Option<Seq<char>>>,
    j: int,
) -> bool {
    exists|i: int| #[trigger] is_power_of_replies(value, way, outs, i, j)
}

/// How a way of reading the power reads the voltage.
pub open spec fn voltage_way(strategy: PowerReadStrategy) -> VoltageReadStrategy {
    match strategy {
        PowerReadStrategy::FixedSysfs => VoltageReadStrategy::FixedSysfs,
        PowerReadStrategy::Hybrid { voltage, current } => voltage,
    }
}

/// What the profilers report on connecting: that of the voltage the voltage that the last reply
/// reads as, that of the current its current, and that of the power the power of both. The way of
/// reading that is chosen is the one that read it.
pub proof fn law_probed_value(metric: PowerMetricKind, outs: Seq<Option<Seq<char>>>)
    ensures
        probe(metric, outs) matches Outcome::Done(Some(found), used) ==> 0 < used <= outs.len()
            && match metric {
            PowerMetricKind::Voltage => found.0 matches SelectedPowerStrategy::Voltage(way)
                && reads_as_voltage(outs[used - 1], way, found.1),
            PowerMetricKind::Current => found.0 is Current && reads_as_current(
                outs[used - 1],
                found.1,
            ),
            PowerMetricKind::Power => found.0 matches SelectedPowerStrategy::Power(way)
                && is_power_at(found.1, voltage_way(way), outs, used - 1),
        },
{
    lemma_probed_voltage(all_voltage_strategies(), outs, 0);
    law_first_value_wins(Reading::Current, current_commands(), outs, 0);
    let fixed = Reading::Voltage(VoltageReadStrategy::FixedSysfs);
    law_first_value_wins(fixed, fixed.commands(), outs, 0);
    lemma_query_sign(fixed, fixed.commands(), outs, 0);
    if let Outcome::Done(v, n) = query(fixed, outs, 0) {
        law_first_value_wins(Reading::Current, current_commands(), outs, n);
        lemma_query_sign(Reading::Current, current_commands(), outs, n);
        if let Outcome::Done(c, m) = query(Reading::Current, outs, n) {
            if v is Some && c is Some {
                lemma_power_of_replies(
                    VoltageReadStrategy::FixedSysfs,
                    outs,
                    n - 1,
                    m - 1,
                    v->0,
                    c->0,
                );
            } else {
                lemma_probed_voltage(all_voltage_strategies(), outs, m);
                lemma_voltage_positive(all_voltage_strategies(), outs, m);
                if let Outcome::Done(Some(vv), k) = probe_voltage(
                    all_voltage_strategies(),
                    outs,
                    m,
                ) {
                    law_first_value_wins(Reading::Current, current_commands(), outs, k);
                    lemma_query_sign(Reading::Current, current_commands(), outs, k);
                    if let Outcome::Done(Some(cc), l) = probe_current(outs, k) {
                        lemma_power_of_replies(vv.0, outs, k - 1, l - 1, vv.1, cc.1);
                    }
                }
            }
        }
    }
}

proof fn lemma_power_of_replies(
    way: VoltageReadStrategy,
    outs: Seq<Option<Seq<char>>>,
    i: int,
    j: int,
    mv: i64,
    ma: i64,
)
    requires
        0 <= i < j < outs.len(),
        reads_as_voltage(outs[i], way, mv),
        reads_as_current(outs[j], ma),
        mv > 0,
        ma >= 0,
    ensures
        is_power_at(
            metric_value(
                PowerMetricKind::Power,
                power_supply::snapshot_of(Some(mv), Some(ma)),
            ),
            way,
            outs,
            j,
        ),
{
    power_supply::law_milliwatts(mv, ma);
    let value = metric_value(
        PowerMetricKind::Power,
        power_supply::snapshot_of(Some(mv), Some(ma)),
    );
    assert(is_power(value as int, mv as int, ma as int));
    assert(is_power_of_replies(value, way, outs, i, j));
}

/// Whether none of the replies from one place up to, not including, another has a value.
pub open spec fn none_reads(
    reading: Reading,
    outs: Seq<Option<Seq<char>>>,
    from: int,
    to: int,
) -> bool {
    forall|i: int| from <= i < to ==> reading.value_of(#[trigger] outs[i]) is None
}

/// What the profilers report on a sample, in the way of reading that they have chosen: voltage,
/// current, or the power of both, and the invalid value only where a reading fails.
pub proof fn law_sampled_value(strategy: SelectedPowerStrategy, outs: Seq<Option<Seq<char>>>)
    ensures
        read_selected(strategy, outs) matches Outcome::Done(snapshot, used) ==> used <= outs.len()
            && match strategy {
            SelectedPowerStrategy::Voltage(way) => {
                let value = metric_value(PowerMetricKind::Voltage, snapshot);
                if value == INVALID_METRIC_VALUE {
                    none_reads(Reading::Voltage(way), outs, 0, used as int)
                } else {
                    used > 0 && reads_as_voltage(outs[used - 1], way, value)
                }
            },
            SelectedPowerStrategy::Current(_) => {
                let value = metric_value(PowerMetricKind::Current, snapshot);
                if value == INVALID_METRIC_VALUE {
                    none_reads(Reading::Current, outs, 0, used as int)
                } else {
                    used > 0 && reads_as_current(outs[used - 1], value)
                }
            },
            SelectedPowerStrategy::Power(way) => {
                let value = metric_value(PowerMetricKind::Power, snapshot);
                if value == INVALID_METRIC_VALUE {
                    ||| none_reads(
                        Reading::Voltage(voltage_way(way)),
                        outs,
                        0,
                        voltage_commands(voltage_way(way)).len() as int,
                    )
                    ||| none_reads(Reading::Current, outs, used - 5, used as int)
                } else {
                    is_power_at(value, voltage_way(way), outs, used - 1)
                }
            },
        },
{
    match strategy {
        SelectedPowerStrategy::Voltage(way) => {
            let reading = Reading::Voltage(way);
            law_first_value_wins(reading, reading.commands(), outs, 0);
            lemma_query_sign(reading, reading.commands(), outs, 0);
        },
        SelectedPowerStrategy::Current(_) => {
            law_first_value_wins(Reading::Current, current_commands(), outs, 0);
            lemma_query_sign(Reading::Current, current_commands(), outs, 0);
        },
        SelectedPowerStrategy::Power(power) => {
            let way = match power {
                PowerReadStrategy::FixedSysfs => VoltageReadStrategy::FixedSysfs,
                PowerReadStrategy::Hybrid { voltage, current } => voltage,
            };
            let reading = Reading::Voltage(way);
            law_first_value_wins(reading, reading.commands(), outs, 0);
            lemma_query_sign(reading, reading.commands(), outs, 0);
            if let Outcome::Done(v, n) = query(reading, outs, 0) {
                law_first_value_wins(Reading::Current, current_commands(), outs, n);
                lemma_query_sign(Reading::Current, current_commands(), outs, n);
                if let Outcome::Done(c, m) = query(Reading::Current, outs, n) {
                    if v is Some && c is Some {
                        lemma_power_of_replies(way, outs, n - 1, m - 1, v->0, c->0);
                        lemma_milliwatts_not_negative(v->0, c->0);
                    }
                }
            }
        },
    }
}

/// On a device whose first files hold a voltage and a current, in milli- or micro-units, the
/// profilers report that voltage, the magnitude of that current and the power of both, on
/// connecting and on every sample in the way of reading that they have chosen.
pub proof fn law_first_files(v: int, c: int)
    requires
        10 <= v < 10_000,
        -10_000 < c < 10_000,
        c <= -10 || 10 <= c,
    ensures
        ({
            let current_ma = if c < 0 {
                -c
            } else {
                c
            };
            forall|voltage_file: int, current_file: int|
                (voltage_file == v || voltage_file == v * 1000) && (current_file == c
                    || current_file == c * 1000) ==> {
                    let volts = Some(#[trigger] number::decimal_int(voltage_file));
                    let amperes = Some(#[trigger] number::decimal_int(current_file));
                    &&& probe(PowerMetricKind::Voltage, seq![volts]) matches Outcome::Done(Some(found), used)
            && used == 1 && found.1 == v
                    &&& probe(PowerMetricKind::Current, seq![amperes]) matches Outcome::Done(Some(found), used)
            && used == 1 && found.1 == current_ma
                    &&& probe(PowerMetricKind::Power, seq![volts, amperes]) matches Outcome::Done(Some(found), used)
            && used == 2 && is_power(found.1 as int, v, current_ma) && (read_selected(
                        found.0,
                        seq![volts, amperes],
                    ) matches Outcome::Done(snapshot, again) && again == 2 && metric_value(
                        PowerMetricKind::Power,
                        snapshot,
                    ) == found.1)
                }
        }),
{
    let current_ma = if c < 0 {
        -c
    } else {
        c
    };
    assert forall|voltage_file: int, current_file: int|
        (voltage_file == v || voltage_file == v * 1000) && (current_file == c || current_file == c
            * 1000) implies {
        let volts = Some(#[trigger] number::decimal_int(voltage_file));
        let amperes = Some(#[trigger] number::decimal_int(current_file));
        &&& probe(PowerMetricKind::Voltage, seq![volts]) matches Outcome::Done(Some(found), used)
            && used == 1 && found.1 == v
        &&& probe(PowerMetricKind::Current, seq![amperes]) matches Outcome::Done(Some(found), used)
            && used == 1 && found.1 == current_ma
        &&& probe(PowerMetricKind::Power, seq![volts, amperes]) matches Outcome::Done(Some(found), used)
            && used == 2 && is_power(found.1 as int, v, current_ma) && (read_selected(
            found.0,
            seq![volts, amperes],
        ) matches Outcome::Done(snapshot, again) && again == 2 && metric_value(PowerMetricKind::Power, snapshot)
            == found.1)
    } by {
        lemma_first_files(v, current_ma, voltage_file, current_file);
    }
}

proof fn lemma_first_files(v: int, ma: int, voltage_file: int, current_file: int)
    requires
        10 <= v < 10_000,
        10 <= ma < 10_000,
        voltage_file == v || voltage_file == v * 1000,
        current_file == ma || current_file == -ma || current_file == ma * 1000 || current_file
            == -ma * 1000,
    ensures
        ({
            let volts = Some(number::decimal_int(voltage_file));
            let amperes = Some(number::decimal_int(current_file));
            &&& probe(PowerMetricKind::Voltage, seq![volts]) matches Outcome::Done(Some(found), used)
            && used == 1 && found.1 == v
            &&& probe(PowerMetricKind::Current, seq![amperes]) matches Outcome::Done(Some(found), used)
            && used == 1 && found.1 == ma
            &&& probe(PowerMetricKind::Power, seq![volts, amperes]) matches Outcome::Done(Some(found), used)
            && used == 2 && is_power(found.1 as int, v, ma) && (read_selected(
                found.0,
                seq![volts, amperes],
            ) matches Outcome::Done(snapshot, again) && again == 2 && metric_value(PowerMetricKind::Power, snapshot)
                == found.1)
        }),
{
    let volts = Some(number::decimal_int(voltage_file));
    let amperes = Some(number::decimal_int(current_file));
    let fixed = Reading::Voltage(VoltageReadStrategy::FixedSysfs);
    lemma_file_values(v, ma, voltage_file, current_file);
    lemma_one_reply(fixed, seq![volts], 0, v as i64);
    lemma_one_reply(Reading::Current, seq![amperes], 0, ma as i64);
    lemma_one_reply(fixed, seq![volts, amperes], 0, v as i64);
    lemma_one_reply(Reading::Current, seq![volts, amperes], 1, ma as i64);
    assert(all_voltage_strategies()[0] is FixedSysfs);
    power_supply::law_milliwatts(v as i64, ma as i64);
    assert(v * ma <= i64::MAX) by (nonlinear_arith)
        requires
            0 <= v < 10_000,
            0 <= ma < 10_000,
    ;
}

/// The commands that may print the voltage, in the order in which they are tried.
pub open spec fn ordered_voltage_commands() -> Seq<Seq<char>> {
    seq![
        "cat /sys/class/power_supply/battery/voltage_now"@,
        "cat /sys/class/power_supply/Battery/voltage_now"@,
        "cat /sys/class/power_supply/maxfg/voltage_now"@,
        "cat /sys/class/power_supply/bms/voltage_now"@,
        "cat /sys/devices/platform/soc/soc:mca_business_battery/power_supply/battery/voltage_now"@,
        "cat /sys/class/power_supply/*/voltage_now"@,
        POWER_SUPPLY_SCAN_COMMAND@,
        "cat /sys/class/power_supply/*/uevent"@,
        "dumpsys battery"@,
        MICHARGE_LOGCAT_COMMAND@,
    ]
}

/// The ways of reading are tried one after the other as long as no command gives a value: those of
/// the voltage from the fixed files to the log, those of the current in the fixed files. After the
/// last one there is none.
pub proof fn law_order_of_ways(outs: Seq<Option<Seq<char>>>)
    requires
        forall|i: int| 0 <= i < outs.len() ==> (#[trigger] outs[i]) is None,
    ensures
        outs.len() < 10 ==> probe(PowerMetricKind::Voltage, outs) == Outcome::<
            Option<(SelectedPowerStrategy, i64)>,
        >::Run(ordered_voltage_commands()[outs.len() as int]),
        outs.len() >= 10 ==> (probe(PowerMetricKind::Voltage, outs) matches Outcome::Done(
            None,
            used,
        ) && used == 10),
        outs.len() < 5 ==> probe(PowerMetricKind::Current, outs) == Outcome::<
            Option<(SelectedPowerStrategy, i64)>,
        >::Run(current_commands()[outs.len() as int]),
        outs.len() >= 5 ==> (probe(PowerMetricKind::Current, outs) matches Outcome::Done(
            None,
            used,
        ) && used == 5),
{
    let ways = all_voltage_strategies();
    let w1 = ways.skip(1);
    let w2 = w1.skip(1);
    let w3 = w2.skip(1);
    let w4 = w3.skip(1);
    let w5 = w4.skip(1);
    let w6 = w5.skip(1);
    assert(ways[0] is FixedSysfs && w1[0] is GlobSysfs && w2[0] is PowerSupplyScan && w3[0]
        is Uevent && w4[0] is DumpsysBattery && w5[0] is MiChargeLogcat && w6.len() == 0);
    lemma_no_value(Reading::Voltage(VoltageReadStrategy::FixedSysfs), outs, 0);
    lemma_no_value(Reading::Current, outs, 0);
    if outs.len() >= 5 {
        lemma_no_value(Reading::Voltage(VoltageReadStrategy::GlobSysfs), outs, 5);
    }
    if outs.len() >= 6 {
        lemma_no_value(Reading::Voltage(VoltageReadStrategy::PowerSupplyScan), outs, 6);
    }
    if outs.len() >= 7 {
        lemma_no_value(Reading::Voltage(VoltageReadStrategy::Uevent), outs, 7);
    }
    if outs.len() >= 8 {
        lemma_no_value(Reading::Voltage(VoltageReadStrategy::DumpsysBattery), outs, 8);
    }
    if outs.len() >= 9 {
        lemma_no_value(Reading::Voltage(VoltageReadStrategy::MiChargeLogcat), outs, 9);
    }
    assert(outs.len() >= 10 ==> probe_voltage(w6, outs, 10) == Outcome::<
        Option<(VoltageReadStrategy, i64)>,
    >::Done(None, 10));
    assert(outs.len() >= 9 ==> probe_voltage(w5, outs, 9) == if outs.len() == 9 {
        Outcome::<Option<(VoltageReadStrategy, i64)>>::Run(ordered_voltage_commands()[9])
    } else {
        Outcome::Done(None, 10)
    });
    assert(outs.len() >= 8 ==> probe_voltage(w4, outs, 8) == if outs.len() == 8 {
        Outcome::<Option<(VoltageReadStrategy, i64)>>::Run(ordered_voltage_commands()[8])
    } else {
        probe_voltage(w5, outs, 9)
    });
    assert(outs.len() >= 7 ==> probe_voltage(w3, outs, 7) == if outs.len() == 7 {
        Outcome::<Option<(VoltageReadStrategy, i64)>>::Run(ordered_voltage_commands()[7])
    } else {
        probe_voltage(w4, outs, 8)
    });
    assert(outs.len() >= 6 ==> probe_voltage(w2, outs, 6) == if outs.len() == 6 {
        Outcome::<Option<(VoltageReadStrategy, i64)>>::Run(ordered_voltage_commands()[6])
    } else {
        probe_voltage(w3, outs, 7)
    });
    assert(outs.len() >= 5 ==> probe_voltage(w1, outs, 5) == if outs.len() == 5 {
        Outcome::<Option<(VoltageReadStrategy, i64)>>::Run(ordered_voltage_commands()[5])
    } else {
        probe_voltage(w2, outs, 6)
    });
}

proof fn lemma_no_value(reading: Reading, outs: Seq<Option<Seq<char>>>, at: nat)
    requires
        at <= outs.len(),
        forall|i: int| 0 <= i < outs.len() ==> (#[trigger] outs[i]) is None,
    ensures
        query(reading, outs, at) == if outs.len() - at < reading.commands().len() {
            Outcome::<Option<i64>>::Run(reading.commands()[outs.len() - at])
        } else {
            Outcome::Done(None, at + reading.commands().len())
        },
{
    law_first_value_wins(reading, reading.commands(), outs, at);
    if let Outcome::Done(Some(value), used) = query(reading, outs, at) {
        assert(outs[used - 1] is None);
    }
}

proof fn lemma_file_values(v: int, ma: int, voltage_file: int, current_file: int)
    requires
        10 <= v < 10_000,
        10 <= ma < 10_000,
        voltage_file == v || voltage_file == v * 1000,
        current_file == ma || current_file == -ma || current_file == ma * 1000 || current_file
            == -ma * 1000,
    ensures
        Reading::Voltage(VoltageReadStrategy::FixedSysfs).value(number::decimal_int(voltage_file))
            == Some(v as i64),
        Reading::Current.value(number::decimal_int(current_file)) == Some(ma as i64),
{
    let none = Seq::<char>::empty();
    power_supply::law_plain_numbers(none, voltage_file, none);
    power_supply::law_plain_numbers(none, current_file, none);
    assert(none + number::decimal_int(voltage_file) + none =~= number::decimal_int(voltage_file));
    assert(none + number::decimal_int(current_file) + none =~= number::decimal_int(current_file));
    power_supply::law_units(v as i64);
    power_supply::law_units(ma as i64);
    power_supply::law_units((ma * 1000) as i64);
}

proof fn lemma_one_reply(reading: Reading, outs: Seq<Option<Seq<char>>>, at: nat, value: i64)
    requires
        at < outs.len(),
        reading.value_of(outs[at as int]) == Some(value),
    ensures
        query(reading, outs, at) == Outcome::<Option<i64>>::Done(Some(value), at + 1),
{
    assert(reading.commands().len() > 0);
}

/// Tries the commands of a reading until one gives a value.
fn query_with(reading: Reading, replies: &[Result<String, CoreError>], at: usize) -> (r: Progress<
    Option<i64>,
>)
    requires
        at <= replies@.len(),
    ensures
        r@ == query(reading, shell::outputs(replies@), at as nat),
        r matches Progress::Done(_, used) ==> at <= used <= replies@.len(),
{
    let commands = reading.command_list();
    let ghost all = reading.commands();
    let ghost outs = shell::outputs(replies@);
    let mut i: usize = 0;
    let mut used: usize = at;
    assert(all.skip(0) =~= all);
    while i < commands.len()
        invariant
            i <= commands@.len(),
            at <= used <= replies@.len(),
            all == text::views(commands@),
            all == reading.commands(),
            outs == shell::outputs(replies@),
            query(reading, outs, at as nat) == try_commands(
                reading,
                all.skip(i as int),
                outs,
                used as nat,
            ),
        decreases commands@.len() - i,
    {
        assert(all.skip(i as int).skip(1) =~= all.skip(i + 1));
        assert(all.skip(i as int)[0] == commands@[i as int]@);
        if used >= replies.len() {
            return Progress::Run(String::from_str(commands[i]));
        }
        let value = match &replies[used] {
            Ok(output) => reading.read(output.as_str()),
            Err(_) => None,
        };
        assert(value == reading.value_of(outs[used as int]));
        used = used + 1;
        if value.is_some() {
            return Progress::Done(value, used);
        }
        i = i + 1;
    }
    Progress::Done(None, used)
}

/// Reads the voltage in a given way.
pub fn query_voltage_with_strategy(
    replies: &[Result<String, CoreError>],
    at: usize,
    strategy: VoltageReadStrategy,
) -> (r: Progress<Option<i64>>)
    requires
        at <= replies@.len(),
    ensures
        r@ == query(Reading::Voltage(strategy), shell::outputs(replies@), at as nat),
        r matches Progress::Done(_, used) ==> at <= used <= replies@.len(),
{
    query_with(Reading::Voltage(strategy), replies, at)
}

/// Reads the current in a given way.
pub fn query_current_with_strategy(
    replies: &[Result<String, CoreError>],
    at: usize,
    strategy: CurrentReadStrategy,
) -> (r: Progress<Option<i64>>)
    requires
        at <= replies@.len(),
    ensures
        r@ == query(Reading::Current, shell::outputs(replies@), at as nat),
        r matches Progress::Done(_, used) ==> at <= used <= replies@.len(),
{
    match strategy {
        CurrentReadStrategy::FixedSysfs => query_with(Reading::Current, replies, at),
    }
}

/// Looks for a way of reading the voltage.
pub fn detect_voltage_strategy(replies: &[Result<String, CoreError>], at: usize) -> (r: Progress<
    Option<(VoltageReadStrategy, i64)>,
>)
    requires
        at <= replies@.len(),
    ensures
        r@ == probe_voltage(all_voltage_strategies(), shell::outputs(replies@), at as nat),
        r matches Progress::Done(_, used) ==> at <= used <= replies@.len(),
{
    let strategies: Vec<VoltageReadStrategy> = vec![
        VoltageReadStrategy::FixedSysfs,
        VoltageReadStrategy::GlobSysfs,
        VoltageReadStrategy::PowerSupplyScan,
        VoltageReadStrategy::Uevent,
        VoltageReadStrategy::DumpsysBattery,
        VoltageReadStrategy::MiChargeLogcat,
    ];
    let ghost all = all_voltage_strategies();
    let ghost outs = shell::outputs(replies@);
    assert(strategies@ =~= all);
    assert(all.skip(0) =~= all);
    let mut i: usize = 0;
    let mut used: usize = at;
    while i < strategies.len()
        invariant
            i <= strategies@.len(),
            at <= used <= replies@.len(),
            strategies@ == all,
            all == all_voltage_strategies(),
            outs == shell::outputs(replies@),
            probe_voltage(all, outs, at as nat) == probe_voltage(
                all.skip(i as int),
                outs,
                used as nat,
            ),
        decreases strategies@.len() - i,
    {
        assert(all.skip(i as int).skip(1) =~= all.skip(i + 1));
        match query_voltage_with_strategy(replies, used, strategies[i]) {
            Progress::Run(command) => {
                return Progress::Run(command);
            },
            Progress::Done(Some(value), now_used) => {
                return Progress::Done(Some((strategies[i], value)), now_used);
            },
            Progress::Done(None, now_used) => {
                used = now_used;
            },
        }
        i = i + 1;
    }
    Progress::Done(None, used)
}

/// Looks for a way of reading the current.
pub fn detect_current_strategy(replies: &[Result<String, CoreError>], at: usize) -> (r: Progress<
    Option<(CurrentReadStrategy, i64)>,
>)
    requires
        at <= replies@.len(),
    ensures
        r@ == probe_current(shell::outputs(replies@), at as nat),
        r matches Progress::Done(_, used) ==> at <= used <= replies@.len(),
{
    let strategy = CurrentReadStrategy::FixedSysfs;
    match query_current_with_strategy(replies, at, strategy) {
        Progress::Run(command) => Progress::Run(command),
        Progress::Done(Some(value), used) => Progress::Done(Some((strategy, value)), used),
        Progress::Done(None, used) => Progress::Done(None, used),
    }
}

/// Reads the power in a given way.
pub fn query_power_with_strategy(
    replies: &[Result<String, CoreError>],
    at: usize,
    strategy: PowerReadStrategy,
) -> (r: Progress<PowerSnapshot>)
    requires
        at <= replies@.len(),
    ensures
        r@ == read_power(strategy, shell::outputs(replies@), at as nat),
        r matches Progress::Done(_, used) ==> at <= used <= replies@.len(),
{
    let (voltage, current) = match strategy {
        PowerReadStrategy::FixedSysfs => (
            VoltageReadStrategy::FixedSysfs,
            CurrentReadStrategy::FixedSysfs,
        ),
        PowerReadStrategy::Hybrid { voltage, current } => (voltage, current),
    };
    match query_voltage_with_strategy(replies, at, voltage) {
        Progress::Run(command) => Progress::Run(command),
        Progress::Done(voltage_mv, used) => match query_current_with_strategy(
            replies,
            used,
            current,
        ) {
            Progress::Run(command) => Progress::Run(command),
            Progress::Done(current_ma, used) => {
                let power_mw = power_from(voltage_mv, current_ma);
                Progress::Done(PowerSnapshot { voltage_mv, current_ma, power_mw }, used)
            },
        },
    }
}

/// Looks for a way of reading the power.
pub fn detect_power_strategy(replies: &[Result<String, CoreError>], at: usize) -> (r: Progress<
    Option<(PowerReadStrategy, PowerSnapshot)>,
>)
    requires
        at <= replies@.len(),
    ensures
        r@ == probe_power(shell::outputs(replies@), at as nat),
        r matches Progress::Done(_, used) ==> at <= used <= replies@.len(),
{
    match query_power_with_strategy(replies, at, PowerReadStrategy::FixedSysfs) {
        Progress::Run(command) => Progress::Run(command),
        Progress::Done(snapshot, used) => {
            if snapshot.power_mw.is_some() {
                return Progress::Done(Some((PowerReadStrategy::FixedSysfs, snapshot)), used);
            }
            match detect_voltage_strategy(replies, used) {
                Progress::Run(command) => Progress::Run(command),
                Progress::Done(None, used) => Progress::Done(None, used),
                Progress::Done(Some(v), used) => match detect_current_strategy(replies, used) {
                    Progress::Run(command) => Progress::Run(command),
                    Progress::Done(None, used) => Progress::Done(None, used),
                    Progress::Done(Some(c), used) => {
                        let snapshot = PowerSnapshot {
                            voltage_mv: Some(v.1),
                            current_ma: Some(c.1),
                            power_mw: power_from(Some(v.1), Some(c.1)),
                        };
                        let strategy = PowerReadStrategy::Hybrid { voltage: v.0, current: c.0 };
                        Progress::Done(Some((strategy, snapshot)), used)
                    },
                },
            }
        },
    }
}

/// The value of a metric in the readings of one moment.
pub fn value_for_metric(metric: PowerMetricKind, snapshot: PowerSnapshot) -> (r: i64)
    ensures
        r == metric_value(metric, snapshot),
{
    let value = match metric {
        PowerMetricKind::Voltage => snapshot.voltage_mv,
        PowerMetricKind::Current => snapshot.current_ma,
        PowerMetricKind::Power => snapshot.power_mw,
    };
    match value {
        Some(value) => value,
        None => INVALID_METRIC_VALUE,
    }
}

/// Looks for a way of reading a metric.
pub fn detect_strategy_and_value(
    replies: &[Result<String, CoreError>],
    metric: PowerMetricKind,
) -> (r: Progress<Option<(SelectedPowerStrategy, i64)>>)
    ensures
        r@ == probe(metric, shell::outputs(replies@)),
        r matches Progress::Done(_, used) ==> used <= replies@.len(),
{
    match metric {
        PowerMetricKind::Voltage => match detect_voltage_strategy(replies, 0) {
            Progress::Run(command) => Progress::Run(command),
            Progress::Done(None, used) => Progress::Done(None, used),
            Progress::Done(Some(found), used) => Progress::Done(
                Some((SelectedPowerStrategy::Voltage(found.0), found.1)),
                used,
            ),
        },
        PowerMetricKind::Current => match detect_current_strategy(replies, 0) {
            Progress::Run(command) => Progress::Run(command),
            Progress::Done(None, used) => Progress::Done(None, used),
            Progress::Done(Some(found), used) => Progress::Done(
                Some((SelectedPowerStrategy::Current(found.0), found.1)),
                used,
            ),
        },
        PowerMetricKind::Power => match detect_power_strategy(replies, 0) {
            Progress::Run(command) => Progress::Run(command),
            Progress::Done(None, used) => Progress::Done(None, used),
            Progress::Done(Some(found), used) => {
                let value: i64 = value_for_metric(metric, found.1);
                Progress::Done(Some((SelectedPowerStrategy::Power(found.0), value)), used)
            },
        },
    }
}

/// Reads in the way that a profiler has chosen.
pub fn query_power_snapshot_with_strategy(
    replies: &[Result<String, CoreError>],
    strategy: SelectedPowerStrategy,
) -> (r: Progress<PowerSnapshot>)
    ensures
        r@ == read_selected(strategy, shell::outputs(replies@)),
        r matches Progress::Done(_, used) ==> used <= replies@.len(),
{
    match strategy {
        SelectedPowerStrategy::Voltage(strategy) => match query_voltage_with_strategy(
            replies,
            0,
            strategy,
        ) {
            Progress::Run(command) => Progress::Run(command),
            Progress::Done(voltage_mv, used) => Progress::Done(
                PowerSnapshot { voltage_mv, current_ma: None, power_mw: None },
                used,
            ),
        },
        SelectedPowerStrategy::Current(strategy) => match query_current_with_strategy(
            replies,
            0,
            strategy,
        ) {
            Progress::Run(command) => Progress::Run(command),
            Progress::Done(current_ma, used) => Progress::Done(
                PowerSnapshot { voltage_mv: None, current_ma, power_mw: None },
                used,
            ),
        },
        SelectedPowerStrategy::Power(strategy) => query_power_with_strategy(replies, 0, strategy),
    }
}

// ---------------------------------------------------------------------------
// The profiler
// ---------------------------------------------------------------------------

/// The collector of a profiler: what it is and its latest value.
#[derive(Debug)]
pub struct PowerCollector {
    metadata: CollectorMetadata,
    value: i64,
}

/// A profiler of battery voltage, current or power.
#[derive(Debug)]
pub struct BatteryPowerProfiler {
    serial: Option<String>,
    metric: PowerMetricKind,
    sample_interval_ns: u64,
    metadata: ProfilerMetadata,
    collector: PowerCollector,
    strategy: Option<SelectedPowerStrategy>,
    link: Link,
}

/// What a profiler holds, abstractly.
pub struct PowerState {
    /// The serial number of the device, where one is chosen.
    pub serial: Option<Seq<char>>,
    /// The metric.
    pub metric: PowerMetricKind,
    /// The interval between samples, in nanoseconds.
    pub sample_interval_ns: u64,
    /// The latest value.
    pub value: i64,
    /// The chosen way of reading.
    pub strategy: Option<SelectedPowerStrategy>,
    /// The connection and the sampler.
    pub link: Link,
}

/// What the registry is told of a profiler.
pub open spec fn description(metric: PowerMetricKind) -> (
    Seq<char>,
    Seq<(Seq<char>, Seq<char>, nat)>,
) {
    (metric.key()@, seq![("battery"@, metric.unit_name()@, 0nat)])
}

impl View for BatteryPowerProfiler {
    type V = PowerState;

    closed spec fn view(&self) -> PowerState {
        PowerState {
            serial: text::optional(self.serial),
            metric: self.metric,
            sample_interval_ns: self.sample_interval_ns,
            value: self.collector.value,
            strategy: self.strategy,
            link: self.link,
        }
    }
}

/// The message for a device on which no way of reading works.
pub open spec fn no_strategy_text(metric: PowerMetricKind) -> &'static str {
    match metric {
        PowerMetricKind::Voltage => "failed to find a usable voltage read strategy",
        PowerMetricKind::Current => "failed to find a usable current read strategy",
        PowerMetricKind::Power => "failed to find a usable power read strategy",
    }
}

/// The message for a value that is not valid.
pub open spec fn unusable_text(metric: PowerMetricKind) -> Seq<char> {
    "failed to read a usable "@ + metric.key()@ + " sample from the target device"@
}

impl PowerCollector {
    /// The collector of a metric, without a value.
    fn new(metric: PowerMetricKind) -> (r: Result<PowerCollector, CoreError>)
        ensures
            r matches Ok(c) && c.metadata@ == ("battery"@, metric.unit_name()@, 0nat) && c.value
                == INVALID_METRIC_VALUE,
    {
        proof {
            reveal_strlit("battery");
            reveal_strlit("mV");
            reveal_strlit("mA");
            reveal_strlit("mW");
        }
        match CollectorMetadata::new(String::from_str(metric.collector_key()), metric.unit(), 0) {
            Ok(metadata) => Ok(PowerCollector { metadata, value: INVALID_METRIC_VALUE }),
            Err(e) => Err(e),
        }
    }
}

impl BatteryPowerProfiler {
    /// What always holds of a profiler: its description is that of its metric, a sampler is there
    /// only on a connection, and a connected profiler has chosen a way of reading.
    pub closed spec fn wf(self) -> bool {
        &&& self.metadata@ == description(self.metric)
        &&& self.link.wf()
        &&& self.link.connected ==> self.strategy is Some
    }

    /// A profiler of a metric, not yet connected.
    pub fn new(serial: Option<String>, metric: PowerMetricKind, sample_interval_ns: u64) -> (r: Result<
        BatteryPowerProfiler,
        CoreError,
    >)
        ensures
            r matches Ok(p) && p.wf() && p@ == (PowerState {
                serial: text::optional(serial),
                metric,
                sample_interval_ns,
                value: INVALID_METRIC_VALUE,
                strategy: None,
                link: Link::idle(),
            }),
    {
        proof {
            reveal_strlit("VOLTAGE");
            reveal_strlit("CURRENT");
            reveal_strlit("POWER");
        }
        match PowerCollector::new(metric) {
            Ok(collector) => {
                let mut collectors: Vec<CollectorMetadata> = Vec::new();
                collectors.push(collector.metadata.clone());
                assert(text::views(collectors@) =~= description(metric).1);
                match ProfilerMetadata::new(metric.profiler_key(), collectors) {
                    Ok(metadata) => Ok(
                        BatteryPowerProfiler {
                            serial,
                            metric,
                            sample_interval_ns,
                            metadata,
                            collector,
                            strategy: None,
                            link: Link::new(),
                        },
                    ),
                    Err(e) => Err(e),
                }
            },
            Err(e) => Err(e),
        }
    }

    /// A profiler of the voltage.
    pub fn voltage(serial: Option<String>, sample_interval_ns: u64) -> (r: Result<
        BatteryPowerProfiler,
        CoreError,
    >)
        ensures
            r matches Ok(p) && p.wf() && p@ == (PowerState {
                serial: text::optional(serial),
                metric: PowerMetricKind::Voltage,
                sample_interval_ns,
                value: INVALID_METRIC_VALUE,
                strategy: None,
                link: Link::idle(),
            }),
    {
        BatteryPowerProfiler::new(serial, PowerMetricKind::Voltage, sample_interval_ns)
    }

    /// A profiler of the current.
    pub fn current(serial: Option<String>, sample_interval_ns: u64) -> (r: Result<
        BatteryPowerProfiler,
        CoreError,
    >)
        ensures
            r matches Ok(p) && p.wf() && p@ == (PowerState {
                serial: text::optional(serial),
                metric: PowerMetricKind::Current,
                sample_interval_ns,
                value: INVALID_METRIC_VALUE,
                strategy: None,
                link: Link::idle(),
            }),
    {
        BatteryPowerProfiler::new(serial, PowerMetricKind::Current, sample_interval_ns)
    }

    /// A profiler of the power.
    pub fn power(serial: Option<String>, sample_interval_ns: u64) -> (r: Result<
        BatteryPowerProfiler,
        CoreError,
    >)
        ensures
            r matches Ok(p) && p.wf() && p@ == (PowerState {
                serial: text::optional(serial),
                metric: PowerMetricKind::Power,
                sample_interval_ns,
                value: INVALID_METRIC_VALUE,
                strategy: None,
                link: Link::idle(),
            }),
    {
        BatteryPowerProfiler::new(serial, PowerMetricKind::Power, sample_interval_ns)
    }

    /// What the registry is told of the profiler.
    pub fn metadata_clone(&self) -> (r: ProfilerMetadata)
        requires
            self.wf(),
        ensures
            r@ == description(self@.metric),
    {
        self.metadata.clone()
    }

    /// The latest value.
    pub fn snapshot_value(&self) -> (r: i64)
        ensures
            r == self@.value,
    {
        self.collector.value
    }

    /// What users see of the chosen way of reading.
    pub fn selected_strategy_label(&self) -> (r: Option<String>)
        ensures
            text::optional(r) == match self@.strategy {
                Some(strategy) => Some(strategy.caption()),
                None => None,
            },
    {
        match self.strategy {
            Some(strategy) => Some(strategy.label()),
            None => None,
        }
    }

    /// The metric.
    pub fn metric(&self) -> (r: PowerMetricKind)
        ensures
            r == self@.metric,
    {
        self.metric
    }

    /// The interval between samples, in nanoseconds.
    pub fn sample_interval_ns(&self) -> (r: u64)
        ensures
            r == self@.sample_interval_ns,
    {
        self.sample_interval_ns
    }

    /// The connection and the sampler.
    pub fn link(&self) -> (r: Link)
        ensures
            r == self@.link,
    {
        self.link
    }

    /// Whether the sampler pauses.
    pub fn is_paused(&self) -> (r: bool)
        ensures
            r == (self@.link.sampler is Paused),
    {
        matches!(self.link.sampler, SamplerState::Paused)
    }

    /// Takes up what probing the device came to: its error, no way of reading, or a way of
    /// reading with its first value.
    pub fn connect(
        &mut self,
        detected: Result<Option<(SelectedPowerStrategy, i64)>, CoreError>,
    ) -> (r: Result<(), CoreError>)
        requires
            old(self).wf(),
        ensures
            final(self).wf(),
            match detected {
                Err(e) => r == Err::<(), CoreError>(e) && final(self)@ == old(self)@,
                Ok(None) => {
                    &&& r matches Err(e) && errors::is_runtime(
                        e,
                        no_strategy_text(old(self)@.metric)@,
                    )
                    &&& final(self)@ == old(self)@
                },
                Ok(Some(found)) => if found.1 == INVALID_METRIC_VALUE {
                    &&& r matches Err(e) && errors::is_runtime(e, unusable_text(old(self)@.metric))
                    &&& final(self)@ == (PowerState {
                        value: found.1,
                        strategy: Some(found.0),
                        ..old(self)@
                    })
                } else {
                    &&& r is Ok
                    &&& final(self)@ == (PowerState {
                        value: found.1,
                        strategy: Some(found.0),
                        link: Link { connected: true, ..old(self)@.link },
                        ..old(self)@
                    })
                },
            },
    {
        match detected {
            Err(e) => Err(e),
            Ok(None) => {
                let message = match self.metric {
                    PowerMetricKind::Voltage => "failed to find a usable voltage read strategy",
                    PowerMetricKind::Current => "failed to find a usable current read strategy",
                    PowerMetricKind::Power => "failed to find a usable power read strategy",
                };
                Err(CoreError::runtime(message))
            },
            Ok(Some(found)) => {
                self.collector.value = found.1;
                self.strategy = Some(found.0);
                if self.snapshot_value() == INVALID_METRIC_VALUE {
                    let mut message = String::from_str("failed to read a usable ");
                    message.append(self.metric.profiler_key());
                    message.append(" sample from the target device");
                    return Err(CoreError::Runtime(message));
                }
                self.link.connected = true;
                Ok(())
            },
        }
    }

    /// Begins a start. A sampler that is there goes on sampling, and nothing more is needed.
    /// Otherwise the result is the way of reading with which a sampler has to be started.
    pub fn begin_start(&mut self) -> (r: Result<Option<SelectedPowerStrategy>, CoreError>)
        requires
            old(self).wf(),
        ensures
            final(self).wf(),
            match r {
                Err(e) => {
                    &&& !old(self)@.link.connected
                    &&& errors::is_runtime(
                        e,
                        crate::profiler::sampler::not_connected_text(
                            old(self)@.metric.key()@,
                            "start"@,
                        ),
                    )
                    &&& final(self)@ == old(self)@
                },
                Ok(Some(strategy)) => {
                    &&& old(self)@.link.connected
                    &&& old(self)@.link.sampler is Absent
                    &&& old(self)@.strategy == Some(strategy)
                    &&& final(self)@ == old(self)@
                },
                Ok(None) => {
                    &&& old(self)@.link.connected
                    &&& !(old(self)@.link.sampler is Absent)
                    &&& final(self)@ == (PowerState {
                        link: Link { sampler: SamplerState::Sampling, ..old(self)@.link },
                        ..old(self)@
                    })
                },
            },
    {
        match self.link.begin_start(self.metric.profiler_key()) {
            Err(e) => Err(e),
            Ok(true) => Ok(self.strategy),
            Ok(false) => Ok(None),
        }
    }

    /// Takes up the readings of one moment.
    pub fn sample_once_with_strategy(&mut self, snapshot: PowerSnapshot)
        requires
            old(self).wf(),
        ensures
            final(self).wf(),
            final(self)@ == (PowerState {
                value: metric_value(old(self)@.metric, snapshot),
                ..old(self)@
            }),
    {
        self.collector.value = value_for_metric(self.metric, snapshot);
    }

    /// Notes that a sampler has been started.
    pub fn finish_start(&mut self)
        requires
            old(self).wf(),
            old(self)@.link.connected,
        ensures
            final(self).wf(),
            final(self)@ == (PowerState {
                link: Link { sampler: SamplerState::Sampling, ..old(self)@.link },
                ..old(self)@
            }),
    {
        self.link.sampler = SamplerState::Sampling;
    }

    /// Pauses the sampler.
    pub fn pause(&mut self) -> (r: Result<(), CoreError>)
        requires
            old(self).wf(),
        ensures
            final(self).wf(),
            final(self)@ == (PowerState { link: final(self)@.link, ..old(self)@ }),
            Link::switched(
                old(self)@.link,
                final(self)@.link,
                r,
                old(self)@.metric.key()@,
                "pause"@,
                SamplerState::Paused,
            ),
    {
        self.link.pause(self.metric.profiler_key())
    }

    /// Resumes the sampler.
    pub fn restart(&mut self) -> (r: Result<(), CoreError>)
        requires
            old(self).wf(),
        ensures
            final(self).wf(),
            final(self)@ == (PowerState { link: final(self)@.link, ..old(self)@ }),
            Link::switched(
                old(self)@.link,
                final(self)@.link,
                r,
                old(self)@.metric.key()@,
                "restart"@,
                SamplerState::Sampling,
            ),
    {
        self.link.restart(self.metric.profiler_key())
    }

    /// Ends sampling and the connection.
    pub fn stop(&mut self) -> (r: Result<(), CoreError>)
        requires
            old(self).wf(),
        ensures
            r is Ok,
            final(self).wf(),
            final(self)@ == (PowerState {
                value: INVALID_METRIC_VALUE,
                strategy: None,
                link: Link::idle(),
                ..old(self)@
            }),
    {
        self.link.sampler = SamplerState::Absent;
        self.collector.value = INVALID_METRIC_VALUE;
        self.strategy = None;
        self.link.connected = false;
        Ok(())
    }
}

} // verus!
