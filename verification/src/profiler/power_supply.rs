//! Battery voltage and current in what Android devices print.

use vstd::prelude::*;

use crate::number;
use crate::number::{read_i32, read_i64};
use crate::text;
use crate::text::{
    after_prefix, before_suffix, chars_of, cut, has_text, reads, lowered, same, split_at_class,
    split_lines, split_words, string_of, trimmed, CharClass,
};

verus! {

/// The two quantities that devices report.
#[derive(Debug, Clone, Copy, PartialEq, Eq, Structural)]
pub enum Quantity {
    /// Voltage, in millivolts.
    Voltage,
    /// Current, in milliamperes.
    Current,
}

// ---------------------------------------------------------------------------
// Units
// ---------------------------------------------------------------------------

/// The millivolts in a raw reading. A reading of ten thousand or more is in microvolts.
pub open spec fn millivolts(raw: i64) -> Option<i64> {
    if raw <= 0 {
        None
    } else if raw >= 10_000 {
        Some((raw / 1000) as i64)
    } else {
        Some(raw)
    }
}

/// The milliamperes in a raw reading, without sign. A magnitude of ten thousand or more is in
/// microamperes. The one number without a magnitude gives nothing.
pub open spec fn milliamperes(raw: i64) -> Option<i64> {
    if raw == i64::MIN {
        None
    } else {
        let magnitude = if raw < 0 {
            -raw
        } else {
            raw as int
        };
        if magnitude >= 10_000 {
            Some((magnitude / 1000) as i64)
        } else {
            Some(magnitude as i64)
        }
    }
}

/// A raw reading of a quantity in the quantity's unit.
pub open spec fn normalized(quantity: Quantity, raw: i64) -> Option<i64> {
    match quantity {
        Quantity::Voltage => millivolts(raw),
        Quantity::Current => milliamperes(raw),
    }
}

/// A number within the range of 64-bit signed numbers: itself, or the nearest end.
pub open spec fn saturated(n: int) -> int {
    if n > i64::MAX {
        i64::MAX as int
    } else if n < i64::MIN {
        i64::MIN as int
    } else {
        n
    }
}

/// The thousandth of a number, rounded toward zero.
pub open spec fn thousandth(n: int) -> int {
    if n >= 0 {
        n / 1000
    } else {
        -((-n) / 1000)
    }
}

/// Milliwatts from millivolts and milliamperes.
pub open spec fn milliwatts(voltage_mv: i64, current_ma: i64) -> i64 {
    thousandth(saturated(voltage_mv * current_ma)) as i64
}

/// Milliwatts, where both readings are there.
pub open spec fn milliwatts_of(voltage_mv: Option<i64>, current_ma: Option<i64>) -> Option<i64> {
    match (voltage_mv, current_ma) {
        (Some(v), Some(c)) => Some(milliwatts(v, c)),
        _ => None,
    }
}

/// The millivolts in a raw reading.
pub fn normalize_voltage_mv(raw: i64) -> (r: Option<i64>)
    ensures
        r == millivolts(raw),
{
    if raw <= 0 {
        return None;
    }
    if raw >= 10_000 {
        Some(raw / 1000)
    } else {
        Some(raw)
    }
}

/// The milliamperes in a raw reading.
pub fn normalize_current_ma(raw: i64) -> (r: Option<i64>)
    ensures
        r == milliamperes(raw),
{
    if raw == i64::MIN {
        return None;
    }
    let magnitude: i64 = if raw < 0 {
        -raw
    } else {
        raw
    };
    if magnitude >= 10_000 {
        Some(magnitude / 1000)
    } else {
        Some(magnitude)
    }
}

/// A raw reading of a quantity in the quantity's unit.
pub fn normalize(quantity: Quantity, raw: i64) -> (r: Option<i64>)
    ensures
        r == normalized(quantity, raw),
{
    match quantity {
        Quantity::Voltage => normalize_voltage_mv(raw),
        Quantity::Current => normalize_current_ma(raw),
    }
}

/// Milliwatts from millivolts and milliamperes.
pub fn power_mw(voltage_mv: i64, current_ma: i64) -> (r: i64)
    ensures
        r == milliwatts(voltage_mv, current_ma),
{
    let v: i128 = voltage_mv as i128;
    let c: i128 = current_ma as i128;
    assert(-0x4000_0000_0000_0000_0000_0000_0000_0000 <= v * c
        <= 0x4000_0000_0000_0000_0000_0000_0000_0000) by (nonlinear_arith)
        requires
            -0x8000_0000_0000_0000 <= v <= 0x7fff_ffff_ffff_ffff,
            -0x8000_0000_0000_0000 <= c <= 0x7fff_ffff_ffff_ffff,
    ;
    let product: i128 = v * c;
    let bounded: i128 = if product > i64::MAX as i128 {
        i64::MAX as i128
    } else if product < i64::MIN as i128 {
        i64::MIN as i128
    } else {
        product
    };
    if bounded >= 0 {
        (bounded / 1000) as i64
    } else {
        let positive: i128 = -bounded;
        (-(positive / 1000)) as i64
    }
}

/// Milliwatts, where both readings are there.
pub fn power_from(voltage_mv: Option<i64>, current_ma: Option<i64>) -> (r: Option<i64>)
    ensures
        r == milliwatts_of(voltage_mv, current_ma),
{
    match voltage_mv {
        Some(v) => match current_ma {
            Some(c) => Some(power_mw(v, c)),
            None => None,
        },
        None => None,
    }
}

// ---------------------------------------------------------------------------
// Plain numbers
// ---------------------------------------------------------------------------

/// The quantity in a text that is a number, white space around it aside.
pub open spec fn plain_value(s: Seq<char>, quantity: Quantity) -> Option<i64> {
    match number::parse_i64(text::trim(s)) {
        Some(raw) => normalized(quantity, raw),
        None => None,
    }
}

/// The quantity in the first line that gives one.
pub open spec fn first_line_value(output: Seq<char>, quantity: Quantity) -> Option<i64> {
    text::first_some(text::lines(output), |line: Seq<char>| plain_value(line, quantity))
}

/// Reads the quantity in a text that is a number.
pub fn parse_plain_value(s: &[char], quantity: Quantity) -> (r: Option<i64>)
    ensures
        r == plain_value(s@, quantity),
{
    match read_i64(trimmed(s)) {
        Some(raw) => normalize(quantity, raw),
        None => None,
    }
}

/// Reads the quantity in the first line that gives one.
pub fn parse_first_line_value(output: &str, quantity: Quantity) -> (r: Option<i64>)
    ensures
        r == first_line_value(output@, quantity),
{
    let chars = chars_of(output);
    let lines = split_lines(chars.as_slice());
    let ghost all = text::lines(output@);
    let ghost f = |line: Seq<char>| plain_value(line, quantity);
    let mut i: usize = 0;
    proof {
        text::lemma_first_some_at(all, f, 0);
    }
    while i < lines.len()
        invariant
            i <= lines@.len(),
            all == text::lines(output@),
            all == text::views(lines@),
            f == (|line: Seq<char>| plain_value(line, quantity)),
            text::first_some(all, f) == text::first_some(all.skip(i as int), f),
        decreases lines@.len() - i,
    {
        proof {
            text::lemma_first_some_at(all, f, i as int);
        }
        let value = parse_plain_value(lines[i], quantity);
        if value.is_some() {
            return value;
        }
        i = i + 1;
    }
    proof {
        text::lemma_first_some_at(all, f, i as int);
    }
    None
}

// ---------------------------------------------------------------------------
// The battery service dump
// ---------------------------------------------------------------------------

/// The millivolts in a line of the form `voltage: <number> ...`.
pub open spec fn dumpsys_line(line: Seq<char>) -> Option<i64> {
    match text::strip_prefix(text::trim(line), "voltage:"@) {
        Some(rest) => {
            let fields = text::words(text::trim(rest));
            if fields.len() > 0 {
                match number::parse_i64(fields[0]) {
                    Some(raw) => millivolts(raw),
                    None => None,
                }
            } else {
                None
            }
        },
        None => None,
    }
}

/// The millivolts in the first line of a battery service dump that gives them.
pub open spec fn dumpsys_voltage(output: Seq<char>) -> Option<i64> {
    text::first_some(text::lines(output), |line: Seq<char>| dumpsys_line(line))
}

fn parse_dumpsys_line(line: &[char]) -> (r: Option<i64>)
    ensures
        r == dumpsys_line(line@),
{
    match after_prefix(trimmed(line), "voltage:") {
        Some(rest) => {
            let fields = split_words(trimmed(rest));
            if fields.len() > 0 {
                assert(text::views(fields@)[0] == fields@[0]@);
                match read_i64(fields[0]) {
                    Some(raw) => normalize_voltage_mv(raw),
                    None => None,
                }
            } else {
                None
            }
        },
        None => None,
    }
}

/// Reads the millivolts from a battery service dump.
pub fn parse_dumpsys_voltage_mv(output: &str) -> (r: Option<i64>)
    ensures
        r == dumpsys_voltage(output@),
{
    let chars = chars_of(output);
    let lines = split_lines(chars.as_slice());
    let ghost all = text::lines(output@);
    let ghost f = |line: Seq<char>| dumpsys_line(line);
    let mut i: usize = 0;
    proof {
        text::lemma_first_some_at(all, f, 0);
    }
    while i < lines.len()
        invariant
            i <= lines@.len(),
            all == text::lines(output@),
            all == text::views(lines@),
            f == (|line: Seq<char>| dumpsys_line(line)),
            text::first_some(all, f) == text::first_some(all.skip(i as int), f),
        decreases lines@.len() - i,
    {
        proof {
            text::lemma_first_some_at(all, f, i as int);
        }
        let value = parse_dumpsys_line(lines[i]);
        if value.is_some() {
            return value;
        }
        i = i + 1;
    }
    proof {
        text::lemma_first_some_at(all, f, i as int);
    }
    None
}

// ---------------------------------------------------------------------------
// The charging log of Xiaomi devices
// ---------------------------------------------------------------------------

/// The readings of one moment.
#[derive(Debug, Clone, Copy, PartialEq, Eq, Structural)]
pub struct PowerSnapshot {
    /// Voltage in millivolts.
    pub voltage_mv: Option<i64>,
    /// Current in milliamperes.
    pub current_ma: Option<i64>,
    /// Power in milliwatts.
    pub power_mw: Option<i64>,
}

/// The readings of one moment, with the power that voltage and current make.
pub open spec fn snapshot_of(voltage_mv: Option<i64>, current_ma: Option<i64>) -> PowerSnapshot {
    PowerSnapshot { voltage_mv, current_ma, power_mw: milliwatts_of(voltage_mv, current_ma) }
}

/// The method and the value in a line `... MiCharge method <method> val = <value>`.
pub open spec fn micharge_line(line: Seq<char>) -> Option<(i32, i64)> {
    match text::split_once(line, "MiCharge method "@) {
        Some(outer) => match text::split_once(outer.1, " val = "@) {
            Some(inner) => match (
                number::parse_i32(text::trim(inner.0)),
                number::parse_i64(text::trim(inner.1)),
            ) {
                (Some(method), Some(value)) => Some((method, value)),
                _ => None,
            },
            None => None,
        },
        None => None,
    }
}

/// The quantity in a line that reports the given method.
pub open spec fn micharge_value(line: Seq<char>, method: i32, quantity: Quantity) -> Option<i64> {
    match micharge_line(line) {
        Some(parsed) => if parsed.0 == method {
            normalized(quantity, parsed.1)
        } else {
            None
        },
        None => None,
    }
}

/// The quantity in the last line that reports the given method.
pub open spec fn micharge_latest(output: Seq<char>, method: i32, quantity: Quantity) -> Option<i64> {
    text::last_some(text::lines(output), |line: Seq<char>| micharge_value(line, method, quantity))
}

/// The latest readings in the log: method 11 reports the voltage, method 6 the current.
pub open spec fn micharge_snapshot(output: Seq<char>) -> PowerSnapshot {
    snapshot_of(
        micharge_latest(output, 11, Quantity::Voltage),
        micharge_latest(output, 6, Quantity::Current),
    )
}

fn parse_micharge_chars(line: &[char]) -> (r: Option<(i32, i64)>)
    ensures
        r == micharge_line(line@),
{
    match cut(line, "MiCharge method ") {
        Some(outer) => match cut(outer.1, " val = ") {
            Some(inner) => match read_i32(trimmed(inner.0)) {
                Some(method) => match read_i64(trimmed(inner.1)) {
                    Some(value) => Some((method, value)),
                    None => None,
                },
                None => None,
            },
            None => None,
        },
        None => None,
    }
}

/// Reads the method and the value from a line of the log.
pub fn parse_micharge_line(line: &str) -> (r: Option<(i32, i64)>)
    ensures
        r == micharge_line(line@),
{
    let chars = chars_of(line);
    parse_micharge_chars(chars.as_slice())
}

/// Reads the quantity from the last line that reports the given method.
pub fn parse_micharge_method_value(output: &str, method_id: i32, quantity: Quantity) -> (r: Option<
    i64,
>)
    ensures
        r == micharge_latest(output@, method_id, quantity),
{
    let chars = chars_of(output);
    let lines = split_lines(chars.as_slice());
    let ghost all = text::lines(output@);
    let ghost f = |line: Seq<char>| micharge_value(line, method_id, quantity);
    let mut n: usize = lines.len();
    proof {
        text::lemma_last_some_at(all, f, all.len() as int);
    }
    while n > 0
        invariant
            n <= lines@.len(),
            all == text::lines(output@),
            all == text::views(lines@),
            f == (|line: Seq<char>| micharge_value(line, method_id, quantity)),
            text::last_some(all, f) == text::last_some(all.take(n as int), f),
        decreases n,
    {
        proof {
            text::lemma_last_some_at(all, f, n as int);
        }
        match parse_micharge_chars(lines[n - 1]) {
            Some(parsed) => {
                if parsed.0 == method_id {
                    let value = normalize(quantity, parsed.1);
                    if value.is_some() {
                        return value;
                    }
                }
            },
            None => {},
        }
        n = n - 1;
    }
    proof {
        text::lemma_last_some_at(all, f, 0);
    }
    None
}

/// Reads the latest readings from the log.
pub fn parse_micharge_snapshot(output: &str) -> (r: PowerSnapshot)
    ensures
        r == micharge_snapshot(output@),
{
    let voltage_mv = parse_micharge_method_value(output, 11, Quantity::Voltage);
    let current_ma = parse_micharge_method_value(output, 6, Quantity::Current);
    PowerSnapshot { voltage_mv, current_ma, power_mw: power_from(voltage_mv, current_ma) }
}

// ---------------------------------------------------------------------------
// Keyed lines
// ---------------------------------------------------------------------------

/// The quantity in a line of the form `<key>=<number>`.
pub open spec fn keyed_line(line: Seq<char>, key: Seq<char>, quantity: Quantity) -> Option<i64> {
    match text::strip_prefix(text::trim(line), key) {
        Some(rest) => match text::strip_prefix(rest, "="@) {
            Some(value) => plain_value(value, quantity),
            None => None,
        },
        None => None,
    }
}

/// The quantity that a line gives under the first of the keys that gives one.
pub open spec fn keyed_by_any(line: Seq<char>, keys: Seq<Seq<char>>, quantity: Quantity) -> Option<
    i64,
> {
    text::first_some(keys, |key: Seq<char>| keyed_line(line, key, quantity))
}

/// The quantity in the first line that gives it under one of the keys.
pub open spec fn keyed_value(output: Seq<char>, keys: Seq<Seq<char>>, quantity: Quantity) -> Option<
    i64,
> {
    text::first_some(text::lines(output), |line: Seq<char>| keyed_by_any(line, keys, quantity))
}

fn parse_keyed_line(line: &[char], key: &str, quantity: Quantity) -> (r: Option<i64>)
    ensures
        r == keyed_line(line@, key@, quantity),
{
    match after_prefix(trimmed(line), key) {
        Some(rest) => match after_prefix(rest, "=") {
            Some(value) => parse_plain_value(value, quantity),
            None => None,
        },
        None => None,
    }
}

fn parse_line_by_keys(line: &[char], keys: &[&str], quantity: Quantity) -> (r: Option<i64>)
    ensures
        r == keyed_by_any(line@, text::views(keys@), quantity),
{
    let ghost all = text::views(keys@);
    let ghost f = |key: Seq<char>| keyed_line(line@, key, quantity);
    let mut i: usize = 0;
    proof {
        text::lemma_first_some_at(all, f, 0);
    }
    while i < keys.len()
        invariant
            i <= keys@.len(),
            all == text::views(keys@),
            f == (|key: Seq<char>| keyed_line(line@, key, quantity)),
            text::first_some(all, f) == text::first_some(all.skip(i as int), f),
        decreases keys@.len() - i,
    {
        proof {
            text::lemma_first_some_at(all, f, i as int);
        }
        let value = parse_keyed_line(line, keys[i], quantity);
        if value.is_some() {
            return value;
        }
        i = i + 1;
    }
    proof {
        text::lemma_first_some_at(all, f, i as int);
    }
    None
}

/// Reads the quantity from the first line that gives it under one of the keys.
pub fn parse_keyed_value(output: &str, keys: &[&str], quantity: Quantity) -> (r: Option<i64>)
    ensures
        r == keyed_value(output@, text::views(keys@), quantity),
{
    let chars = chars_of(output);
    let lines = split_lines(chars.as_slice());
    let ghost all = text::lines(output@);
    let ghost names = text::views(keys@);
    let ghost f = |line: Seq<char>| keyed_by_any(line, names, quantity);
    let mut i: usize = 0;
    proof {
        text::lemma_first_some_at(all, f, 0);
    }
    while i < lines.len()
        invariant
            i <= lines@.len(),
            all == text::lines(output@),
            all == text::views(lines@),
            names == text::views(keys@),
            f == (|line: Seq<char>| keyed_by_any(line, names, quantity)),
            text::first_some(all, f) == text::first_some(all.skip(i as int), f),
        decreases lines@.len() - i,
    {
        proof {
            text::lemma_first_some_at(all, f, i as int);
        }
        let value = parse_line_by_keys(lines[i], keys, quantity);
        if value.is_some() {
            return value;
        }
        i = i + 1;
    }
    proof {
        text::lemma_first_some_at(all, f, i as int);
    }
    None
}

// ---------------------------------------------------------------------------
// The power supply directories
// ---------------------------------------------------------------------------

/// What one power supply directory says of itself.
#[derive(Debug)]
pub struct PowerSupplyEntry {
    /// The path of the directory.
    pub path: String,
    /// The last component of the path.
    pub name: String,
    /// The kind of supply.
    pub supply_type: Option<String>,
    /// The charging status.
    pub status: Option<String>,
    /// The present current.
    pub current_now_raw: Option<i64>,
    /// The average current.
    pub current_avg_raw: Option<i64>,
    /// The present current of the battery, in microamperes.
    pub batt_current_ua_now_raw: Option<i64>,
    /// The present voltage.
    pub voltage_now_raw: Option<i64>,
}

/// What one power supply directory says of itself, abstractly.
pub struct Supply {
    /// The path of the directory.
    pub path: Seq<char>,
    /// The last component of the path.
    pub name: Seq<char>,
    /// The kind of supply.
    pub supply_type: Option<Seq<char>>,
    /// The charging status.
    pub status: Option<Seq<char>>,
    /// The present current.
    pub current_now: Option<i64>,
    /// The average current.
    pub current_avg: Option<i64>,
    /// The present current of the battery.
    pub batt_current: Option<i64>,
    /// The present voltage.
    pub voltage_now: Option<i64>,
}

impl View for PowerSupplyEntry {
    type V = Supply;

    open spec fn view(&self) -> Supply {
        Supply {
            path: self.path@,
            name: self.name@,
            supply_type: text::optional(self.supply_type),
            status: text::optional(self.status),
            current_now: self.current_now_raw,
            current_avg: self.current_avg_raw,
            batt_current: self.batt_current_ua_now_raw,
            voltage_now: self.voltage_now_raw,
        }
    }
}

/// The path in a line of the form `== <path> ==`, white space around it aside.
pub open spec fn header_path(line: Seq<char>) -> Option<Seq<char>> {
    match text::strip_prefix(text::trim(line), "== "@) {
        Some(rest) => text::strip_suffix(rest, " =="@),
        None => None,
    }
}

/// A directory of which only the path is known.
pub open spec fn bare_supply(path: Seq<char>) -> Supply {
    Supply {
        path,
        name: text::split_on(path, CharClass::One('/')).last(),
        supply_type: None,
        status: None,
        current_now: None,
        current_avg: None,
        batt_current: None,
        voltage_now: None,
    }
}

/// What is known of a directory after one more line of the form `<field>=<value>`.
pub open spec fn with_line(supply: Supply, line: Seq<char>) -> Supply {
    let t = text::trim(line);
    if let Some(v) = text::strip_prefix(t, "type="@) {
        Supply { supply_type: Some(text::trim(v)), ..supply }
    } else if let Some(v) = text::strip_prefix(t, "status="@) {
        Supply { status: Some(text::trim(v)), ..supply }
    } else if let Some(v) = text::strip_prefix(t, "current_now="@) {
        Supply { current_now: number::parse_i64(text::trim(v)), ..supply }
    } else if let Some(v) = text::strip_prefix(t, "current_avg="@) {
        Supply { current_avg: number::parse_i64(text::trim(v)), ..supply }
    } else if let Some(v) = text::strip_prefix(t, "batt_current_ua_now="@) {
        Supply { batt_current: number::parse_i64(text::trim(v)), ..supply }
    } else if let Some(v) = text::strip_prefix(t, "voltage_now="@) {
        Supply { voltage_now: number::parse_i64(text::trim(v)), ..supply }
    } else {
        supply
    }
}

/// The directories that the lines describe. A header begins a directory; the lines behind it,
/// up to the next header, belong to it; lines before the first header belong to none.
pub open spec fn supplies(lines: Seq<Seq<char>>) -> Seq<Supply>
    decreases lines.len(),
{
    if lines.len() == 0 {
        Seq::empty()
    } else {
        let before = supplies(lines.drop_last());
        match header_path(lines.last()) {
            Some(path) => before.push(bare_supply(path)),
            None => if before.len() == 0 {
                before
            } else {
                before.drop_last().push(with_line(before.last(), lines.last()))
            },
        }
    }
}

/// How much a directory looks like that of the battery.
pub open spec fn score(supply: Supply) -> int {
    let by_type: int = if supply.supply_type matches Some(kind) && text::lower(kind) == text::lower(
        "Battery"@,
    ) {
        100
    } else {
        0
    };
    let name = text::lower(supply.name);
    let by_name: int = if text::contains(name, "battery"@) {
        80
    } else if text::contains(name, "bms"@) {
        60
    } else if text::contains(name, "fg"@) || text::contains(name, "fuel"@) || text::contains(
        name,
        "max"@,
    ) {
        40
    } else {
        0
    };
    let by_voltage: int = if supply.voltage_now is Some {
        10
    } else {
        0
    };
    let by_current: int = if supply.current_now is Some || supply.batt_current is Some {
        15
    } else if supply.current_avg is Some {
        8
    } else {
        0
    };
    let by_status: int = if supply.status matches Some(status) && is_battery_status(
        text::lower(status),
    ) {
        5
    } else {
        0
    };
    by_type + by_name + by_voltage + by_current + by_status
}

/// Whether a status, in lower case, is one that a battery has.
pub open spec fn is_battery_status(status: Seq<char>) -> bool {
    status == "charging"@ || status == "discharging"@ || status == "full"@ || status
        == "not charging"@
}

/// A raw current in milliamperes, if it is there and has a magnitude.
pub open spec fn milliamperes_of(raw: Option<i64>) -> Option<i64> {
    match raw {
        Some(raw) => milliamperes(raw),
        None => None,
    }
}

/// The quantity that a directory gives. Of the currents the present one is preferred, then that
/// of the battery, then the average.
pub open spec fn supply_value(supply: Supply, quantity: Quantity) -> Option<i64> {
    match quantity {
        Quantity::Voltage => match supply.voltage_now {
            Some(raw) => millivolts(raw),
            None => None,
        },
        Quantity::Current => if milliamperes_of(supply.current_now) is Some {
            milliamperes_of(supply.current_now)
        } else if milliamperes_of(supply.batt_current) is Some {
            milliamperes_of(supply.batt_current)
        } else {
            milliamperes_of(supply.current_avg)
        },
    }
}

/// The place of the directory with the highest score among those that give the quantity; of
/// several with that score, the last.
pub open spec fn best_place(supplies: Seq<Supply>, quantity: Quantity) -> Option<int>
    decreases supplies.len(),
{
    if supplies.len() == 0 {
        None
    } else {
        let last = supplies.len() - 1;
        match best_place(supplies.drop_last(), quantity) {
            Some(place) if supply_value(supplies[last], quantity) is None || score(supplies[place])
                > score(supplies[last]) => Some(place),
            _ => if supply_value(supplies[last], quantity) is Some {
                Some(last)
            } else {
                None
            },
        }
    }
}

/// The quantity of the directory with the highest score.
pub open spec fn best_value(supplies: Seq<Supply>, quantity: Quantity) -> Option<i64> {
    match best_place(supplies, quantity) {
        Some(place) => supply_value(supplies[place], quantity),
        None => None,
    }
}

/// The directory that is chosen gives the quantity; none that gives it has a higher score, and
/// none behind it has the same. Where none is chosen, none gives the quantity.
pub proof fn law_best_place(supplies: Seq<Supply>, quantity: Quantity)
    ensures
        match best_place(supplies, quantity) {
            Some(place) => {
                &&& 0 <= place < supplies.len()
                &&& supply_value(supplies[place], quantity) is Some
                &&& forall|i: int|
                    0 <= i < supplies.len() && supply_value(#[trigger] supplies[i], quantity) is Some
                        ==> score(supplies[i]) <= score(supplies[place])
                &&& forall|i: int|
                    place < i < supplies.len() && supply_value(#[trigger] supplies[i], quantity) is Some
                        ==> score(supplies[i]) < score(supplies[place])
            },
            None => forall|i: int|
                0 <= i < supplies.len() ==> supply_value(#[trigger] supplies[i], quantity) is None,
        },
    decreases supplies.len(),
{
    if supplies.len() > 0 {
        let rest = supplies.drop_last();
        law_best_place(rest, quantity);
        assert forall|i: int| 0 <= i < rest.len() implies rest[i] == #[trigger] supplies[i] by {}
    }
}

/// The readings of the directories in the output of a scan.
pub open spec fn scan_snapshot(output: Seq<char>) -> PowerSnapshot {
    let found = supplies(text::lines(output));
    snapshot_of(best_value(found, Quantity::Voltage), best_value(found, Quantity::Current))
}

fn parse_header(line: &[char]) -> (r: Option<String>)
    ensures
        text::optional(r) == header_path(line@),
{
    match after_prefix(trimmed(line), "== ") {
        Some(rest) => match before_suffix(rest, " ==") {
            Some(path) => Some(string_of(path)),
            None => None,
        },
        None => None,
    }
}

fn new_entry(path: String) -> (r: PowerSupplyEntry)
    ensures
        r@ == bare_supply(path@),
{
    let chars = chars_of(path.as_str());
    let pieces = split_at_class(chars.as_slice(), CharClass::One('/'));
    proof {
        assert(text::views(pieces@).len() == pieces@.len());
        text::lemma_split_on_nonempty(path@, CharClass::One('/'));
    }
    let name = string_of(pieces[pieces.len() - 1]);
    PowerSupplyEntry {
        path,
        name,
        supply_type: None,
        status: None,
        current_now_raw: None,
        current_avg_raw: None,
        batt_current_ua_now_raw: None,
        voltage_now_raw: None,
    }
}

fn entry_with_line(entry: PowerSupplyEntry, line: &[char]) -> (r: PowerSupplyEntry)
    ensures
        r@ == with_line(entry@, line@),
{
    let mut entry = entry;
    let t = trimmed(line);
    if let Some(value) = after_prefix(t, "type=") {
        entry.supply_type = Some(string_of(trimmed(value)));
    } else if let Some(value) = after_prefix(t, "status=") {
        entry.status = Some(string_of(trimmed(value)));
    } else if let Some(value) = after_prefix(t, "current_now=") {
        entry.current_now_raw = read_i64(trimmed(value));
    } else if let Some(value) = after_prefix(t, "current_avg=") {
        entry.current_avg_raw = read_i64(trimmed(value));
    } else if let Some(value) = after_prefix(t, "batt_current_ua_now=") {
        entry.batt_current_ua_now_raw = read_i64(trimmed(value));
    } else if let Some(value) = after_prefix(t, "voltage_now=") {
        entry.voltage_now_raw = read_i64(trimmed(value));
    }
    entry
}

/// Reads the directories from the output of a scan.
pub fn parse_power_supply_scan(output: &str) -> (r: Vec<PowerSupplyEntry>)
    ensures
        text::views(r@) == supplies(text::lines(output@)),
{
    broadcast use text::lemma_views_push;

    let chars = chars_of(output);
    let lines = split_lines(chars.as_slice());
    let ghost all = text::lines(output@);
    let mut entries: Vec<PowerSupplyEntry> = Vec::new();
    let mut i: usize = 0;
    assert(text::views(entries@) =~= supplies(all.take(0)));
    while i < lines.len()
        invariant
            i <= lines@.len(),
            all == text::views(lines@),
            text::views(entries@) == supplies(all.take(i as int)),
        decreases lines@.len() - i,
    {
        let line = lines[i];
        let ghost before = entries@;
        proof {
            assert(all.take(i + 1).drop_last() =~= all.take(i as int));
            assert(all.take(i + 1).last() == line@);
        }
        match parse_header(line) {
            Some(path) => {
                let entry = new_entry(path);
                entries.push(entry);
                assert(text::views(entries@) == text::views(before).push(entry@));
            },
            None => {
                match entries.pop() {
                    Some(entry) => {
                        let ghost rest = entries@;
                        assert(text::views(rest) =~= text::views(before).drop_last());
                        assert(entry@ == text::views(before).last());
                        let entry = entry_with_line(entry, line);
                        entries.push(entry);
                        assert(text::views(entries@) == text::views(rest).push(entry@));
                    },
                    None => {
                        assert(entries@ =~= before);
                    },
                }
            },
        }
        i = i + 1;
    }
    assert(all.take(i as int) =~= all);
    entries
}

/// How much a directory looks like that of the battery.
pub fn power_supply_entry_score(entry: &PowerSupplyEntry) -> (r: i32)
    ensures
        r == score(entry@),
{
    let mut total: i32 = 0;
    if let Some(kind) = &entry.supply_type {
        let kind = chars_of(kind.as_str());
        let battery = chars_of("Battery");
        let kind = lowered(kind.as_slice());
        let battery = lowered(battery.as_slice());
        if same(kind.as_slice(), battery.as_slice()) {
            total = total + 100;
        }
    }
    let name = chars_of(entry.name.as_str());
    let name = lowered(name.as_slice());
    if has_text(name.as_slice(), "battery") {
        total = total + 80;
    } else if has_text(name.as_slice(), "bms") {
        total = total + 60;
    } else if has_text(name.as_slice(), "fg") || has_text(name.as_slice(), "fuel") || has_text(
        name.as_slice(),
        "max",
    ) {
        total = total + 40;
    }
    if entry.voltage_now_raw.is_some() {
        total = total + 10;
    }
    if entry.current_now_raw.is_some() || entry.batt_current_ua_now_raw.is_some() {
        total = total + 15;
    } else if entry.current_avg_raw.is_some() {
        total = total + 8;
    }
    if let Some(status) = &entry.status {
        let status = chars_of(status.as_str());
        let status = lowered(status.as_slice());
        let s = status.as_slice();
        if reads(s, "charging") || reads(s, "discharging") || reads(s, "full") || reads(s, "not charging") {
            total = total + 5;
        }
    }
    total
}

/// The current that a directory gives.
pub fn power_supply_entry_current_ma(entry: &PowerSupplyEntry) -> (r: Option<i64>)
    ensures
        r == supply_value(entry@, Quantity::Current),
{
    if let Some(raw) = entry.current_now_raw {
        let value = normalize_current_ma(raw);
        if value.is_some() {
            return value;
        }
    }
    if let Some(raw) = entry.batt_current_ua_now_raw {
        let value = normalize_current_ma(raw);
        if value.is_some() {
            return value;
        }
    }
    match entry.current_avg_raw {
        Some(raw) => normalize_current_ma(raw),
        None => None,
    }
}

fn entry_value(entry: &PowerSupplyEntry, quantity: Quantity) -> (r: Option<i64>)
    ensures
        r == supply_value(entry@, quantity),
{
    match quantity {
        Quantity::Voltage => match entry.voltage_now_raw {
            Some(raw) => normalize_voltage_mv(raw),
            None => None,
        },
        Quantity::Current => power_supply_entry_current_ma(entry),
    }
}

fn best_from_power_supply_entries(entries: &[PowerSupplyEntry], quantity: Quantity) -> (r: Option<
    i64,
>)
    ensures
        r == best_value(text::views(entries@), quantity),
{
    let ghost all = text::views(entries@);
    let mut best: Option<(i32, i64)> = None;
    let mut i: usize = 0;
    while i < entries.len()
        invariant
            i <= entries@.len(),
            all == text::views(entries@),
            match best {
                Some(b) => {
                    &&& best_place(all.take(i as int), quantity) matches Some(place)
                    &&& 0 <= place < i
                    &&& b.0 == score(all[place])
                    &&& supply_value(all[place], quantity) == Some(b.1)
                },
                None => best_place(all.take(i as int), quantity) is None,
            },
        decreases entries@.len() - i,
    {
        let entry = &entries[i];
        assert(all.take(i + 1).drop_last() =~= all.take(i as int));
        assert(all[i as int] == entry@);
        if let Some(value) = entry_value(entry, quantity) {
            let points: i32 = power_supply_entry_score(entry);
            let better: bool = match best {
                Some(b) => b.0 <= points,
                None => true,
            };
            if better {
                best = Some((points, value));
            }
        }
        i = i + 1;
    }
    assert(all.take(i as int) =~= all);
    match best {
        Some(b) => Some(b.1),
        None => None,
    }
}

/// The voltage of the directory with the highest score.
pub fn best_voltage_from_power_supply_entries(entries: &[PowerSupplyEntry]) -> (r: Option<i64>)
    ensures
        r == best_value(text::views(entries@), Quantity::Voltage),
{
    best_from_power_supply_entries(entries, Quantity::Voltage)
}

/// The current of the directory with the highest score.
pub fn best_current_from_power_supply_entries(entries: &[PowerSupplyEntry]) -> (r: Option<i64>)
    ensures
        r == best_value(text::views(entries@), Quantity::Current),
{
    best_from_power_supply_entries(entries, Quantity::Current)
}

/// The readings of the directories in the output of a scan.
pub fn parse_scan_snapshot(output: &str) -> (r: PowerSnapshot)
    ensures
        r == scan_snapshot(output@),
{
    let entries = parse_power_supply_scan(output);
    let voltage_mv = best_voltage_from_power_supply_entries(entries.as_slice());
    let current_ma = best_current_from_power_supply_entries(entries.as_slice());
    PowerSnapshot { voltage_mv, current_ma, power_mw: power_from(voltage_mv, current_ma) }
}

// ---------------------------------------------------------------------------
// Laws
// ---------------------------------------------------------------------------

/// Readings in millivolts and in microvolts of one voltage come to the same, and so do those in
/// milliamperes and in microamperes of one current, whichever way it flows. Parts of a unit are
/// dropped, and a voltage that is not positive is none.
pub proof fn law_units(raw: i64)
    ensures
        10 <= raw < 10_000 ==> millivolts(raw) == Some(raw) && millivolts((raw * 1000) as i64)
            == Some(raw),
        0 < raw < 10 ==> millivolts(raw) == Some(raw),
        raw >= 10_000 ==> (millivolts(raw) matches Some(mv) && mv * 1000 <= raw < mv * 1000 + 1000),
        raw <= 0 ==> millivolts(raw) is None,
        10 <= raw < 10_000 ==> milliamperes(raw) == Some(raw) && milliamperes((raw * 1000) as i64)
            == Some(raw),
        0 <= raw < 10 ==> milliamperes(raw) == Some(raw),
        raw >= 10_000 ==> (milliamperes(raw) matches Some(ma) && ma * 1000 <= raw < ma * 1000
            + 1000),
        raw > i64::MIN ==> milliamperes((-raw) as i64) == milliamperes(raw),
        raw == i64::MIN ==> milliamperes(raw) is None,
{
}

/// Milliwatts are a thousandth of millivolts times milliamperes, parts of a milliwatt dropped.
/// There is a power exactly where there are a voltage and a current.
pub proof fn law_milliwatts(voltage_mv: i64, current_ma: i64)
    requires
        voltage_mv >= 0,
        current_ma >= 0,
    ensures
        voltage_mv * current_ma <= i64::MAX ==> milliwatts(voltage_mv, current_ma) * 1000
            <= voltage_mv * current_ma < milliwatts(voltage_mv, current_ma) * 1000 + 1000,
        voltage_mv * current_ma > i64::MAX ==> milliwatts(voltage_mv, current_ma) == i64::MAX
            / 1000,
        snapshot_of(Some(voltage_mv), Some(current_ma)) == (PowerSnapshot {
            voltage_mv: Some(voltage_mv),
            current_ma: Some(current_ma),
            power_mw: Some(milliwatts(voltage_mv, current_ma)),
        }),
        snapshot_of(Some(voltage_mv), None) == (PowerSnapshot {
            voltage_mv: Some(voltage_mv),
            current_ma: None,
            power_mw: None,
        }),
        snapshot_of(None, Some(current_ma)) == (PowerSnapshot {
            voltage_mv: None,
            current_ma: Some(current_ma),
            power_mw: None,
        }),
{
    assert(voltage_mv * current_ma >= 0) by (nonlinear_arith)
        requires
            voltage_mv >= 0,
            current_ma >= 0,
    ;
}

/// A printed number neither begins nor ends in white space and holds none.
pub proof fn lemma_decimal_has_no_white(n: int)
    ensures
        number::decimal_int(n).len() > 0,
        text::is_free_of(number::decimal_int(n), CharClass::White),
        n >= 0 ==> number::decimal_int(n) == number::decimal(n as nat),
        forall|i: int|
            0 <= i < number::decimal_int(n).len() ==> #[trigger] number::decimal_int(n)[i] == '-'
                || text::is_digit(number::decimal_int(n)[i]),
{
    let d = number::decimal_int(n);
    let m = if n < 0 {
        (-n) as nat
    } else {
        n as nat
    };
    number::lemma_decimal(m);
    assert forall|i: int| 0 <= i < d.len() implies #[trigger] d[i] == '-' || text::is_digit(
        d[i],
    ) by {
        if n < 0 && i > 0 {
            assert(d[i] == number::decimal(m)[i - 1]);
        } else if n >= 0 {
            assert(d[i] == number::decimal(m)[i]);
        }
    }
    assert forall|i: int| 0 <= i < d.len() implies !CharClass::White.holds(#[trigger] d[i]) by {
        assert(d[i] == '-' || text::is_digit(d[i]));
    }
}

/// A printed number is read as the number, also with white space around it.
pub proof fn lemma_printed(before: Seq<char>, n: int, behind: Seq<char>)
    requires
        i64::MIN <= n <= i64::MAX,
        text::is_made_of(before, CharClass::White),
        text::is_made_of(behind, CharClass::White),
    ensures
        text::trim(before + number::decimal_int(n) + behind) == number::decimal_int(n),
        number::parse_i64(number::decimal_int(n)) == Some(n as i64),
{
    let d = number::decimal_int(n);
    lemma_decimal_has_no_white(n);
    assert(!CharClass::White.holds(d[0]) && !CharClass::White.holds(d[d.len() - 1]));
    text::law_trim(before, d, behind, CharClass::White);
    number::law_parse_decimal_int(n, i64::MAX as nat);
}

/// A file that holds a printed number, white space around it aside, gives that number as a
/// voltage or a current.
pub proof fn law_plain_numbers(before: Seq<char>, n: int, behind: Seq<char>)
    requires
        i64::MIN <= n <= i64::MAX,
        text::is_made_of(before, CharClass::White),
        text::is_made_of(behind, CharClass::White),
    ensures
        plain_value(before + number::decimal_int(n) + behind, Quantity::Voltage) == millivolts(
            n as i64,
        ),
        plain_value(before + number::decimal_int(n) + behind, Quantity::Current) == milliamperes(
            n as i64,
        ),
{
    lemma_printed(before, n, behind);
}

/// A line of the battery service that names the voltage gives it; so does a line that gives it
/// under the asked key.
pub proof fn law_named_numbers(n: int, key: Seq<char>)
    requires
        i64::MIN <= n <= i64::MAX,
        key.len() > 0,
        !text::is_white(key[0]),
    ensures
        dumpsys_line("voltage: "@ + number::decimal_int(n)) == millivolts(n as i64),
        keyed_line(key + "="@ + number::decimal_int(n), key, Quantity::Voltage) == millivolts(
            n as i64,
        ),
        keyed_line(key + "="@ + number::decimal_int(n), key, Quantity::Current) == milliamperes(
            n as i64,
        ),
{
    lemma_dumpsys_number(n);
    lemma_keyed_number(n, key);
}

#[verifier::rlimit(40)]
proof fn lemma_dumpsys_number(n: int)
    requires
        i64::MIN <= n <= i64::MAX,
    ensures
        dumpsys_line("voltage: "@ + number::decimal_int(n)) == millivolts(n as i64),
{
    let d = number::decimal_int(n);
    let none = Seq::<char>::empty();
    lemma_decimal_has_no_white(n);
    assert(!CharClass::White.holds(d[d.len() - 1]));
    reveal_strlit("voltage: ");
    reveal_strlit("voltage:");
    let line = "voltage: "@ + d;
    assert(line[0] == 'v');
    assert(line.last() == d.last());
    text::lemma_trim_nothing(line);
    let rest = seq![' '] + d;
    assert(line =~= "voltage:"@ + rest);
    text::law_strip(rest, "voltage:"@);
    lemma_printed(seq![' '], n, none);
    assert(seq![' '] + d + none =~= rest);
    text::law_words(d, ' ', none);
}

proof fn lemma_keyed_number(n: int, key: Seq<char>)
    requires
        i64::MIN <= n <= i64::MAX,
        key.len() > 0,
        !text::is_white(key[0]),
    ensures
        keyed_line(key + "="@ + number::decimal_int(n), key, Quantity::Voltage) == millivolts(
            n as i64,
        ),
        keyed_line(key + "="@ + number::decimal_int(n), key, Quantity::Current) == milliamperes(
            n as i64,
        ),
{
    let d = number::decimal_int(n);
    let none = Seq::<char>::empty();
    lemma_decimal_has_no_white(n);
    assert(!CharClass::White.holds(d[d.len() - 1]));
    lemma_printed(none, n, none);
    assert(none + d + none =~= d);
    let keyed = key + "="@ + d;
    assert(keyed[0] == key[0]);
    assert(keyed.last() == d.last());
    text::lemma_trim_nothing(keyed);
    assert(keyed =~= key + ("="@ + d));
    text::law_strip("="@ + d, key);
    text::law_strip(d, "="@);
}

/// A line of the charging log gives the method and the value that it reports.
pub proof fn law_micharge_line(before: Seq<char>, method: int, n: int)
    requires
        0 <= method <= i32::MAX,
        i64::MIN <= n <= i64::MAX,
        text::is_free_of(before, CharClass::One('M')),
    ensures
        micharge_line(
            before + "MiCharge method "@ + number::decimal_int(method) + " val = "@
                + number::decimal_int(n),
        ) == Some((method as i32, n as i64)),
{
    let m = number::decimal_int(method);
    let d = number::decimal_int(n);
    let none = Seq::<char>::empty();
    reveal_strlit("MiCharge method ");
    reveal_strlit(" val = ");
    lemma_decimal_has_no_white(method);
    lemma_decimal_has_no_white(n);
    lemma_printed(none, method, none);
    lemma_printed(none, n, none);
    assert(none + m + none =~= m);
    assert(none + d + none =~= d);
    number::law_parse_decimal_int(method, i32::MAX as nat);
    let p = "MiCharge method "@;
    let q = " val = "@;
    let line = before + p + m + q + d;
    let k = before.len() as int;
    assert(line.subrange(k, k + p.len()) =~= p);
    assert forall|j: int| 0 <= j < k implies !text::occurs_at(line, p, j) by {
        if text::occurs_at(line, p, j) {
            assert(line.subrange(j, j + p.len())[0] == before[j]);
            assert(!CharClass::One('M').holds(before[j]));
        }
    }
    text::lemma_split_once_is(line, p, k);
    let rest = m + q + d;
    assert(line.skip(k + p.len()) =~= rest);
    let l = m.len() as int;
    assert(rest.subrange(l, l + q.len()) =~= q);
    assert forall|j: int| 0 <= j < l implies !text::occurs_at(rest, q, j) by {
        if text::occurs_at(rest, q, j) {
            assert(rest.subrange(j, j + q.len())[0] == m[j]);
            assert(!CharClass::White.holds(m[j]));
        }
    }
    text::lemma_split_once_is(rest, q, l);
    assert(rest.take(l) =~= m);
    assert(rest.skip(l + q.len()) =~= d);
}

/// In the charging log the voltage is what method 11 reports, the current what method 6 reports,
/// and what is reported later counts.
pub proof fn law_micharge_readings(lines: Seq<Seq<char>>, line: Seq<char>, method: i32, raw: i64)
    requires
        micharge_line(line) == Some((method, raw)),
    ensures
        text::last_some(
            lines.push(line),
            |l: Seq<char>| micharge_value(l, 11, Quantity::Voltage),
        ) == if method == 11 && millivolts(raw) is Some {
            millivolts(raw)
        } else {
            text::last_some(lines, |l: Seq<char>| micharge_value(l, 11, Quantity::Voltage))
        },
        text::last_some(lines.push(line), |l: Seq<char>| micharge_value(l, 6, Quantity::Current))
            == if method == 6 && milliamperes(raw) is Some {
            milliamperes(raw)
        } else {
            text::last_some(lines, |l: Seq<char>| micharge_value(l, 6, Quantity::Current))
        },
        forall|output: Seq<char>| #[trigger]
            text::lines(output) == lines ==> micharge_snapshot(output).voltage_mv
                == text::last_some(
                lines,
                |l: Seq<char>| micharge_value(l, 11, Quantity::Voltage),
            ) && micharge_snapshot(output).current_ma == text::last_some(
                lines,
                |l: Seq<char>| micharge_value(l, 6, Quantity::Current),
            ),
{
    assert(lines.push(line).drop_last() =~= lines);
}

/// A scan line of a field sets that field to its value and no other.
pub proof fn law_scan_lines(supply: Supply, n: int, word: Seq<char>)
    requires
        i64::MIN <= n <= i64::MAX,
        word.len() > 0,
        !text::is_white(word[0]),
        !text::is_white(word.last()),
    ensures
        with_line(supply, "voltage_now="@ + number::decimal_int(n)) == (Supply {
            voltage_now: Some(n as i64),
            ..supply
        }),
        with_line(supply, "current_now="@ + number::decimal_int(n)) == (Supply {
            current_now: Some(n as i64),
            ..supply
        }),
        with_line(supply, "current_avg="@ + number::decimal_int(n)) == (Supply {
            current_avg: Some(n as i64),
            ..supply
        }),
        with_line(supply, "batt_current_ua_now="@ + number::decimal_int(n)) == (Supply {
            batt_current: Some(n as i64),
            ..supply
        }),
        with_line(supply, "type="@ + word) == (Supply { supply_type: Some(word), ..supply }),
        with_line(supply, "status="@ + word) == (Supply { status: Some(word), ..supply }),
        header_path("== "@ + word + " =="@) == Some(word),
{
    let d = number::decimal_int(n);
    let none = Seq::<char>::empty();
    lemma_printed(none, n, none);
    assert(none + d + none =~= d);
    lemma_decimal_has_no_white(n);
    assert(!CharClass::White.holds(d[d.len() - 1]));
    lemma_number_fields(supply, d, n as i64);
    text::lemma_trim_nothing(word);
    lemma_word_fields(supply, word);
    reveal_strlit("== ");
    reveal_strlit(" ==");
    let header = "== "@ + word + " =="@;
    assert(header[0] == '=' && header.last() == '=');
    text::lemma_trim_nothing(header);
    assert(header =~= "== "@ + (word + " =="@));
    text::law_strip(word + " =="@, "== "@);
    text::law_strip(word, " =="@);
}

proof fn lemma_number_fields(supply: Supply, d: Seq<char>, n: i64)
    requires
        d.len() > 0,
        !text::is_white(d.last()),
        number::parse_i64(text::trim(d)) == Some(n),
    ensures
        with_line(supply, "voltage_now="@ + d) == (Supply { voltage_now: Some(n), ..supply }),
        with_line(supply, "current_now="@ + d) == (Supply { current_now: Some(n), ..supply }),
        with_line(supply, "current_avg="@ + d) == (Supply { current_avg: Some(n), ..supply }),
        with_line(supply, "batt_current_ua_now="@ + d) == (Supply {
            batt_current: Some(n),
            ..supply
        }),
{
    reveal_strlit("voltage_now=");
    reveal_strlit("current_now=");
    reveal_strlit("current_avg=");
    reveal_strlit("batt_current_ua_now=");
    reveal_strlit("type=");
    reveal_strlit("status=");
    let v = "voltage_now="@;
    let c = "current_now="@;
    let a = "current_avg="@;
    let b = "batt_current_ua_now="@;
    lemma_field(v, d);
    lemma_field(c, d);
    lemma_field(a, d);
    lemma_field(b, d);
    lemma_other_field(v, d, "type="@, 0);
    lemma_other_field(v, d, "status="@, 0);
    lemma_other_field(v, d, c, 0);
    lemma_other_field(v, d, a, 0);
    lemma_other_field(v, d, b, 0);
    lemma_other_field(c, d, "type="@, 0);
    lemma_other_field(c, d, "status="@, 0);
    lemma_other_field(a, d, "type="@, 0);
    lemma_other_field(a, d, "status="@, 0);
    lemma_other_field(a, d, c, 8);
    lemma_other_field(b, d, "type="@, 0);
    lemma_other_field(b, d, "status="@, 0);
    lemma_other_field(b, d, c, 0);
    lemma_other_field(b, d, a, 0);
}

proof fn lemma_word_fields(supply: Supply, word: Seq<char>)
    requires
        word.len() > 0,
        !text::is_white(word.last()),
        text::trim(word) == word,
    ensures
        with_line(supply, "type="@ + word) == (Supply { supply_type: Some(word), ..supply }),
        with_line(supply, "status="@ + word) == (Supply { status: Some(word), ..supply }),
{
    reveal_strlit("type=");
    reveal_strlit("status=");
    lemma_field("type="@, word);
    lemma_field("status="@, word);
    lemma_other_field("status="@, word, "type="@, 0);
}

proof fn lemma_field(field: Seq<char>, value: Seq<char>)
    requires
        field.len() > 0,
        !text::is_white(field[0]),
        value.len() > 0,
        !text::is_white(value.last()),
    ensures
        text::trim(field + value) == field + value,
        text::strip_prefix(field + value, field) == Some(value),
{
    let line = field + value;
    assert(line[0] == field[0] && line.last() == value.last());
    text::lemma_trim_nothing(line);
    text::law_strip(value, field);
}

proof fn lemma_other_field(field: Seq<char>, value: Seq<char>, other: Seq<char>, k: int)
    requires
        0 <= k < field.len(),
        k < other.len(),
        field[k] != other[k],
    ensures
        text::strip_prefix(field + value, other) is None,
{
    let line = field + value;
    assert(line[k] == field[k]);
    if other.is_prefix_of(line) {
        assert(line.subrange(0, other.len() as int)[k] == other[k]);
    }
}

/// What makes a directory look like that of the battery: its type most, then its name, then what
/// it gives. Among the currents the present one comes first, then that of the battery, then the
/// average.
pub proof fn law_scores(supply: Supply, kind: Seq<char>, raw: i64)
    requires
        raw > i64::MIN,
    ensures
        text::lower(kind) == text::lower("Battery"@) ==> score(
            (Supply { supply_type: Some(kind), ..supply }),
        ) == score((Supply { supply_type: None, ..supply })) + 100,
        score((Supply { voltage_now: Some(raw), ..supply })) == score(
            (Supply { voltage_now: None, ..supply }),
        ) + 10,
        text::contains(text::lower(supply.name), "battery"@) ==> score(supply) >= 80,
        text::contains(text::lower(supply.name), "bms"@) ==> score(supply) >= 60,
        supply_value((Supply { current_now: Some(raw), ..supply }), Quantity::Current)
            == milliamperes(raw),
        supply_value(
            (Supply { current_now: None, batt_current: Some(raw), ..supply }),
            Quantity::Current,
        ) == milliamperes(raw),
        supply_value(
            (Supply { current_now: None, batt_current: None, current_avg: Some(raw), ..supply }),
            Quantity::Current,
        ) == milliamperes(raw),
        supply_value((Supply { voltage_now: Some(raw), ..supply }), Quantity::Voltage)
            == millivolts(raw),
{
}

/// A header opens a directory, named by the last part of its path; every other line belongs to the
/// directory that was opened last, and lines before the first header to none.
pub proof fn law_scanned_directories(
    lines: Seq<Seq<char>>,
    line: Seq<char>,
    parent: Seq<char>,
    name: Seq<char>,
)
    requires
        text::is_free_of(name, CharClass::One('/')),
    ensures
        header_path(line) matches Some(path) ==> supplies(lines.push(line)) == supplies(lines).push(
            bare_supply(path),
        ),
        header_path(line) is None && supplies(lines).len() == 0 ==> supplies(lines.push(line)).len()
            == 0,
        header_path(line) is None && supplies(lines).len() > 0 ==> supplies(lines.push(line)).len()
            == supplies(lines).len() && supplies(lines.push(line)).drop_last() == supplies(
            lines,
        ).drop_last() && supplies(lines.push(line)).last() == with_line(
            supplies(lines).last(),
            line,
        ),
        supplies(Seq::empty()).len() == 0,
        bare_supply(parent + seq!['/'] + name).name == name,
        bare_supply(parent + seq!['/'] + name).path == parent + seq!['/'] + name,
        bare_supply(parent).voltage_now is None && bare_supply(parent).current_now is None
            && bare_supply(parent).current_avg is None && bare_supply(parent).batt_current is None
            && bare_supply(parent).supply_type is None && bare_supply(parent).status is None,
{
    assert(lines.push(line).drop_last() =~= lines);
    let before = supplies(lines);
    if header_path(line) is None && before.len() > 0 {
        let changed = with_line(before.last(), line);
        assert(before.drop_last().push(changed).drop_last() =~= before.drop_last());
    }
    lemma_last_part(parent, name);
}

proof fn lemma_last_part(parent: Seq<char>, name: Seq<char>)
    requires
        text::is_free_of(name, CharClass::One('/')),
    ensures
        text::split_on(parent + seq!['/'] + name, CharClass::One('/')).last() == name,
    decreases parent.len(),
{
    let slash = CharClass::One('/');
    let whole = parent + seq!['/'] + name;
    text::law_split_on(name, '/', name, slash);
    text::lemma_index_of(parent, slash);
    let n = text::index_of(parent, slash) as int;
    if n >= parent.len() {
        assert(text::is_free_of(parent, slash));
        text::law_split_on(parent, '/', name, slash);
    } else {
        let first = parent.take(n);
        let rest = parent.skip(n + 1);
        assert forall|i: int| 0 <= i < first.len() implies !slash.holds(#[trigger] first[i]) by {
            assert(first[i] == parent[i]);
        }
        lemma_last_part(rest, name);
        text::law_split_on(first, '/', rest + seq!['/'] + name, slash);
        assert(whole =~= first + seq!['/'] + (rest + seq!['/'] + name));
        text::lemma_split_on_nonempty(rest + seq!['/'] + name, slash);
    }
}

/// What a scan gives is the value of the directory that scores highest among those that have one,
/// the last of them where several do; the power is that of both values.
pub proof fn law_scan(output: Seq<char>, i: int)
    requires
        0 <= i < supplies(text::lines(output)).len(),
    ensures
        ({
            let found = supplies(text::lines(output));
            let snapshot = scan_snapshot(output);
            &&& snapshot.voltage_mv matches Some(mv) ==> exists|k: int|
                0 <= k < found.len() && supply_value(#[trigger] found[k], Quantity::Voltage)
                    == Some(mv) && (supply_value(found[i], Quantity::Voltage) is Some ==> score(
                    found[i],
                ) <= score(found[k]))
            &&& snapshot.current_ma matches Some(ma) ==> exists|k: int|
                0 <= k < found.len() && supply_value(#[trigger] found[k], Quantity::Current)
                    == Some(ma) && (supply_value(found[i], Quantity::Current) is Some ==> score(
                    found[i],
                ) <= score(found[k]))
            &&& supply_value(found[i], Quantity::Voltage) is Some ==> snapshot.voltage_mv is Some
            &&& supply_value(found[i], Quantity::Current) is Some ==> snapshot.current_ma is Some
        }),
{
    let found = supplies(text::lines(output));
    law_best_place(found, Quantity::Voltage);
    law_best_place(found, Quantity::Current);
    if let Some(place) = best_place(found, Quantity::Voltage) {
        assert(supply_value(found[place], Quantity::Voltage) is Some);
    }
    if let Some(place) = best_place(found, Quantity::Current) {
        assert(supply_value(found[place], Quantity::Current) is Some);
    }
}

/// Directories are told apart by what speaks for a battery: first its type, then its name, then
/// the values that it has, then its state.
pub proof fn law_what_scores(a: Supply, b: Supply)
    ensures
        score(a) >= 0,
        (a.supply_type matches Some(kind) && text::lower(kind) == text::lower("Battery"@)) && !(
        b.supply_type matches Some(kind) && text::lower(kind) == text::lower("Battery"@)) && a.name
            == b.name ==> score(a) > score(b),
        a.supply_type == b.supply_type && text::contains(text::lower(a.name), "battery"@)
            && !text::contains(text::lower(b.name), "battery"@) && a.voltage_now is Some
            && a.current_now is Some ==> score(a) > score(b),
        a.supply_type == b.supply_type && a.name == b.name && a.status == b.status && a.voltage_now
            is Some && b.voltage_now is None && a.current_now == b.current_now && a.batt_current
            == b.batt_current && a.current_avg == b.current_avg ==> score(a) == score(b) + 10,
        a.supply_type == b.supply_type && a.name == b.name && a.status == b.status && a.voltage_now
            == b.voltage_now && a.current_now is Some && b.current_now is None && b.batt_current
            is None && b.current_avg is None ==> score(a) == score(b) + 15,
        a.supply_type == b.supply_type && a.name == b.name && a.status == b.status && a.voltage_now
            == b.voltage_now && a.current_now is Some && b.current_now is None && b.batt_current
            is None && b.current_avg is Some ==> score(a) == score(b) + 7,
        a.supply_type == b.supply_type && a.name == b.name && a.voltage_now == b.voltage_now
            && a.current_now == b.current_now && a.batt_current == b.batt_current && a.current_avg
            == b.current_avg && b.status is None && (a.status matches Some(status)
            && is_battery_status(text::lower(status))) ==> score(a) == score(b) + 5,
        is_battery_status("charging"@) && is_battery_status("discharging"@) && is_battery_status(
            "full"@,
        ) && is_battery_status("not charging"@),
{
}

/// Numbers that stand alone in their lines, under a key or with the battery service are those of
/// the first line that gives one; of two keys in one line none stands for the other.
pub proof fn law_first_line_counts(line: Seq<char>, rest: Seq<char>, keys: Seq<Seq<char>>)
    requires
        text::is_free_of(line, CharClass::One('\n')),
        line.len() == 0 || line.last() != '\r',
    ensures
        first_line_value(line + seq!['\n'] + rest, Quantity::Voltage) == if plain_value(
            line,
            Quantity::Voltage,
        ) is Some {
            plain_value(line, Quantity::Voltage)
        } else {
            first_line_value(rest, Quantity::Voltage)
        },
        dumpsys_voltage(line + seq!['\n'] + rest) == if dumpsys_line(line) is Some {
            dumpsys_line(line)
        } else {
            dumpsys_voltage(rest)
        },
        keyed_value(line + seq!['\n'] + rest, keys, Quantity::Voltage) == if keyed_by_any(
            line,
            keys,
            Quantity::Voltage,
        ) is Some {
            keyed_by_any(line, keys, Quantity::Voltage)
        } else {
            keyed_value(rest, keys, Quantity::Voltage)
        },
        keys.len() > 0 && keyed_line(line, keys[0], Quantity::Voltage) is Some ==> keyed_by_any(
            line,
            keys,
            Quantity::Voltage,
        ) == keyed_line(line, keys[0], Quantity::Voltage),
{
    text::law_lines_give_in_order(line, rest, |l: Seq<char>| plain_value(l, Quantity::Voltage));
    text::law_lines_give_in_order(line, rest, |l: Seq<char>| dumpsys_line(l));
    text::law_lines_give_in_order(
        line,
        rest,
        |l: Seq<char>| keyed_by_any(l, keys, Quantity::Voltage),
    );
}

} // verus!
