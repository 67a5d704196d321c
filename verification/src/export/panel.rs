//! The panels of a report: what each of them shows of a session.

use vstd::prelude::*;

use crate::constants::INVALID_METRIC_VALUE;
use crate::number;
use crate::number::{write_i64, write_u64};
use crate::storage;
use crate::storage::{Channel, SessionStore, TimestampedBatch};
use crate::text;
use crate::text::chars_of;

verus! {

/// The number of values in a row of a chart.
pub const PLOT_VALUES: usize = 10;

/// One row of a chart: the values of one moment.
#[derive(Debug)]
pub struct PlotRow {
    /// Milliseconds since the first row.
    pub elapsed_ms: u64,
    /// The values; a value that is not there is zero.
    pub values: Vec<i64>,
}

impl View for PlotRow {
    type V = (u64, Seq<i64>);

    open spec fn view(&self) -> (u64, Seq<i64>) {
        (self.elapsed_ms, self.values@)
    }
}

/// The name of a line of a chart and its colour.
#[derive(Debug)]
pub struct Legend {
    /// The name.
    pub label: String,
    /// The colour.
    pub color: &'static str,
}

impl View for Legend {
    type V = (Seq<char>, Seq<char>);

    open spec fn view(&self) -> (Seq<char>, Seq<char>) {
        (self.label@, self.color@)
    }
}

/// A latest value and its name.
#[derive(Debug)]
pub struct Card {
    /// The name.
    pub name: String,
    /// The value.
    pub value: String,
}

impl View for Card {
    type V = (Seq<char>, Seq<char>);

    open spec fn view(&self) -> (Seq<char>, Seq<char>) {
        (self.name@, self.value@)
    }
}

/// A panel of a report.
#[derive(Debug)]
pub struct Panel {
    /// The heading.
    pub title: &'static str,
    /// The note below the chart.
    pub footer: &'static str,
    /// The rows of the chart.
    pub rows: Vec<PlotRow>,
    /// By what the values have to be divided.
    pub scale: u64,
    /// The lines of the chart.
    pub legends: Vec<Legend>,
    /// The unit of the values.
    pub unit: &'static str,
    /// The latest values.
    pub cards: Vec<Card>,
    /// The places of the values of the lines in the rows.
    pub series_indexes: Vec<usize>,
}

/// A panel of a report, abstractly.
pub struct PanelView {
    /// The heading.
    pub title: Seq<char>,
    /// The note below the chart.
    pub footer: Seq<char>,
    /// The rows of the chart.
    pub rows: Seq<(u64, Seq<i64>)>,
    /// By what the values have to be divided.
    pub scale: u64,
    /// The lines of the chart.
    pub legends: Seq<(Seq<char>, Seq<char>)>,
    /// The unit of the values.
    pub unit: Seq<char>,
    /// The latest values.
    pub cards: Seq<(Seq<char>, Seq<char>)>,
    /// The places of the values of the lines in the rows.
    pub series_indexes: Seq<usize>,
}

impl View for Panel {
    type V = PanelView;

    open spec fn view(&self) -> PanelView {
        PanelView {
            title: self.title@,
            footer: self.footer@,
            rows: text::views(self.rows@),
            scale: self.scale,
            legends: text::views(self.legends@),
            unit: self.unit@,
            cards: text::views(self.cards@),
            series_indexes: self.series_indexes@,
        }
    }
}

impl PanelView {
    /// What always holds of a panel: its rows are of one width, and its lines are within it.
    pub open spec fn wf(self) -> bool {
        &&& self.legends.len() == self.series_indexes.len()
        &&& forall|i: int|
            0 <= i < self.series_indexes.len() ==> #[trigger] self.series_indexes[i] < PLOT_VALUES
        &&& forall|i: int| 0 <= i < self.rows.len() ==> (#[trigger] self.rows[i]).1.len() == PLOT_VALUES
    }
}

// ---------------------------------------------------------------------------
// Charts
// ---------------------------------------------------------------------------

/// A value, or zero where it is negative.
pub open spec fn not_negative(value: i64) -> i64 {
    if value >= 0 {
        value
    } else {
        0
    }
}

/// The values of a batch in a row of a chart.
pub open spec fn plot_values(values: Seq<i64>) -> Seq<i64> {
    Seq::new(
        PLOT_VALUES as nat,
        |i: int|
            if i < values.len() {
                not_negative(values[i])
            } else {
                0
            },
    )
}

/// The rows of a chart of frames. Time counts from the first frame.
pub open spec fn metric_rows(frames: Seq<TimestampedBatch>) -> Seq<(u64, Seq<i64>)> {
    Seq::new(
        frames.len(),
        |i: int|
            (
                storage::minus(frames[i].timestamp_ms, frames[0].timestamp_ms),
                plot_values(frames[i].batch.values@),
            ),
    )
}

/// The first value of a frame, or zero where there is none or it is negative.
pub open spec fn scalar_at(frames: Seq<TimestampedBatch>, i: int) -> i64 {
    if 0 <= i < frames.len() && frames[i].batch.values@.len() > 0 {
        not_negative(frames[i].batch.values@[0])
    } else {
        0
    }
}

/// The larger of two numbers.
pub open spec fn larger(a: nat, b: nat) -> nat {
    if a >= b {
        a
    } else {
        b
    }
}

/// The time of the frame at a place: in the first of three channels that has one there.
pub open spec fn time_at(
    a: Seq<TimestampedBatch>,
    b: Seq<TimestampedBatch>,
    c: Seq<TimestampedBatch>,
    i: int,
) -> u64 {
    if i < a.len() {
        a[i].timestamp_ms
    } else if i < b.len() {
        b[i].timestamp_ms
    } else {
        c[i].timestamp_ms
    }
}

/// A row of three values.
pub open spec fn three_values(a: i64, b: i64, c: i64) -> Seq<i64> {
    seq![a, b, c, 0, 0, 0, 0, 0, 0, 0]
}

/// The rows of the chart of voltage, current and power: the frames at the same place of the three
/// channels make one row. Time counts from the first frame of the first channel that has one.
pub open spec fn battery_rows(
    voltage: Seq<TimestampedBatch>,
    current: Seq<TimestampedBatch>,
    power: Seq<TimestampedBatch>,
) -> Seq<(u64, Seq<i64>)> {
    Seq::new(
        larger(larger(voltage.len(), current.len()), power.len()),
        |i: int|
            (
                storage::minus(
                    time_at(voltage, current, power, i),
                    time_at(voltage, current, power, 0),
                ),
                three_values(scalar_at(voltage, i), scalar_at(current, i), scalar_at(power, i)),
            ),
    )
}

/// The number of values before the first negative one.
pub open spec fn leading_valid(values: Seq<i64>) -> nat
    decreases values.len(),
{
    if values.len() == 0 || values[0] < 0 {
        0
    } else {
        1 + leading_valid(values.skip(1))
    }
}

/// The number of lines of the chart of a channel: one for each leading valid value of the latest
/// frame, but at least one.
pub open spec fn line_count(frames: Seq<TimestampedBatch>) -> nat {
    if frames.len() == 0 {
        1
    } else {
        larger(leading_valid(frames.last().batch.values@), 1)
    }
}

/// The colour of the line at a place.
pub open spec fn line_color(i: int) -> &'static str {
    let k = i % 10;
    if k == 0 {
        "#2563EB"
    } else if k == 1 {
        "#F97316"
    } else if k == 2 {
        "#10B981"
    } else if k == 3 {
        "#DB2777"
    } else if k == 4 {
        "#7C3AED"
    } else if k == 5 {
        "#0F766E"
    } else if k == 6 {
        "#DC2626"
    } else if k == 7 {
        "#CA8A04"
    } else if k == 8 {
        "#4F46E5"
    } else {
        "#0891B2"
    }
}

/// The lines of a chart of policies.
pub open spec fn policy_legends(count: nat) -> Seq<(Seq<char>, Seq<char>)> {
    Seq::new(count, |i: int| ("policy"@ + number::decimal(i as nat), line_color(i)@))
}

/// The places from zero up to, not including, a number.
pub open spec fn first_places(count: nat) -> Seq<usize> {
    Seq::new(count, |i: int| i as usize)
}

/// The values of a batch in a row of a chart.
pub fn plot_row_values(values: &Vec<i64>) -> (r: Vec<i64>)
    ensures
        r@ == plot_values(values@),
{
    let mut out: Vec<i64> = Vec::new();
    let mut i: usize = 0;
    while i < PLOT_VALUES
        invariant
            i <= PLOT_VALUES,
            out@ == plot_values(values@).take(i as int),
        decreases PLOT_VALUES - i,
    {
        let value: i64 = if i < values.len() && values[i] >= 0 {
            values[i]
        } else {
            0
        };
        out.push(value);
        assert(out@ =~= plot_values(values@).take(i + 1));
        i = i + 1;
    }
    assert(out@ =~= plot_values(values@));
    out
}

/// The rows of a chart of frames.
pub fn build_metric_rows(frames: &[TimestampedBatch]) -> (r: Vec<PlotRow>)
    ensures
        text::views(r@) == metric_rows(frames@),
{
    let mut out: Vec<PlotRow> = Vec::new();
    let mut i: usize = 0;
    while i < frames.len()
        invariant
            i <= frames@.len(),
            out@.len() == i,
            forall|j: int| 0 <= j < i ==> (#[trigger] out@[j])@ == metric_rows(frames@)[j],
        decreases frames@.len() - i,
    {
        let first: u64 = frames[0].timestamp_ms;
        out.push(
            PlotRow {
                elapsed_ms: frames[i].timestamp_ms.saturating_sub(first),
                values: plot_row_values(&frames[i].batch.values),
            },
        );
        i = i + 1;
    }
    assert(text::views(out@) =~= metric_rows(frames@));
    out
}

/// The first value of the frame at a place, or zero where there is none or it is negative.
pub fn frame_scalar_value(frames: &[TimestampedBatch], i: usize) -> (r: i64)
    ensures
        r == scalar_at(frames@, i as int),
{
    if i < frames.len() && frames[i].batch.values.len() > 0 && frames[i].batch.values[0] >= 0 {
        frames[i].batch.values[0]
    } else {
        0
    }
}

/// The time of the frame at a place.
pub fn frame_time(
    a: &[TimestampedBatch],
    b: &[TimestampedBatch],
    c: &[TimestampedBatch],
    i: usize,
) -> (r: u64)
    requires
        i < a@.len() || i < b@.len() || i < c@.len(),
    ensures
        r == time_at(a@, b@, c@, i as int),
{
    if i < a.len() {
        a[i].timestamp_ms
    } else if i < b.len() {
        b[i].timestamp_ms
    } else {
        c[i].timestamp_ms
    }
}

/// The rows of the chart of voltage, current and power.
pub fn build_battery_power_rows(session: &SessionStore) -> (r: Vec<PlotRow>)
    ensures
        text::views(r@) == battery_rows(
            session.frames(Channel::BatteryVoltage),
            session.frames(Channel::BatteryCurrent),
            session.frames(Channel::BatteryPower),
        ),
{
    let voltage = session.battery_voltage_frames();
    let current = session.battery_current_frames();
    let power = session.battery_power_frames();
    let mut total: usize = voltage.len();
    if current.len() > total {
        total = current.len();
    }
    if power.len() > total {
        total = power.len();
    }
    let ghost all = battery_rows(voltage@, current@, power@);
    let mut out: Vec<PlotRow> = Vec::new();
    let mut i: usize = 0;
    while i < total
        invariant
            i <= total,
            total == larger(larger(voltage@.len(), current@.len()), power@.len()),
            all == battery_rows(voltage@, current@, power@),
            out@.len() == i,
            forall|j: int| 0 <= j < i ==> (#[trigger] out@[j])@ == all[j],
        decreases total - i,
    {
        let first: u64 = frame_time(voltage, current, power, 0);
        let time: u64 = frame_time(voltage, current, power, i);
        let values: Vec<i64> = vec![
            frame_scalar_value(voltage, i),
            frame_scalar_value(current, i),
            frame_scalar_value(power, i),
            0,
            0,
            0,
            0,
            0,
            0,
            0,
        ];
        assert(values@ =~= three_values(
            scalar_at(voltage@, i as int),
            scalar_at(current@, i as int),
            scalar_at(power@, i as int),
        ));
        out.push(PlotRow { elapsed_ms: time.saturating_sub(first), values });
        i = i + 1;
    }
    assert(text::views(out@) =~= all);
    out
}

/// The number of lines of the chart of a channel.
pub fn detect_line_count(frames: &[TimestampedBatch]) -> (r: usize)
    ensures
        r == line_count(frames@),
{
    if frames.len() == 0 {
        return 1;
    }
    let values = &frames[frames.len() - 1].batch.values;
    let mut n: usize = 0;
    assert(values@.skip(0) =~= values@);
    while n < values.len() && values[n] >= 0
        invariant
            n <= values@.len(),
            leading_valid(values@) == n + leading_valid(values@.skip(n as int)),
        decreases values@.len() - n,
    {
        assert(values@.skip(n as int).skip(1) =~= values@.skip(n + 1));
        n = n + 1;
    }
    if n > 1 {
        n
    } else {
        1
    }
}

fn color_at(i: usize) -> (r: &'static str)
    ensures
        r@ == line_color(i as int)@,
{
    let k: usize = i % 10;
    if k == 0 {
        "#2563EB"
    } else if k == 1 {
        "#F97316"
    } else if k == 2 {
        "#10B981"
    } else if k == 3 {
        "#DB2777"
    } else if k == 4 {
        "#7C3AED"
    } else if k == 5 {
        "#0F766E"
    } else if k == 6 {
        "#DC2626"
    } else if k == 7 {
        "#CA8A04"
    } else if k == 8 {
        "#4F46E5"
    } else {
        "#0891B2"
    }
}

fn build_policy_legends(count: usize) -> (r: Vec<Legend>)
    ensures
        text::views(r@) == policy_legends(count as nat),
{
    let mut out: Vec<Legend> = Vec::new();
    let mut i: usize = 0;
    while i < count
        invariant
            i <= count,
            out@.len() == i,
            forall|j: int|
                0 <= j < i ==> (#[trigger] out@[j])@ == policy_legends(count as nat)[j],
        decreases count - i,
    {
        let mut label = String::from_str("policy");
        let digits = write_u64(i as u64);
        label.append(digits.as_str());
        out.push(Legend { label, color: color_at(i) });
        i = i + 1;
    }
    assert(text::views(out@) =~= policy_legends(count as nat));
    out
}

fn build_places(count: usize) -> (r: Vec<usize>)
    ensures
        r@ == first_places(count as nat),
{
    let mut out: Vec<usize> = Vec::new();
    let mut i: usize = 0;
    while i < count
        invariant
            i <= count,
            out@ == first_places(count as nat).take(i as int),
        decreases count - i,
    {
        out.push(i);
        assert(out@ =~= first_places(count as nat).take(i + 1));
        i = i + 1;
    }
    assert(out@ =~= first_places(count as nat));
    out
}

// ---------------------------------------------------------------------------
// Cards
// ---------------------------------------------------------------------------

/// A value in its unit.
pub open spec fn value_text(value: i64, unit: Seq<char>) -> Seq<char> {
    number::decimal_int(value as int) + " "@ + unit
}

/// A value in its unit, or two dashes where there is none.
pub open spec fn value_or_dashes(value: Option<i64>, unit: Seq<char>) -> Seq<char> {
    match value {
        Some(value) => value_text(value, unit),
        None => "--"@,
    }
}

/// The cards of the values that are there, with their places in their names.
pub open spec fn numbered_cards(values: Seq<Option<i64>>, unit: Seq<char>, prefix: Seq<char>) -> Seq<
    (Seq<char>, Seq<char>),
>
    decreases values.len(),
{
    if values.len() == 0 {
        Seq::empty()
    } else {
        let before = numbered_cards(values.drop_last(), unit, prefix);
        match values.last() {
            Some(value) => before.push(
                (
                    prefix + number::decimal((values.len() - 1) as nat),
                    value_text(value, unit),
                ),
            ),
            None => before,
        }
    }
}

/// The cards of the latest values of a channel; where there is no value, a card with dashes.
pub open spec fn latest_cards(values: Seq<Option<i64>>, unit: Seq<char>, prefix: Seq<char>) -> Seq<
    (Seq<char>, Seq<char>),
> {
    let cards = numbered_cards(values, unit, prefix);
    if cards.len() == 0 {
        seq![("--"@, "--"@)]
    } else {
        cards
    }
}

/// The cards of the values that are there.
pub fn build_numbered_cards(latest_values: &Vec<Option<i64>>, unit: &str, prefix: &str) -> (r: Vec<
    Card,
>)
    ensures
        text::views(r@) == numbered_cards(latest_values@, unit@, prefix@),
{
    broadcast use text::lemma_views_push;

    let ghost all = latest_values@;
    let mut cards: Vec<Card> = Vec::new();
    let mut i: usize = 0;
    assert(all.take(0) =~= Seq::empty());
    assert(text::views(cards@) =~= Seq::empty());
    while i < latest_values.len()
        invariant
            i <= latest_values@.len(),
            all == latest_values@,
            text::views(cards@) == numbered_cards(all.take(i as int), unit@, prefix@),
        decreases latest_values@.len() - i,
    {
        assert(all.take(i + 1).drop_last() =~= all.take(i as int));
        let ghost before = cards@;
        if let Some(value) = latest_values[i] {
            let mut name = String::from_str(prefix);
            let digits = write_u64(i as u64);
            name.append(digits.as_str());
            let card = Card { name, value: write_value(value, unit) };
            cards.push(card);
            assert(text::views(cards@) == text::views(before).push(card@));
        }
        i = i + 1;
    }
    assert(all.take(i as int) =~= all);
    cards
}

/// The cards of the latest values of a channel.
pub fn build_latest_cards(latest_values: &Vec<Option<i64>>, unit: &str, prefix: &str) -> (r: Vec<Card>)
    ensures
        text::views(r@) == latest_cards(latest_values@, unit@, prefix@),
{
    let mut cards = build_numbered_cards(latest_values, unit, prefix);
    assert(text::views(cards@).len() == cards@.len());
    if cards.len() == 0 {
        cards.push(Card { name: String::from_str("--"), value: String::from_str("--") });
        assert(text::views(cards@) =~= seq![("--"@, "--"@)]);
    }
    cards
}

/// Writes a value in its unit.
pub fn write_value(value: i64, unit: &str) -> (r: String)
    ensures
        r@ == value_text(value, unit@),
{
    let mut out = write_i64(value);
    out.append(" ");
    out.append(unit);
    out
}

/// Writes a value in its unit, or two dashes where there is none.
pub fn write_value_or_dashes(value: Option<i64>, unit: &str) -> (r: String)
    ensures
        r@ == value_or_dashes(value, unit@),
{
    match value {
        Some(value) => write_value(value, unit),
        None => String::from_str("--"),
    }
}

fn one_card(name: &str, value: String) -> (r: Vec<Card>)
    ensures
        text::views(r@) == seq![(name@, value@)],
{
    let mut cards: Vec<Card> = Vec::new();
    cards.push(Card { name: String::from_str(name), value });
    assert(text::views(cards@) =~= seq![(name@, value@)]);
    cards
}

fn one_legend(label: &str, color: &'static str) -> (r: Vec<Legend>)
    ensures
        text::views(r@) == seq![(label@, color@)],
{
    let mut legends: Vec<Legend> = Vec::new();
    legends.push(Legend { label: String::from_str(label), color });
    assert(text::views(legends@) =~= seq![(label@, color@)]);
    legends
}

// ---------------------------------------------------------------------------
// The five panels
// ---------------------------------------------------------------------------

/// The panel of the CPU clock rates.
pub open spec fn clock_panel(session: SessionStore) -> PanelView {
    let frames = session.frames(Channel::CpuClock);
    PanelView {
        title: "CPU Clock"@,
        footer: "Metric: CPU_CLOCK | unit: MHz | fixed width values: 10"@,
        rows: metric_rows(frames),
        scale: 1,
        legends: policy_legends(line_count(frames)),
        unit: "MHz"@,
        cards: latest_cards(storage::latest_of(frames), "MHz"@, "policy"@),
        series_indexes: first_places(line_count(frames)),
    }
}

/// The panel of the CPU utilisation.
pub open spec fn usage_panel(session: SessionStore) -> PanelView {
    let frames = session.frames(Channel::CpuUsage);
    PanelView {
        title: "CPU Usage"@,
        footer: "Metric: CPU_USAGE | unit: % | fixed width values: 10"@,
        rows: metric_rows(frames),
        scale: 1,
        legends: policy_legends(line_count(frames)),
        unit: "%"@,
        cards: latest_cards(storage::latest_of(frames), "%"@, "policy"@),
        series_indexes: first_places(line_count(frames)),
    }
}

/// The panel of the battery temperature. The temperature is given as it is to be printed.
pub open spec fn temperature_panel(session: SessionStore, temperature: Seq<char>) -> PanelView {
    PanelView {
        title: "Battery Temperature"@,
        footer: "Metric: BATTERY_TEMP | unit: 0.1C | collector: battery"@,
        rows: metric_rows(session.frames(Channel::BatteryTemperature)),
        scale: 10,
        legends: seq![("battery"@, "#D97706"@)],
        unit: "C"@,
        cards: seq![("Battery"@, temperature)],
        series_indexes: seq![0usize],
    }
}

/// The panel of voltage, current and power.
pub open spec fn power_panel(session: SessionStore) -> PanelView {
    PanelView {
        title: "Battery Power Metrics"@,
        footer: "Metrics: VOLTAGE / CURRENT / POWER | units: mV, mA, mW | collector: battery"@,
        rows: battery_rows(
            session.frames(Channel::BatteryVoltage),
            session.frames(Channel::BatteryCurrent),
            session.frames(Channel::BatteryPower),
        ),
        scale: 1,
        legends: seq![
            ("voltage (mV)"@, "#2563EB"@),
            ("current (mA)"@, "#10B981"@),
            ("power (mW)"@, "#DB2777"@),
        ],
        unit: ""@,
        cards: seq![
            (
                "Voltage"@,
                value_or_dashes(
                    storage::latest_scalar_of(session.frames(Channel::BatteryVoltage)),
                    "mV"@,
                ),
            ),
            (
                "Current"@,
                value_or_dashes(
                    storage::latest_scalar_of(session.frames(Channel::BatteryCurrent)),
                    "mA"@,
                ),
            ),
            (
                "Power"@,
                value_or_dashes(
                    storage::latest_scalar_of(session.frames(Channel::BatteryPower)),
                    "mW"@,
                ),
            ),
        ],
        series_indexes: seq![0usize, 1usize, 2usize],
    }
}

/// The panel of the frame rate.
pub open spec fn fps_panel(session: SessionStore) -> PanelView {
    let frames = session.frames(Channel::Fps);
    PanelView {
        title: "FPS"@,
        footer: "Metric: FPS | unit: FPS | collector: main"@,
        rows: metric_rows(frames),
        scale: 1,
        legends: seq![("main"@, "#DC2626"@)],
        unit: "FPS"@,
        cards: seq![("FPS"@, value_or_dashes(storage::latest_scalar_of(frames), "FPS"@))],
        series_indexes: seq![0usize],
    }
}

/// The panels of a report on a session.
pub open spec fn panels(session: SessionStore, temperature: Seq<char>) -> Seq<PanelView> {
    seq![
        clock_panel(session),
        usage_panel(session),
        temperature_panel(session, temperature),
        power_panel(session),
        fps_panel(session),
    ]
}

/// Whether the latest frames of the CPU channels have no more leading valid values than a row of
/// a chart holds.
pub open spec fn fits_charts(session: SessionStore) -> bool {
    line_count(session.frames(Channel::CpuClock)) <= PLOT_VALUES && line_count(
        session.frames(Channel::CpuUsage),
    ) <= PLOT_VALUES
}

/// Tests whether the latest frames of the CPU channels have no more leading valid values than a
/// row of a chart holds.
pub fn session_fits_charts(session: &SessionStore) -> (r: bool)
    ensures
        r == fits_charts(*session),
{
    detect_line_count(session.cpu_clock_frames()) <= PLOT_VALUES && detect_line_count(
        session.cpu_usage_frames(),
    ) <= PLOT_VALUES
}

/// The panels of a report on a session. The latest temperature is given as it is to be printed.
pub fn build_panels(session: &SessionStore, temperature: String) -> (r: Vec<Panel>)
    requires
        fits_charts(*session),
    ensures
        text::views(r@) == panels(*session, temperature@),
        forall|i: int| 0 <= i < r@.len() ==> (#[trigger] r@[i])@.wf(),
{
    let clock_lines: usize = detect_line_count(session.cpu_clock_frames());
    let latest = session.latest_values();
    let clock = Panel {
        title: "CPU Clock",
        footer: "Metric: CPU_CLOCK | unit: MHz | fixed width values: 10",
        rows: build_metric_rows(session.cpu_clock_frames()),
        scale: 1,
        legends: build_policy_legends(clock_lines),
        unit: "MHz",
        cards: build_latest_cards(&latest, "MHz", "policy"),
        series_indexes: build_places(clock_lines),
    };
    assert(clock@ == clock_panel(*session));
    let usage_lines: usize = detect_line_count(session.cpu_usage_frames());
    let latest = session.latest_cpu_usage_values();
    let usage = Panel {
        title: "CPU Usage",
        footer: "Metric: CPU_USAGE | unit: % | fixed width values: 10",
        rows: build_metric_rows(session.cpu_usage_frames()),
        scale: 1,
        legends: build_policy_legends(usage_lines),
        unit: "%",
        cards: build_latest_cards(&latest, "%", "policy"),
        series_indexes: build_places(usage_lines),
    };
    assert(usage@ == usage_panel(*session));
    let places: Vec<usize> = vec![0];
    assert(places@ =~= seq![0usize]);
    let heat = Panel {
        title: "Battery Temperature",
        footer: "Metric: BATTERY_TEMP | unit: 0.1C | collector: battery",
        rows: build_metric_rows(session.battery_temperature_frames()),
        scale: 10,
        legends: one_legend("battery", "#D97706"),
        unit: "C",
        cards: one_card("Battery", temperature),
        series_indexes: places,
    };
    assert(heat@ == temperature_panel(*session, temperature@));
    let mut legends: Vec<Legend> = Vec::new();
    legends.push(Legend { label: String::from_str("voltage (mV)"), color: "#2563EB" });
    legends.push(Legend { label: String::from_str("current (mA)"), color: "#10B981" });
    legends.push(Legend { label: String::from_str("power (mW)"), color: "#DB2777" });
    assert(text::views(legends@) =~= power_panel(*session).legends);
    let voltage = write_value_or_dashes(session.latest_battery_voltage_value(), "mV");
    let current = write_value_or_dashes(session.latest_battery_current_value(), "mA");
    let watts = write_value_or_dashes(session.latest_battery_power_value(), "mW");
    let mut cards: Vec<Card> = Vec::new();
    cards.push(Card { name: String::from_str("Voltage"), value: voltage });
    cards.push(Card { name: String::from_str("Current"), value: current });
    cards.push(Card { name: String::from_str("Power"), value: watts });
    assert(text::views(cards@) =~= power_panel(*session).cards);
    let places: Vec<usize> = vec![0, 1, 2];
    assert(places@ =~= seq![0usize, 1usize, 2usize]);
    let power = Panel {
        title: "Battery Power Metrics",
        footer: "Metrics: VOLTAGE / CURRENT / POWER | units: mV, mA, mW | collector: battery",
        rows: build_battery_power_rows(session),
        scale: 1,
        legends,
        unit: "",
        cards,
        series_indexes: places,
    };
    assert(power@ == power_panel(*session));
    let places: Vec<usize> = vec![0];
    assert(places@ =~= seq![0usize]);
    let rate = write_value_or_dashes(session.latest_fps_value(), "FPS");
    let fps = Panel {
        title: "FPS",
        footer: "Metric: FPS | unit: FPS | collector: main",
        rows: build_metric_rows(session.fps_frames()),
        scale: 1,
        legends: one_legend("main", "#DC2626"),
        unit: "FPS",
        cards: one_card("FPS", rate),
        series_indexes: places,
    };
    assert(fps@ == fps_panel(*session));
    let mut out: Vec<Panel> = Vec::new();
    out.push(clock);
    out.push(usage);
    out.push(heat);
    out.push(power);
    out.push(fps);
    assert(text::views(out@) =~= panels(*session, temperature@));
    out
}

// ---------------------------------------------------------------------------
// What the panels show
// ---------------------------------------------------------------------------

/// Whether a number is what a chart shows of the value at a place of a frame: that value, or zero
/// where there is no such frame or value, or the value is not valid.
pub open spec fn is_shown(shown: i64, frames: Seq<TimestampedBatch>, i: int, place: int) -> bool {
    if i < frames.len() && place < frames[i].batch.values@.len() && frames[i].batch.values@[place]
        >= 0 {
        shown == frames[i].batch.values@[place]
    } else {
        shown == 0
    }
}

/// Whether a name is that of a metric: it begins with the metric's key in small letters.
pub open spec fn is_named_for(name: Seq<char>, channel: Channel) -> bool {
    text::lower(channel.title()@).is_prefix_of(text::lower(name))
}

/// In every row of the battery chart the value of the line that is named for a metric is that of
/// the metric's channel in the frame at that place, and each of the three metrics has one line.
pub proof fn law_battery_lines(session: SessionStore, channel: Channel, i: int, k: int)
    requires
        channel is BatteryVoltage || channel is BatteryCurrent || channel is BatteryPower,
        0 <= i < power_panel(session).rows.len(),
    ensures
        exists|j: int|
            0 <= j < power_panel(session).legends.len() && is_named_for(
                #[trigger] power_panel(session).legends[j].0,
                channel,
            ),
        0 <= k < power_panel(session).legends.len() && is_named_for(
            power_panel(session).legends[k].0,
            channel,
        ) ==> is_shown(
            power_panel(session).rows[i].1[power_panel(session).series_indexes[k] as int],
            session.frames(channel),
            i,
            0,
        ),
{
    let legends = power_panel(session).legends;
    lemma_battery_names();
    assert(legends.len() == 3);
    assert(legends[0].0 == "voltage (mV)"@);
    assert(legends[1].0 == "current (mA)"@);
    assert(legends[2].0 == "power (mW)"@);
}

/// Of the three battery metrics each line is named for one.
pub proof fn lemma_battery_names()
    ensures
        forall|channel: Channel| #[trigger]
            is_named_for("voltage (mV)"@, channel) && (channel is BatteryVoltage
                || channel is BatteryCurrent || channel is BatteryPower) <==> channel
                is BatteryVoltage,
        forall|channel: Channel| #[trigger]
            is_named_for("current (mA)"@, channel) && (channel is BatteryVoltage
                || channel is BatteryCurrent || channel is BatteryPower) <==> channel
                is BatteryCurrent,
        forall|channel: Channel| #[trigger]
            is_named_for("power (mW)"@, channel) && (channel is BatteryVoltage
                || channel is BatteryCurrent || channel is BatteryPower) <==> channel
                is BatteryPower,
{
    reveal_strlit("voltage (mV)");
    reveal_strlit("current (mA)");
    reveal_strlit("power (mW)");
    reveal_strlit("VOLTAGE");
    reveal_strlit("CURRENT");
    reveal_strlit("POWER");
    let voltage = text::lower("VOLTAGE"@);
    let current = text::lower("CURRENT"@);
    let power = text::lower("POWER"@);
    assert(voltage =~= seq!['v', 'o', 'l', 't', 'a', 'g', 'e']);
    assert(current =~= seq!['c', 'u', 'r', 'r', 'e', 'n', 't']);
    assert(power =~= seq!['p', 'o', 'w', 'e', 'r']);
    assert(text::lower("voltage (mV)"@).take(7) =~= voltage);
    assert(text::lower("current (mA)"@).take(7) =~= current);
    assert(text::lower("power (mW)"@).take(5) =~= power);
    assert(text::lower("voltage (mV)"@)[0] == 'v');
    assert(text::lower("current (mA)"@)[0] == 'c');
    assert(text::lower("power (mW)"@)[0] == 'p');
    assert(voltage[0] == 'v' && current[0] == 'c' && power[0] == 'p');
}

/// The battery chart has a row for every place that one of its channels has a frame at, and no
/// more. Its time is that of the frame of the first channel that has one there, counted from the
/// first frame of the first channel that has any.
pub proof fn law_battery_rows(session: SessionStore, i: int)
    ensures
        ({
            let voltage = session.frames(Channel::BatteryVoltage);
            let current = session.frames(Channel::BatteryCurrent);
            let power = session.frames(Channel::BatteryPower);
            let rows = power_panel(session).rows;
            &&& 0 <= i < rows.len() <==> 0 <= i && (i < voltage.len() || i < current.len() || i
                < power.len())
            &&& 0 <= i < voltage.len() && voltage[i].timestamp_ms >= voltage[0].timestamp_ms
                ==> voltage[0].timestamp_ms + rows[i].0 == voltage[i].timestamp_ms
            &&& voltage.len() == 0 && 0 <= i < current.len() && current[i].timestamp_ms
                >= current[0].timestamp_ms ==> current[0].timestamp_ms + rows[i].0
                == current[i].timestamp_ms
            &&& voltage.len() == 0 && current.len() == 0 && 0 <= i < power.len()
                && power[i].timestamp_ms >= power[0].timestamp_ms ==> power[0].timestamp_ms
                + rows[i].0 == power[i].timestamp_ms
            &&& 0 < voltage.len() <= i < current.len() && current[i].timestamp_ms
                >= voltage[0].timestamp_ms ==> voltage[0].timestamp_ms + rows[i].0
                == current[i].timestamp_ms
        }),
{
}

/// The other charts have a row for every frame of their channel: its values, each at its place,
/// and its time from the first frame on.
pub proof fn law_chart_rows(session: SessionStore, temperature: Seq<char>, i: int, place: int)
    requires
        0 <= place < PLOT_VALUES,
    ensures
        is_chart_of(clock_panel(session).rows, session.frames(Channel::CpuClock), i, place),
        is_chart_of(usage_panel(session).rows, session.frames(Channel::CpuUsage), i, place),
        is_chart_of(
            temperature_panel(session, temperature).rows,
            session.frames(Channel::BatteryTemperature),
            i,
            place,
        ),
        is_chart_of(fps_panel(session).rows, session.frames(Channel::Fps), i, place),
{
}

/// Whether the row at a place, and a value in it, are those of the frame at that place.
pub open spec fn is_chart_of(
    rows: Seq<(u64, Seq<i64>)>,
    frames: Seq<TimestampedBatch>,
    i: int,
    place: int,
) -> bool {
    &&& rows.len() == frames.len()
    &&& 0 <= i < frames.len() ==> is_shown(rows[i].1[place], frames, i, place)
    &&& 0 <= i < frames.len() && frames[i].timestamp_ms >= frames[0].timestamp_ms
        ==> frames[0].timestamp_ms + rows[i].0 == frames[i].timestamp_ms
}

/// The lines of the CPU charts are those of the policies, in order: the line of the policy with a
/// number shows the values at that place. There is a line for each value of the latest frame
/// before the first that is not valid, and at least one.
pub proof fn law_policy_lines(session: SessionStore, k: int)
    ensures
        lines_are_policies(clock_panel(session), session.frames(Channel::CpuClock), k),
        lines_are_policies(usage_panel(session), session.frames(Channel::CpuUsage), k),
{
    let clock = session.frames(Channel::CpuClock);
    let usage = session.frames(Channel::CpuUsage);
    if clock.len() > 0 {
        lemma_leading_valid(clock.last().batch.values@);
    }
    if usage.len() > 0 {
        lemma_leading_valid(usage.last().batch.values@);
    }
}

/// Whether the line at a place is that of the policy with that number, and the number of lines is
/// that of the leading valid values of the latest frame.
pub open spec fn lines_are_policies(
    panel: PanelView,
    frames: Seq<TimestampedBatch>,
    k: int,
) -> bool {
    let n = panel.legends.len();
    &&& n >= 1
    &&& panel.series_indexes.len() == n
    &&& 0 <= k < n && k <= usize::MAX ==> panel.legends[k].0 == "policy"@ + number::decimal(
        k as nat,
    ) && panel.series_indexes[k] == k
    &&& frames.len() == 0 ==> n == 1
    &&& n > 1 && 0 <= k < n ==> k < frames.last().batch.values@.len()
        && frames.last().batch.values@[k] >= 0
    &&& frames.len() > 0 && n < frames.last().batch.values@.len() ==> frames.last().batch.values@[n as int]
        < 0 || (n == 1 && frames.last().batch.values@[0] < 0)
}

proof fn lemma_leading_valid(values: Seq<i64>)
    ensures
        leading_valid(values) <= values.len(),
        forall|i: int| 0 <= i < leading_valid(values) ==> (#[trigger] values[i]) >= 0,
        leading_valid(values) < values.len() ==> values[leading_valid(values) as int] < 0,
    decreases values.len(),
{
    if values.len() > 0 && values[0] >= 0 {
        let rest = values.skip(1);
        lemma_leading_valid(rest);
        assert forall|i: int| 0 <= i < leading_valid(values) implies (#[trigger] values[i])
            >= 0 by {
            if i > 0 {
                assert(values[i] == rest[i - 1]);
            }
        }
    }
}

/// The ten lines of a chart have ten colours, and the colours come again behind them.
pub proof fn law_line_colors(i: int, j: int)
    requires
        0 <= i < j < 10,
    ensures
        line_color(i)@ != line_color(j)@,
        line_color(i + 10)@ == line_color(i)@,
{
    reveal_strlit("#2563EB");
    reveal_strlit("#F97316");
    reveal_strlit("#10B981");
    reveal_strlit("#DB2777");
    reveal_strlit("#7C3AED");
    reveal_strlit("#0F766E");
    reveal_strlit("#DC2626");
    reveal_strlit("#CA8A04");
    reveal_strlit("#4F46E5");
    reveal_strlit("#0891B2");
    assert(line_color(i)@[1] != line_color(j)@[1] || line_color(i)@[2] != line_color(j)@[2]
        || line_color(i)@[3] != line_color(j)@[3]);
}

/// Each latest value that is there has a card, in the order of the values: its name ends in the
/// place of the value, and it says the value and its unit.
pub proof fn law_cards_of_values(
    values: Seq<Option<i64>>,
    value: i64,
    unit: Seq<char>,
    prefix: Seq<char>,
)
    ensures
        numbered_cards(Seq::empty(), unit, prefix).len() == 0,
        numbered_cards(values.push(Some(value)), unit, prefix) == numbered_cards(
            values,
            unit,
            prefix,
        ).push((prefix + number::decimal(values.len()), number::decimal_int(value as int) + " "@ + unit)),
        numbered_cards(values.push(None), unit, prefix) == numbered_cards(values, unit, prefix),
        (forall|i: int| 0 <= i < values.len() ==> (#[trigger] values[i]) is None)
            ==> latest_cards(values, unit, prefix) == seq![("--"@, "--"@)],
        latest_cards(values.push(Some(value)), unit, prefix) == numbered_cards(
            values.push(Some(value)),
            unit,
            prefix,
        ),
{
    assert(values.push(Some(value)).drop_last() =~= values);
    assert(values.push(None).drop_last() =~= values);
    if forall|i: int| 0 <= i < values.len() ==> (#[trigger] values[i]) is None {
        lemma_no_cards(values, unit, prefix);
    }
}

proof fn lemma_no_cards(values: Seq<Option<i64>>, unit: Seq<char>, prefix: Seq<char>)
    requires
        forall|i: int| 0 <= i < values.len() ==> (#[trigger] values[i]) is None,
    ensures
        numbered_cards(values, unit, prefix).len() == 0,
    decreases values.len(),
{
    if values.len() > 0 {
        assert(values[values.len() - 1] is None);
        assert forall|i: int| 0 <= i < values.drop_last().len() implies (
        #[trigger] values.drop_last()[i]) is None by {
            assert(values[i] is None);
        }
        lemma_no_cards(values.drop_last(), unit, prefix);
    }
}

/// The battery cards are named for their metrics and show the first value of the latest frame of
/// the metric's channel, where it is valid, in the metric's unit.
pub proof fn law_battery_cards(session: SessionStore, channel: Channel, k: int)
    requires
        channel is BatteryVoltage || channel is BatteryCurrent || channel is BatteryPower,
        0 <= k < power_panel(session).cards.len(),
        is_named_for(power_panel(session).cards[k].0, channel),
        session.frames(channel).len() > 0,
        session.frames(channel).last().batch.values@.len() > 0,
    ensures
        ({
            let value = session.frames(channel).last().batch.values@[0];
            power_panel(session).cards[k].1 == if value == INVALID_METRIC_VALUE {
                "--"@
            } else {
                number::decimal_int(value as int) + " "@ + match channel {
                    Channel::BatteryVoltage => "mV"@,
                    Channel::BatteryCurrent => "mA"@,
                    _ => "mW"@,
                }
            }
        }),
{
    reveal_strlit("Voltage");
    reveal_strlit("Current");
    reveal_strlit("Power");
    reveal_strlit("VOLTAGE");
    reveal_strlit("CURRENT");
    reveal_strlit("POWER");
    assert(text::lower("VOLTAGE"@)[0] == 'v');
    assert(text::lower("CURRENT"@)[0] == 'c');
    assert(text::lower("POWER"@)[0] == 'p');
    assert(text::lower("Voltage"@)[0] == 'v');
    assert(text::lower("Current"@)[0] == 'c');
    assert(text::lower("Power"@)[0] == 'p');
    assert(power_panel(session).cards[0].0 == "Voltage"@);
    assert(power_panel(session).cards[1].0 == "Current"@);
    assert(power_panel(session).cards[2].0 == "Power"@);
}

// ---------------------------------------------------------------------------
// Plain panels
// ---------------------------------------------------------------------------

/// Whether a text consists of printable ASCII characters.
pub open spec fn is_printable(s: Seq<char>) -> bool {
    forall|i: int| 0 <= i < s.len() ==> ' ' <= #[trigger] s[i] && s[i] <= '~'
}

/// Whether a text can name a colour: a number sign, ASCII digits and the letters from A to F.
pub open spec fn is_color(s: Seq<char>) -> bool {
    forall|i: int|
        0 <= i < s.len() ==> #[trigger] s[i] == '#' || text::is_digit(s[i]) || ('A' <= s[i]
            && s[i] <= 'F')
}

/// Whether all names and values of cards are printable.
pub open spec fn are_printable_cards(cards: Seq<(Seq<char>, Seq<char>)>) -> bool {
    forall|i: int|
        0 <= i < cards.len() ==> is_printable((#[trigger] cards[i]).0) && is_printable(cards[i].1)
}

/// Whether all names of lines are printable, and their colours are colours.
pub open spec fn are_plain_legends(legends: Seq<(Seq<char>, Seq<char>)>) -> bool {
    forall|i: int|
        0 <= i < legends.len() ==> is_printable((#[trigger] legends[i]).0) && is_color(legends[i].1)
}

/// Whether all texts of a panel are printable, and its colours are colours.
pub open spec fn is_plain(panel: PanelView) -> bool {
    &&& is_printable(panel.title)
    &&& is_printable(panel.footer)
    &&& is_printable(panel.unit)
    &&& are_printable_cards(panel.cards)
    &&& are_plain_legends(panel.legends)
}

proof fn lemma_decimal_is_printable(n: int)
    ensures
        is_printable(number::decimal_int(n)),
        n >= 0 ==> is_printable(number::decimal(n as nat)),
{
    if n < 0 {
        number::lemma_decimal((-n) as nat);
    } else {
        number::lemma_decimal(n as nat);
    }
}

proof fn lemma_value_is_printable(value: Option<i64>, unit: Seq<char>)
    requires
        is_printable(unit),
    ensures
        is_printable(value_or_dashes(value, unit)),
{
    reveal_strlit("--");
    reveal_strlit(" ");
    if value is Some {
        lemma_decimal_is_printable(value->0 as int);
    }
}

proof fn lemma_cards_are_printable(values: Seq<Option<i64>>, unit: Seq<char>, prefix: Seq<char>)
    requires
        is_printable(unit),
        is_printable(prefix),
    ensures
        are_printable_cards(numbered_cards(values, unit, prefix)),
        are_printable_cards(latest_cards(values, unit, prefix)),
    decreases values.len(),
{
    reveal_strlit("--");
    if values.len() > 0 {
        lemma_cards_are_printable(values.drop_last(), unit, prefix);
        lemma_decimal_is_printable(values.len() - 1);
        lemma_value_is_printable(values.last(), unit);
    }
}

proof fn lemma_policy_legends_are_plain(count: nat)
    ensures
        are_plain_legends(policy_legends(count)),
{
    reveal_strlit("policy");
    reveal_strlit("#2563EB");
    reveal_strlit("#F97316");
    reveal_strlit("#10B981");
    reveal_strlit("#DB2777");
    reveal_strlit("#7C3AED");
    reveal_strlit("#0F766E");
    reveal_strlit("#DC2626");
    reveal_strlit("#CA8A04");
    reveal_strlit("#4F46E5");
    reveal_strlit("#0891B2");
    assert forall|i: int| 0 <= i < count implies is_printable(
        (#[trigger] policy_legends(count)[i]).0,
    ) && is_color(policy_legends(count)[i].1) by {
        lemma_decimal_is_printable(i);
    }
}

proof fn lemma_cpu_panels_are_plain(session: SessionStore)
    ensures
        is_plain(clock_panel(session)),
        is_plain(usage_panel(session)),
{
    reveal_strlit("CPU Clock");
    reveal_strlit("Metric: CPU_CLOCK | unit: MHz | fixed width values: 10");
    reveal_strlit("MHz");
    reveal_strlit("CPU Usage");
    reveal_strlit("Metric: CPU_USAGE | unit: % | fixed width values: 10");
    reveal_strlit("%");
    reveal_strlit("policy");
    let clock = session.frames(Channel::CpuClock);
    let usage = session.frames(Channel::CpuUsage);
    lemma_policy_legends_are_plain(line_count(clock));
    lemma_policy_legends_are_plain(line_count(usage));
    lemma_cards_are_printable(storage::latest_of(clock), "MHz"@, "policy"@);
    lemma_cards_are_printable(storage::latest_of(usage), "%"@, "policy"@);
}

proof fn lemma_scalar_panels_are_plain(session: SessionStore, temperature: Seq<char>)
    requires
        is_printable(temperature),
    ensures
        is_plain(temperature_panel(session, temperature)),
        is_plain(fps_panel(session)),
{
    reveal_strlit("Battery Temperature");
    reveal_strlit("Metric: BATTERY_TEMP | unit: 0.1C | collector: battery");
    reveal_strlit("battery");
    reveal_strlit("#D97706");
    reveal_strlit("C");
    reveal_strlit("Battery");
    reveal_strlit("FPS");
    reveal_strlit("Metric: FPS | unit: FPS | collector: main");
    reveal_strlit("main");
    reveal_strlit("#DC2626");
    lemma_value_is_printable(
        storage::latest_scalar_of(session.frames(Channel::Fps)),
        "FPS"@,
    );
}

proof fn lemma_power_panel_is_plain(session: SessionStore)
    ensures
        is_plain(power_panel(session)),
{
    reveal_strlit("Battery Power Metrics");
    reveal_strlit(
        "Metrics: VOLTAGE / CURRENT / POWER | units: mV, mA, mW | collector: battery",
    );
    reveal_strlit("voltage (mV)");
    reveal_strlit("current (mA)");
    reveal_strlit("power (mW)");
    reveal_strlit("#2563EB");
    reveal_strlit("#10B981");
    reveal_strlit("#DB2777");
    reveal_strlit("");
    reveal_strlit("Voltage");
    reveal_strlit("Current");
    reveal_strlit("Power");
    reveal_strlit("mV");
    reveal_strlit("mA");
    reveal_strlit("mW");
    lemma_value_is_printable(
        storage::latest_scalar_of(session.frames(Channel::BatteryVoltage)),
        "mV"@,
    );
    lemma_value_is_printable(
        storage::latest_scalar_of(session.frames(Channel::BatteryCurrent)),
        "mA"@,
    );
    lemma_value_is_printable(
        storage::latest_scalar_of(session.frames(Channel::BatteryPower)),
        "mW"@,
    );
}

/// All texts of the panels of a session are printable, as long as the temperature is.
pub proof fn lemma_panels_are_plain(session: SessionStore, temperature: Seq<char>)
    requires
        is_printable(temperature),
    ensures
        forall|i: int|
            0 <= i < panels(session, temperature).len() ==> is_plain(
                #[trigger] panels(session, temperature)[i],
            ),
{
    lemma_cpu_panels_are_plain(session);
    lemma_scalar_panels_are_plain(session, temperature);
    lemma_power_panel_is_plain(session);
}

/// Tests whether a text consists of printable ASCII characters.
pub fn reads_as_printable(s: &str) -> (r: bool)
    ensures
        r == is_printable(s@),
{
    let chars = chars_of(s);
    let mut i: usize = 0;
    while i < chars.len()
        invariant
            i <= chars@.len(),
            chars@ == s@,
            forall|j: int| 0 <= j < i ==> ' ' <= #[trigger] s@[j] && s@[j] <= '~',
        decreases chars@.len() - i,
    {
        let c: char = chars[i];
        if c < ' ' || c > '~' {
            assert(!(' ' <= s@[i as int] && s@[i as int] <= '~'));
            return false;
        }
        i = i + 1;
    }
    true
}

} // verus!
