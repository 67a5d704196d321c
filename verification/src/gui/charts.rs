//! The rows of the charts, and what they show of a selection.

use vstd::prelude::*;

use crate::export::panel;
use crate::export::panel::{frame_scalar_value, PLOT_VALUES};
use crate::gui::details;
use crate::gui::selection::SelectionRange;
use crate::gui::Dashboard;
use crate::number;
use crate::number::write_u64;
use crate::storage;
use crate::storage::{Channel, SessionStore, TimestampedBatch};
use crate::text;
use crate::text::joined;

verus! {

/// One row of a chart: the values of one moment.
#[derive(Debug)]
pub struct ChartRow {
    /// The time on the timeline of the session, in milliseconds.
    pub timestamp_ms: u64,
    /// Milliseconds since the session started.
    pub elapsed_ms: u64,
    /// The values; a value that is not there is zero.
    pub values: Vec<i64>,
}

impl View for ChartRow {
    type V = (u64, u64, Seq<i64>);

    open spec fn view(&self) -> (u64, u64, Seq<i64>) {
        (self.timestamp_ms, self.elapsed_ms, self.values@)
    }
}

impl Clone for ChartRow {
    fn clone(&self) -> (r: Self)
        ensures
            r@ == self@,
    {
        let values = self.values.clone();
        assert(values@ =~= self.values@);
        ChartRow { timestamp_ms: self.timestamp_ms, elapsed_ms: self.elapsed_ms, values }
    }
}

// ---------------------------------------------------------------------------
// Rows
// ---------------------------------------------------------------------------

/// The rows of a chart that shows all values of a channel.
pub open spec fn full_rows(frames: Seq<TimestampedBatch>, start: Option<u64>) -> Seq<
    (u64, u64, Seq<i64>),
> {
    match start {
        Some(base) => frames.map_values(
            |f: TimestampedBatch|
                (
                    f.timestamp_ms,
                    storage::minus(f.timestamp_ms, base),
                    panel::plot_values(f.batch.values@),
                ),
        ),
        None => Seq::empty(),
    }
}

/// A row of one value.
pub open spec fn one_value(value: i64) -> Seq<i64> {
    panel::three_values(value, 0, 0)
}

/// The rows of a chart that shows the first value of a channel.
pub open spec fn scalar_rows(frames: Seq<TimestampedBatch>, start: Option<u64>) -> Seq<
    (u64, u64, Seq<i64>),
> {
    match start {
        Some(base) => Seq::new(
            frames.len(),
            |i: int|
                (
                    frames[i].timestamp_ms,
                    storage::minus(frames[i].timestamp_ms, base),
                    one_value(panel::scalar_at(frames, i)),
                ),
        ),
        None => Seq::empty(),
    }
}

/// The rows of the chart of voltage, current and power: the frames at the same place of the three
/// channels make one row.
pub open spec fn battery_metric_rows(
    voltage: Seq<TimestampedBatch>,
    current: Seq<TimestampedBatch>,
    power: Seq<TimestampedBatch>,
    start: Option<u64>,
) -> Seq<(u64, u64, Seq<i64>)> {
    let base = match start {
        Some(base) => base,
        None => 0,
    };
    Seq::new(
        panel::larger(panel::larger(voltage.len(), current.len()), power.len()),
        |i: int|
            (
                panel::time_at(voltage, current, power, i),
                storage::minus(panel::time_at(voltage, current, power, i), base),
                panel::three_values(
                    panel::scalar_at(voltage, i),
                    panel::scalar_at(current, i),
                    panel::scalar_at(power, i),
                ),
            ),
    )
}

fn build_full_rows(frames: &[TimestampedBatch], start: Option<u64>) -> (r: Vec<ChartRow>)
    ensures
        text::views(r@) == full_rows(frames@, start),
{
    let mut out: Vec<ChartRow> = Vec::new();
    if let Some(base) = start {
        let mut i: usize = 0;
        while i < frames.len()
            invariant
                i <= frames@.len(),
                start == Some(base),
                out@.len() == i,
                forall|j: int|
                    0 <= j < i ==> (#[trigger] out@[j])@ == full_rows(frames@, start)[j],
            decreases frames@.len() - i,
        {
            out.push(
                ChartRow {
                    timestamp_ms: frames[i].timestamp_ms,
                    elapsed_ms: frames[i].timestamp_ms.saturating_sub(base),
                    values: panel::plot_row_values(&frames[i].batch.values),
                },
            );
            i = i + 1;
        }
    }
    assert(text::views(out@) =~= full_rows(frames@, start));
    out
}

fn three(a: i64, b: i64, c: i64) -> (r: Vec<i64>)
    ensures
        r@ == panel::three_values(a, b, c),
{
    let r: Vec<i64> = vec![a, b, c, 0, 0, 0, 0, 0, 0, 0];
    assert(r@ =~= panel::three_values(a, b, c));
    r
}

/// The rows of a chart that shows the first value of a channel.
pub fn build_single_metric_rows(frames: &[TimestampedBatch], start: Option<u64>) -> (r: Vec<
    ChartRow,
>)
    ensures
        text::views(r@) == scalar_rows(frames@, start),
{
    let mut out: Vec<ChartRow> = Vec::new();
    if let Some(base) = start {
        let mut i: usize = 0;
        while i < frames.len()
            invariant
                i <= frames@.len(),
                start == Some(base),
                out@.len() == i,
                forall|j: int|
                    0 <= j < i ==> (#[trigger] out@[j])@ == scalar_rows(frames@, start)[j],
            decreases frames@.len() - i,
        {
            out.push(
                ChartRow {
                    timestamp_ms: frames[i].timestamp_ms,
                    elapsed_ms: frames[i].timestamp_ms.saturating_sub(base),
                    values: three(frame_scalar_value(frames, i), 0, 0),
                },
            );
            i = i + 1;
        }
    }
    assert(text::views(out@) =~= scalar_rows(frames@, start));
    out
}

impl Dashboard {
    /// The rows of the chart of the CPU clock.
    pub fn build_plot_rows(&self) -> (r: Vec<ChartRow>)
        ensures
            text::views(r@) == full_rows(
                self.session.frames(Channel::CpuClock),
                self.session.start(),
            ),
    {
        build_full_rows(self.session.cpu_clock_frames(), self.session.global_start_timestamp_ms())
    }

    /// The rows of the chart of the CPU utilisation.
    pub fn build_cpu_usage_rows(&self) -> (r: Vec<ChartRow>)
        ensures
            text::views(r@) == full_rows(
                self.session.frames(Channel::CpuUsage),
                self.session.start(),
            ),
    {
        build_full_rows(self.session.cpu_usage_frames(), self.session.global_start_timestamp_ms())
    }

    /// The rows of the chart of the frame rate.
    pub fn build_fps_rows(&self) -> (r: Vec<ChartRow>)
        ensures
            text::views(r@) == scalar_rows(
                self.session.frames(Channel::Fps),
                self.session.start(),
            ),
    {
        build_single_metric_rows(self.session.fps_frames(), self.session.global_start_timestamp_ms())
    }

    /// The rows of the chart of the battery temperature, in tenths of a degree.
    pub fn build_battery_temperature_rows(&self) -> (r: Vec<ChartRow>)
        ensures
            text::views(r@) == scalar_rows(
                self.session.frames(Channel::BatteryTemperature),
                self.session.start(),
            ),
    {
        build_single_metric_rows(
            self.session.battery_temperature_frames(),
            self.session.global_start_timestamp_ms(),
        )
    }

    /// The rows of the chart of voltage, current and power.
    pub fn build_battery_power_metric_rows(&self) -> (r: Vec<ChartRow>)
        ensures
            text::views(r@) == battery_metric_rows(
                self.session.frames(Channel::BatteryVoltage),
                self.session.frames(Channel::BatteryCurrent),
                self.session.frames(Channel::BatteryPower),
                self.session.start(),
            ),
    {
        let voltage = self.session.battery_voltage_frames();
        let current = self.session.battery_current_frames();
        let power = self.session.battery_power_frames();
        let start = self.session.global_start_timestamp_ms();
        let base: u64 = match start {
            Some(base) => base,
            None => 0,
        };
        let mut total: usize = voltage.len();
        if current.len() > total {
            total = current.len();
        }
        if power.len() > total {
            total = power.len();
        }
        let ghost all = battery_metric_rows(voltage@, current@, power@, start);
        let mut out: Vec<ChartRow> = Vec::new();
        let mut i: usize = 0;
        while i < total
            invariant
                i <= total,
                total == panel::larger(
                    panel::larger(voltage@.len(), current@.len()),
                    power@.len(),
                ),
                base == match start {
                    Some(base) => base,
                    None => 0,
                },
                all == battery_metric_rows(voltage@, current@, power@, start),
                out@.len() == i,
                forall|j: int| 0 <= j < i ==> (#[trigger] out@[j])@ == all[j],
            decreases total - i,
        {
            let time: u64 = panel::frame_time(voltage, current, power, i);
            out.push(
                ChartRow {
                    timestamp_ms: time,
                    elapsed_ms: time.saturating_sub(base),
                    values: three(
                        frame_scalar_value(voltage, i),
                        frame_scalar_value(current, i),
                        frame_scalar_value(power, i),
                    ),
                },
            );
            i = i + 1;
        }
        assert(text::views(out@) =~= all);
        out
    }
}

/// The distance of the marks on the time axis of a chart, in rows.
pub fn tick_margin(rows: usize) -> (r: usize)
    ensures
        r == if rows / 12 > 0 {
            rows / 12
        } else {
            1
        },
{
    if rows / 12 > 0 {
        rows / 12
    } else {
        1
    }
}

// ---------------------------------------------------------------------------
// The place of a selection
// ---------------------------------------------------------------------------

/// The distance of two times.
pub open spec fn distance(a: u64, b: u64) -> u64 {
    if a >= b {
        (a - b) as u64
    } else {
        (b - a) as u64
    }
}

fn distance_of(a: u64, b: u64) -> (r: u64)
    ensures
        r == distance(a, b),
{
    if a >= b {
        a - b
    } else {
        b - a
    }
}

/// Whether the time at a place is the nearest to a given one, and the first of those that are
/// equally near.
pub open spec fn is_nearest(times: Seq<u64>, ts: u64, i: int) -> bool {
    &&& 0 <= i < times.len()
    &&& forall|j: int|
        0 <= j < times.len() ==> distance(times[i], ts) <= distance(#[trigger] times[j], ts)
    &&& forall|j: int| 0 <= j < i ==> distance(times[i], ts) < distance(#[trigger] times[j], ts)
}

/// The times of rows.
pub open spec fn row_times(rows: Seq<ChartRow>) -> Seq<u64> {
    rows.map_values(|row: ChartRow| row.timestamp_ms)
}

fn nearest(times: &Vec<u64>, ts: u64) -> (r: Option<usize>)
    ensures
        match r {
            Some(i) => is_nearest(times@, ts, i as int),
            None => times@.len() == 0,
        },
{
    if times.len() == 0 {
        return None;
    }
    let mut best: usize = 0;
    let mut i: usize = 1;
    while i < times.len()
        invariant
            1 <= i <= times@.len(),
            best < i,
            forall|j: int|
                0 <= j < i ==> distance(times@[best as int], ts) <= distance(
                    #[trigger] times@[j],
                    ts,
                ),
            forall|j: int|
                0 <= j < best ==> distance(times@[best as int], ts) < distance(
                    #[trigger] times@[j],
                    ts,
                ),
        decreases times@.len() - i,
    {
        if distance_of(times[i], ts) < distance_of(times[best], ts) {
            best = i;
        }
        i = i + 1;
    }
    Some(best)
}

/// There is only one nearest place.
pub proof fn law_nearest_is_unique(times: Seq<u64>, ts: u64, a: int, b: int)
    requires
        is_nearest(times, ts, a),
        is_nearest(times, ts, b),
    ensures
        a == b,
{
    assert(distance(times[a], ts) <= distance(times[b], ts));
    assert(distance(times[b], ts) <= distance(times[a], ts));
    if a < b {
        assert(distance(times[b], ts) < distance(times[a], ts));
    } else if b < a {
        assert(distance(times[a], ts) < distance(times[b], ts));
    }
}

/// The time of the row at a place, if there is one.
pub fn time_of_row(rows: &Vec<ChartRow>, i: usize) -> (r: Option<u64>)
    ensures
        r == if i < rows@.len() {
            Some(rows@[i as int].timestamp_ms)
        } else {
            None
        },
{
    if i < rows.len() {
        Some(rows[i].timestamp_ms)
    } else {
        None
    }
}

fn times_of_rows(rows: &Vec<ChartRow>) -> (r: Vec<u64>)
    ensures
        r@ == row_times(rows@),
{
    let mut out: Vec<u64> = Vec::new();
    let mut i: usize = 0;
    while i < rows.len()
        invariant
            i <= rows@.len(),
            out@.len() == i,
            forall|j: int| 0 <= j < i ==> #[trigger] out@[j] == row_times(rows@)[j],
        decreases rows@.len() - i,
    {
        out.push(rows[i].timestamp_ms);
        i = i + 1;
    }
    assert(out@ =~= row_times(rows@));
    out
}

/// Where a selection is drawn over a chart.
#[derive(Debug, Clone, Copy, PartialEq, Eq, Structural)]
pub enum Overlay {
    /// A line, at this place of so many steps.
    Line {
        /// The place.
        place: usize,
        /// The number of steps, at least one.
        steps: usize,
    },
    /// A band, from one moment to another of a length of time, in milliseconds. An end behind
    /// that length is drawn at its end.
    Band {
        /// Where it starts.
        from_ms: u64,
        /// Where it ends.
        to_ms: u64,
        /// The length of time, at least one.
        length_ms: u64,
    },
}

/// The number of steps between rows, at least one.
pub open spec fn steps_of(rows: nat) -> nat {
    if rows > 1 {
        (rows - 1) as nat
    } else {
        1
    }
}

/// Whether `r` is where a selection is drawn: a point at the nearest row, a range between the
/// times of the first and the last row.
pub open spec fn is_overlay(
    r: Option<Overlay>,
    selection: Option<SelectionRange>,
    times: Seq<u64>,
) -> bool {
    match selection {
        None => r is None,
        Some(SelectionRange::Point(ts)) => {
            &&& r matches Some(Overlay::Line { place, steps }) && steps == steps_of(times.len())
                && if times.len() == 0 {
                place == 0
            } else {
                is_nearest(times, ts, place as int)
            }
        },
        Some(SelectionRange::Span { start_ms, end_ms }) => if times.len() == 0 {
            r is None
        } else {
            r == Some(
                Overlay::Band {
                    from_ms: storage::minus(start_ms, times[0]),
                    to_ms: storage::minus(end_ms, times[0]),
                    length_ms: if times.last() > times[0] {
                        (times.last() - times[0]) as u64
                    } else {
                        1
                    },
                },
            )
        },
    }
}

impl Dashboard {
    /// Where the selection is drawn over a chart.
    pub fn selection_overlay_position(&self, rows: &Vec<ChartRow>) -> (r: Option<Overlay>)
        ensures
            is_overlay(r, self@.selection, row_times(rows@)),
    {
        let times = times_of_rows(rows);
        match self.selection {
            None => None,
            Some(SelectionRange::Point(ts)) => {
                let place: usize = match nearest(&times, ts) {
                    Some(i) => i,
                    None => 0,
                };
                let steps: usize = if times.len() > 1 {
                    times.len() - 1
                } else {
                    1
                };
                Some(Overlay::Line { place, steps })
            },
            Some(SelectionRange::Span { start_ms, end_ms }) => {
                if times.len() == 0 {
                    return None;
                }
                let first: u64 = times[0];
                let last: u64 = times[times.len() - 1];
                let length_ms: u64 = if last > first {
                    last - first
                } else {
                    1
                };
                Some(
                    Overlay::Band {
                        from_ms: start_ms.saturating_sub(first),
                        to_ms: end_ms.saturating_sub(first),
                        length_ms,
                    },
                )
            },
        }
    }
}

// ---------------------------------------------------------------------------
// The values in a selection
// ---------------------------------------------------------------------------

/// The place of the time that is nearest to a given one.
pub open spec fn nearest_place(times: Seq<u64>, ts: u64) -> int {
    choose|i: int| is_nearest(times, ts, i)
}

/// The values that are shown, with their places: those that are not negative.
pub open spec fn shown_values(values: Seq<i64>) -> Seq<(usize, i64)>
    decreases values.len(),
{
    if values.len() == 0 {
        Seq::empty()
    } else {
        let before = shown_values(values.drop_last());
        if values.last() >= 0 {
            before.push(((values.len() - 1) as usize, values.last()))
        } else {
            before
        }
    }
}

/// The values that are shown for a moment: those of the nearest frame.
pub open spec fn values_near(frames: Seq<TimestampedBatch>, ts: u64) -> Seq<(usize, i64)> {
    if frames.len() == 0 {
        Seq::empty()
    } else {
        shown_values(frames[nearest_place(storage::times(frames), ts)].batch.values@)
    }
}

/// The values of frames, with the texts that stand for them.
pub open spec fn value_parts(values: Seq<(usize, i64)>, texts: Seq<Seq<char>>) -> Seq<Seq<char>> {
    Seq::new(
        values.len(),
        |i: int| "v"@ + number::decimal(values[i].0 as nat) + "="@ + texts[i],
    )
}

/// The line about a channel at a moment.
pub open spec fn point_line(
    name: Seq<char>,
    values: Seq<(usize, i64)>,
    texts: Seq<Seq<char>>,
) -> Seq<char> {
    if values.len() == 0 {
        name + ": --"@
    } else {
        name + ": "@ + text::join(value_parts(values, texts), ", "@)
    }
}

/// The values that are shown for a moment, with their places.
pub fn point_values(frames: &[TimestampedBatch], ts: u64) -> (r: Vec<(usize, i64)>)
    ensures
        r@ == values_near(frames@, ts),
{
    let mut times: Vec<u64> = Vec::new();
    let mut i: usize = 0;
    while i < frames.len()
        invariant
            i <= frames@.len(),
            times@.len() == i,
            forall|j: int| 0 <= j < i ==> #[trigger] times@[j] == storage::times(frames@)[j],
        decreases frames@.len() - i,
    {
        times.push(frames[i].timestamp_ms);
        i = i + 1;
    }
    assert(times@ =~= storage::times(frames@));
    let mut out: Vec<(usize, i64)> = Vec::new();
    if let Some(place) = nearest(&times, ts) {
        proof {
            law_nearest_is_unique(times@, ts, place as int, nearest_place(times@, ts));
        }
        let values = &frames[place].batch.values;
        let mut k: usize = 0;
        assert(values@.take(0) =~= Seq::empty());
        while k < values.len()
            invariant
                k <= values@.len(),
                out@ == shown_values(values@.take(k as int)),
            decreases values@.len() - k,
        {
            assert(values@.take(k + 1).drop_last() =~= values@.take(k as int));
            if values[k] >= 0 {
                out.push((k, values[k]));
            }
            k = k + 1;
        }
        assert(values@.take(k as int) =~= values@);
    }
    out
}

/// The line about a channel at a moment, with the texts that stand for its values.
pub fn describe_point(name: &str, frames: &[TimestampedBatch], ts: u64, texts: &Vec<String>) -> (r:
    String)
    requires
        texts@.len() == values_near(frames@, ts).len(),
    ensures
        r@ == point_line(name@, values_near(frames@, ts), text::views(texts@)),
{
    let values = point_values(frames, ts);
    let mut out = String::from_str(name);
    if values.len() == 0 {
        out.append(": --");
        return out;
    }
    let ghost all = value_parts(values@, text::views(texts@));
    let mut parts: Vec<String> = Vec::new();
    let mut i: usize = 0;
    while i < values.len()
        invariant
            i <= values@.len(),
            values@.len() == texts@.len(),
            all == value_parts(values@, text::views(texts@)),
            parts@.len() == i,
            forall|j: int| 0 <= j < i ==> (#[trigger] parts@[j])@ == all[j],
        decreases values@.len() - i,
    {
        let mut part = String::from_str("v");
        let digits = write_u64(values[i].0 as u64);
        part.append(digits.as_str());
        part.append("=");
        part.append(texts[i].as_str());
        parts.push(part);
        i = i + 1;
    }
    assert(text::views(parts@) =~= all);
    let list = joined(&parts, ", ");
    out.append(": ");
    out.append(list.as_str());
    out
}

/// Whether a frame lies in a range, both ends within it.
pub open spec fn lies_in(frame: TimestampedBatch, start_ms: u64, end_ms: u64) -> bool {
    start_ms <= frame.timestamp_ms <= end_ms
}

/// The values at a place of the frames in a range, as far as they are not negative.
pub open spec fn values_in(
    frames: Seq<TimestampedBatch>,
    start_ms: u64,
    end_ms: u64,
    place: int,
) -> Seq<i64>
    decreases frames.len(),
{
    if frames.len() == 0 {
        Seq::empty()
    } else {
        let before = values_in(frames.drop_last(), start_ms, end_ms, place);
        let values = frames.last().batch.values@;
        if lies_in(frames.last(), start_ms, end_ms) && place < values.len() && values[place] >= 0 {
            before.push(values[place])
        } else {
            before
        }
    }
}

/// The values at a place of the frames in a range, as far as they are not negative.
pub fn range_values(frames: &[TimestampedBatch], start_ms: u64, end_ms: u64, place: usize) -> (r: Vec<
    i64,
>)
    ensures
        r@ == values_in(frames@, start_ms, end_ms, place as int),
{
    let mut out: Vec<i64> = Vec::new();
    let mut i: usize = 0;
    assert(frames@.take(0) =~= Seq::empty());
    while i < frames.len()
        invariant
            i <= frames@.len(),
            out@ == values_in(frames@.take(i as int), start_ms, end_ms, place as int),
        decreases frames@.len() - i,
    {
        assert(frames@.take(i + 1).drop_last() =~= frames@.take(i as int));
        let frame = &frames[i];
        if start_ms <= frame.timestamp_ms && frame.timestamp_ms <= end_ms {
            if place < frame.batch.values.len() && frame.batch.values[place] >= 0 {
                out.push(frame.batch.values[place]);
            }
        }
        i = i + 1;
    }
    assert(frames@.take(i as int) =~= frames@);
    out
}

/// What is shown of the values at a place in a range: their average, the smallest and the largest
/// of them.
#[derive(Debug)]
pub struct RangeStats {
    /// The average.
    pub avg: String,
    /// The smallest.
    pub min: String,
    /// The largest.
    pub max: String,
}

/// The line about the values at a place.
pub open spec fn range_line(name: Seq<char>, place: int, stats: RangeStats) -> Seq<char> {
    name + "[v"@ + number::decimal(place as nat) + "] avg="@ + stats.avg@ + " min="@ + stats.min@
        + " max="@ + stats.max@
}

/// The lines about the places up to a number that have values in a range.
pub open spec fn range_lines(
    name: Seq<char>,
    frames: Seq<TimestampedBatch>,
    start_ms: u64,
    end_ms: u64,
    stats: Seq<RangeStats>,
    n: nat,
) -> Seq<Seq<char>>
    decreases n,
{
    if n == 0 {
        Seq::empty()
    } else {
        let before = range_lines(name, frames, start_ms, end_ms, stats, (n - 1) as nat);
        if values_in(frames, start_ms, end_ms, n - 1).len() == 0 {
            before
        } else {
            before.push(range_line(name, n - 1, stats[n - 1]))
        }
    }
}

/// The lines about a channel in a range: one for each place that has values there.
pub open spec fn range_text(
    name: Seq<char>,
    frames: Seq<TimestampedBatch>,
    start_ms: u64,
    end_ms: u64,
    stats: Seq<RangeStats>,
) -> Seq<Seq<char>> {
    let lines = range_lines(name, frames, start_ms, end_ms, stats, PLOT_VALUES as nat);
    if lines.len() == 0 {
        seq![name + ": --"@]
    } else {
        lines
    }
}

/// The lines about a channel in a range, with what is shown of the values at each place. What is
/// given for a place without values is not used.
pub fn describe_range(
    name: &str,
    frames: &[TimestampedBatch],
    start_ms: u64,
    end_ms: u64,
    stats: &Vec<RangeStats>,
) -> (r: Vec<String>)
    requires
        stats@.len() == PLOT_VALUES,
    ensures
        text::views(r@) == range_text(name@, frames@, start_ms, end_ms, stats@),
{
    broadcast use text::lemma_views_push;

    let mut lines: Vec<String> = Vec::new();
    let mut place: usize = 0;
    assert(text::views(lines@) =~= Seq::empty());
    while place < PLOT_VALUES
        invariant
            place <= PLOT_VALUES,
            stats@.len() == PLOT_VALUES,
            text::views(lines@) == range_lines(
                name@,
                frames@,
                start_ms,
                end_ms,
                stats@,
                place as nat,
            ),
        decreases PLOT_VALUES - place,
    {
        let values = range_values(frames, start_ms, end_ms, place);
        if values.len() > 0 {
            let mut line = String::from_str(name);
            let digits = write_u64(place as u64);
            line.append("[v");
            line.append(digits.as_str());
            line.append("] avg=");
            line.append(stats[place].avg.as_str());
            line.append(" min=");
            line.append(stats[place].min.as_str());
            line.append(" max=");
            line.append(stats[place].max.as_str());
            let ghost before = lines@;
            lines.push(line);
            assert(text::views(lines@) == text::views(before).push(line@));
        }
        place = place + 1;
    }
    assert(text::views(lines@).len() == lines@.len());
    if lines.len() == 0 {
        let mut line = String::from_str(name);
        line.append(": --");
        lines.push(line);
        assert(text::views(lines@) =~= seq![name@ + ": --"@]);
    }
    lines
}

// ---------------------------------------------------------------------------
// What the charts show
// ---------------------------------------------------------------------------

/// A chart of a channel has one row for each frame: its time, the time since the session started
/// and its values, each at its place. Before a session has started there is none.
pub proof fn law_rows_show_frames(
    frames: Seq<TimestampedBatch>,
    start_ms: u64,
    i: int,
    place: int,
)
    requires
        0 <= i < frames.len(),
        0 <= place < PLOT_VALUES,
    ensures
        ({
            let full = full_rows(frames, Some(start_ms));
            let single = scalar_rows(frames, Some(start_ms));
            &&& full.len() == frames.len()
            &&& single.len() == frames.len()
            &&& full[i].0 == frames[i].timestamp_ms
            &&& single[i].0 == frames[i].timestamp_ms
            &&& frames[i].timestamp_ms >= start_ms ==> start_ms + full[i].1
                == frames[i].timestamp_ms && start_ms + single[i].1 == frames[i].timestamp_ms
            &&& panel::is_shown(full[i].2[place], frames, i, place)
            &&& panel::is_shown(single[i].2[0], frames, i, 0)
            &&& place > 0 ==> single[i].2[place] == 0
        }),
        full_rows(frames, None).len() == 0,
        scalar_rows(frames, None).len() == 0,
{
}

/// In every row of the chart of voltage, current and power the line named for a metric shows the
/// value of the metric's channel in the frame at that place.
pub proof fn law_battery_rows_show_their_channels(
    session: SessionStore,
    channel: Channel,
    i: int,
    k: int,
)
    requires
        channel is BatteryVoltage || channel is BatteryCurrent || channel is BatteryPower,
        0 <= k < details::battery_line_list(session).len(),
        panel::is_named_for(details::battery_line_list(session)[k].1@, channel),
        0 <= i < battery_metric_rows(
            session.frames(Channel::BatteryVoltage),
            session.frames(Channel::BatteryCurrent),
            session.frames(Channel::BatteryPower),
            session.start(),
        ).len(),
    ensures
        session.frames(channel).len() > 0,
        panel::is_shown(
            battery_metric_rows(
                session.frames(Channel::BatteryVoltage),
                session.frames(Channel::BatteryCurrent),
                session.frames(Channel::BatteryPower),
                session.start(),
            )[i].2[details::battery_line_list(session)[k].0 as int],
            session.frames(channel),
            i,
            0,
        ),
{
    panel::lemma_battery_names();
    let label = details::battery_line_list(session)[k].1;
    assert(label == "voltage (mV)" || label == "current (mA)" || label == "power (mW)");
    assert(panel::is_named_for("voltage (mV)"@, channel) ==> channel is BatteryVoltage);
    assert(panel::is_named_for("current (mA)"@, channel) ==> channel is BatteryCurrent);
    assert(panel::is_named_for("power (mW)"@, channel) ==> channel is BatteryPower);
}

/// The rows of the chart of voltage, current and power are as many as the longest of the channels
/// needs, at the times of their frames.
pub proof fn law_battery_row_times(
    voltage: Seq<TimestampedBatch>,
    current: Seq<TimestampedBatch>,
    power: Seq<TimestampedBatch>,
    start_ms: u64,
    i: int,
)
    ensures
        ({
            let rows = battery_metric_rows(voltage, current, power, Some(start_ms));
            &&& 0 <= i < rows.len() <==> 0 <= i && (i < voltage.len() || i < current.len() || i
                < power.len())
            &&& 0 <= i < voltage.len() ==> rows[i].0 == voltage[i].timestamp_ms
            &&& voltage.len() <= i < current.len() ==> rows[i].0 == current[i].timestamp_ms
            &&& voltage.len() <= i && current.len() <= i < power.len() ==> rows[i].0
                == power[i].timestamp_ms
            &&& 0 <= i < rows.len() && rows[i].0 >= start_ms ==> start_ms + rows[i].1 == rows[i].0
        }),
{
}

/// The nearest place is one whose time no other is closer to the given one, on either side; of
/// those equally close it is the first. There is one wherever there are times.
pub proof fn law_nearest_is_closest(times: Seq<u64>, ts: u64, j: int)
    requires
        0 <= j < times.len(),
    ensures
        ({
            let i = nearest_place(times, ts);
            let off = if times[i] >= ts {
                times[i] - ts
            } else {
                ts - times[i]
            };
            &&& 0 <= i < times.len()
            &&& times[j] >= ts ==> off <= times[j] - ts
            &&& times[j] <= ts ==> off <= ts - times[j]
            &&& j < i && times[j] >= ts ==> off < times[j] - ts
            &&& j < i && times[j] <= ts ==> off < ts - times[j]
        }),
{
    lemma_nearest_exists(times, ts, times.len() as int);
    let i = choose|i: int| is_nearest(times.take(times.len() as int), ts, i);
    assert(times.take(times.len() as int) =~= times);
    assert(is_nearest(times, ts, i));
    let k = nearest_place(times, ts);
    assert(is_nearest(times, ts, k));
    assert(distance(times[k], ts) <= distance(times[j], ts));
    if j < k {
        assert(distance(times[k], ts) < distance(times[j], ts));
    }
}

proof fn lemma_nearest_exists(times: Seq<u64>, ts: u64, n: int)
    requires
        0 < n <= times.len(),
    ensures
        exists|i: int| is_nearest(times.take(n), ts, i),
    decreases n,
{
    let all = times.take(n);
    if n == 1 {
        assert(is_nearest(all, ts, 0));
    } else {
        lemma_nearest_exists(times, ts, n - 1);
        let before = times.take(n - 1);
        let i = choose|i: int| is_nearest(before, ts, i);
        assert forall|j: int| 0 <= j < n - 1 implies distance(before[i], ts) <= distance(
            #[trigger] all[j],
            ts,
        ) && (j < i ==> distance(before[i], ts) < distance(all[j], ts)) by {
            assert(all[j] == before[j]);
        }
        assert(all[i] == before[i]);
        if distance(all[n - 1], ts) < distance(all[i], ts) {
            assert(is_nearest(all, ts, n - 1));
        } else {
            assert(is_nearest(all, ts, i));
        }
    }
}

/// The values that are shown for a moment are all the valid ones of the frame nearest to it, each
/// with its place, and no others.
pub proof fn law_values_near(frames: Seq<TimestampedBatch>, ts: u64, place: usize, value: i64)
    requires
        frames.len() > 0,
        frames[nearest_place(storage::times(frames), ts)].batch.values@.len() <= usize::MAX,
    ensures
        values_near(frames, ts).contains((place, value)) <==> {
            let values = frames[nearest_place(storage::times(frames), ts)].batch.values@;
            place < values.len() && values[place as int] == value && value >= 0
        },
        values_near(Seq::empty(), ts).len() == 0,
{
    lemma_shown_values(
        frames[nearest_place(storage::times(frames), ts)].batch.values@,
        place,
        value,
    );
}

proof fn lemma_shown_values(values: Seq<i64>, place: usize, value: i64)
    requires
        values.len() <= usize::MAX,
    ensures
        shown_values(values).contains((place, value)) <==> place < values.len()
            && values[place as int] == value && value >= 0,
    decreases values.len(),
{
    if values.len() > 0 {
        let before = shown_values(values.drop_last());
        let last = ((values.len() - 1) as usize, values.last());
        lemma_shown_values(values.drop_last(), place, value);
        if values.last() >= 0 {
            assert(before.push(last).contains((place, value)) <==> before.contains((place, value))
                || (place, value) == last) by {
                if before.contains((place, value)) {
                    let i = choose|i: int| 0 <= i < before.len() && before[i] == (place, value);
                    assert(before.push(last)[i] == (place, value));
                }
                assert(before.push(last)[before.len() as int] == last);
            }
        }
    }
}

/// The values in a range are those of the frames from its start to its end, both of them within
/// it, in their order, as far as they are valid.
pub proof fn law_values_in_range(
    frames: Seq<TimestampedBatch>,
    last: TimestampedBatch,
    start_ms: u64,
    end_ms: u64,
    place: int,
)
    requires
        0 <= place,
    ensures
        ({
            let before = values_in(frames, start_ms, end_ms, place);
            let after = values_in(frames.push(last), start_ms, end_ms, place);
            let counts = start_ms <= last.timestamp_ms && last.timestamp_ms <= end_ms && place
                < last.batch.values@.len() && last.batch.values@[place] >= 0;
            &&& counts ==> after == before.push(last.batch.values@[place])
            &&& !counts ==> after == before
        }),
        values_in(Seq::empty(), start_ms, end_ms, place).len() == 0,
{
    assert(frames.push(last).drop_last() =~= frames);
}

/// A place with values in a range has a line with what is given for it, and a place without none;
/// the lines come in the order of the places.
pub proof fn law_lines_of_places(
    name: Seq<char>,
    frames: Seq<TimestampedBatch>,
    start_ms: u64,
    end_ms: u64,
    stats: Seq<RangeStats>,
    n: nat,
)
    ensures
        ({
            let before = range_lines(name, frames, start_ms, end_ms, stats, n);
            let after = range_lines(name, frames, start_ms, end_ms, stats, n + 1);
            &&& values_in(frames, start_ms, end_ms, n as int).len() == 0 ==> after == before
            &&& values_in(frames, start_ms, end_ms, n as int).len() > 0 ==> after == before.push(
                name + "[v"@ + number::decimal(n) + "] avg="@ + stats[n as int].avg@ + " min="@
                    + stats[n as int].min@ + " max="@ + stats[n as int].max@,
            )
        }),
        range_lines(name, frames, start_ms, end_ms, stats, 0).len() == 0,
        range_text(name, frames, start_ms, end_ms, stats).len() > 0,
        range_lines(name, frames, start_ms, end_ms, stats, 10).len() > 0 ==> range_text(
            name,
            frames,
            start_ms,
            end_ms,
            stats,
        ) == range_lines(name, frames, start_ms, end_ms, stats, 10),
        range_lines(name, frames, start_ms, end_ms, stats, 10).len() == 0 ==> range_text(
            name,
            frames,
            start_ms,
            end_ms,
            stats,
        ) == seq![name + ": --"@],
{
}

/// The line about a channel at a moment begins with its name and holds the text of every value
/// behind the place of that value.
pub proof fn law_point_line(
    name: Seq<char>,
    values: Seq<(usize, i64)>,
    texts: Seq<Seq<char>>,
    i: int,
)
    requires
        0 <= i < values.len(),
        texts.len() == values.len(),
    ensures
        name.is_prefix_of(point_line(name, values, texts)),
        text::contains(
            point_line(name, values, texts),
            "v"@ + number::decimal(values[i].0 as nat) + "="@ + texts[i],
        ),
        point_line(name, Seq::empty(), texts) == name + ": --"@,
{
    let parts = value_parts(values, texts);
    let list = text::join(parts, ", "@);
    text::law_joined_parts(parts, ", "@, i);
    text::lemma_contains_within(name + ": "@, list, Seq::empty(), parts[i]);
    let line = point_line(name, values, texts);
    assert(name + ": "@ + list + Seq::<char>::empty() =~= line);
    assert(line.take(name.len() as int) =~= name);
}

/// A selected range is drawn between the times of its ends, counted from the first row, over the
/// time from the first row to the last; a selected moment at the row nearest to it.
pub proof fn law_overlay(r: Option<Overlay>, selection: Option<SelectionRange>, times: Seq<u64>)
    requires
        is_overlay(r, selection, times),
        times.len() > 0,
    ensures
        selection is None <==> r is None,
        selection matches Some(SelectionRange::Span { start_ms, end_ms }) ==> (r matches Some(
            Overlay::Band { from_ms, to_ms, length_ms },
        ) && (start_ms >= times[0] ==> times[0] + from_ms == start_ms) && (start_ms < times[0]
            ==> from_ms == 0) && (end_ms >= times[0] ==> times[0] + to_ms == end_ms) && (
        times.last() > times[0] ==> times[0] + length_ms == times.last())),
        selection matches Some(SelectionRange::Point(ts)) ==> (r matches Some(
            Overlay::Line { place, steps },
        ) && place == nearest_place(times, ts) && steps >= 1 && (times.len() > 1 ==> steps + 1
            == times.len())),
{
    if let Some(SelectionRange::Point(ts)) = selection {
        if let Some(Overlay::Line { place, steps }) = r {
            assert(is_nearest(times, ts, nearest_place(times, ts)));
            law_nearest_is_unique(times, ts, place as int, nearest_place(times, ts));
        }
    }
}

} // verus!
