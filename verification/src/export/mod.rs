//! A session as a file: a table, a data file, a report page and a report picture.
//!
//! The functions here make the contents of the files. Numbers that are not whole reach them as
//! they are to be printed.

pub mod page;
pub mod panel;
pub mod picture;
pub mod raster;
pub mod readback;

use vstd::prelude::*;

use crate::constants::{INVALID_METRIC_VALUE, METRIC_VALUES_CAPACITY};
use crate::number;
use crate::number::{write_i64, write_u64};
use crate::sort;
use crate::sort::order_by_key;
use crate::storage;
use crate::storage::{Channel, SessionStore, TimestampedBatch};
use crate::text;
use crate::text::{chars_of, replaced};
use crate::types;

verus! {

// ---------------------------------------------------------------------------
// Escapes
// ---------------------------------------------------------------------------

/// A text as a field of a table: in quotes, with its own quotes doubled.
pub open spec fn csv_field(s: Seq<char>) -> Seq<char> {
    "\""@ + text::replace(s, '"', "\"\""@) + "\""@
}

/// A text as the inside of a string of a data file.
pub open spec fn json_escaped(s: Seq<char>) -> Seq<char> {
    text::replace(text::replace(s, '\\', "\\\\"@), '"', "\\\""@)
}

/// A text as the inside of an element of a page.
pub open spec fn html_escaped(s: Seq<char>) -> Seq<char> {
    text::replace(
        text::replace(text::replace(s, '&', "&amp;"@), '<', "&lt;"@),
        '>',
        "&gt;"@,
    )
}

/// An escaped text opens and closes no tags.
pub proof fn law_escaped_texts_hold_no_tags(s: Seq<char>)
    ensures
        !html_escaped(s).contains('<'),
        !html_escaped(s).contains('>'),
{
    reveal_strlit("&amp;");
    reveal_strlit("&lt;");
    reveal_strlit("&gt;");
    let once = text::replace(s, '&', "&amp;"@);
    let twice = text::replace(once, '<', "&lt;"@);
    text::lemma_replace_leaves_out(once, '<', "&lt;"@, '<');
    text::lemma_replace_leaves_out(twice, '>', "&gt;"@, '<');
    text::lemma_replace_leaves_out(twice, '>', "&gt;"@, '>');
}

/// Escaping works character by character: the characters that have a meaning in a page are written
/// as entities, and every other one stays.
pub proof fn law_page_escapes(s: Seq<char>, c: char)
    ensures
        html_escaped(s.push('&')) == html_escaped(s) + "&amp;"@,
        html_escaped(s.push('<')) == html_escaped(s) + "&lt;"@,
        html_escaped(s.push('>')) == html_escaped(s) + "&gt;"@,
        c != '&' && c != '<' && c != '>' ==> html_escaped(s.push(c)) == html_escaped(s).push(c),
        html_escaped(Seq::empty()) == Seq::<char>::empty(),
{
    let amp = "&amp;"@;
    let lt = "&lt;"@;
    let gt = "&gt;"@;
    let once = text::replace(s, '&', amp);
    let twice = text::replace(once, '<', lt);
    text::law_replace(s, c, '&', amp);
    text::law_replace(s, '<', '&', amp);
    text::law_replace(s, '>', '&', amp);
    text::law_replace(once, c, '<', lt);
    text::law_replace(once, '>', '<', lt);
    text::law_replace(twice, c, '>', gt);
    lemma_replace_append(once, amp, '<', lt);
    lemma_replace_append(twice, amp, '>', gt);
    lemma_replace_append(twice, lt, '>', gt);
    reveal_strlit("&amp;");
    reveal_strlit("&lt;");
    lemma_replace_nothing(amp, '<', lt);
    lemma_replace_nothing(amp, '>', gt);
    lemma_replace_nothing(lt, '>', gt);
}

/// Escaping works character by character: backslashes and quotes get a backslash before them, and
/// every other character stays.
pub proof fn law_data_escapes(s: Seq<char>, c: char)
    ensures
        json_escaped(s.push('\\')) == json_escaped(s) + "\\\\"@,
        json_escaped(s.push('"')) == json_escaped(s) + "\\\""@,
        c != '\\' && c != '"' ==> json_escaped(s.push(c)) == json_escaped(s).push(c),
        json_escaped(Seq::empty()) == Seq::<char>::empty(),
{
    let back = "\\\\"@;
    let quote = "\\\""@;
    let once = text::replace(s, '\\', back);
    text::law_replace(s, c, '\\', back);
    text::law_replace(s, '"', '\\', back);
    text::law_replace(once, c, '"', quote);
    lemma_replace_append(once, back, '"', quote);
    reveal_strlit("\\\\");
    lemma_replace_nothing(back, '"', quote);
}

proof fn lemma_replace_append(a: Seq<char>, b: Seq<char>, from: char, to: Seq<char>)
    ensures
        text::replace(a + b, from, to) == text::replace(a, from, to) + text::replace(b, from, to),
    decreases b.len(),
{
    if b.len() == 0 {
        assert(a + b =~= a);
        text::law_replace(b, from, from, to);
        assert(b =~= Seq::empty());
        assert(text::replace(a, from, to) + Seq::<char>::empty() =~= text::replace(a, from, to));
    } else {
        let before = b.drop_last();
        let c = b.last();
        lemma_replace_append(a, before, from, to);
        assert(a + b =~= (a + before).push(c));
        assert(b =~= before.push(c));
        text::law_replace(a + before, c, from, to);
        text::law_replace(before, c, from, to);
        assert(text::replace(a + b, from, to) =~= text::replace(a, from, to) + text::replace(
            b,
            from,
            to,
        ));
    }
}

proof fn lemma_replace_nothing(s: Seq<char>, from: char, to: Seq<char>)
    requires
        forall|i: int| 0 <= i < s.len() ==> s[i] != from,
    ensures
        text::replace(s, from, to) == s,
    decreases s.len(),
{
    text::law_replace(s, from, from, to);
    if s.len() == 0 {
        assert(s =~= Seq::empty());
    } else {
        let before = s.drop_last();
        assert forall|i: int| 0 <= i < before.len() implies before[i] != from by {
            assert(before[i] == s[i]);
        }
        lemma_replace_nothing(before, from, to);
        text::law_replace(before, s.last(), from, to);
        assert(s =~= before.push(s.last()));
        assert(s[s.len() - 1] != from);
    }
}

fn replaced_in(s: &str, from: char, to: &str) -> (r: String)
    ensures
        r@ == text::replace(s@, from, to@),
{
    let chars = chars_of(s);
    replaced(chars.as_slice(), from, to)
}

/// A text as a field of a table.
pub fn write_csv_field(field: &str) -> (r: String)
    ensures
        r@ == csv_field(field@),
{
    let mut out = String::from_str("\"");
    let escaped = replaced_in(field, '"', "\"\"");
    out.append(escaped.as_str());
    out.append("\"");
    out
}

/// A text as the inside of a string of a data file.
pub fn json_escape(value: &str) -> (r: String)
    ensures
        r@ == json_escaped(value@),
{
    let once = replaced_in(value, '\\', "\\\\");
    replaced_in(once.as_str(), '"', "\\\"")
}

/// A text as the inside of an element of a page.
pub fn html_escape(value: &str) -> (r: String)
    ensures
        r@ == html_escaped(value@),
{
    let once = replaced_in(value, '&', "&amp;");
    let twice = replaced_in(once.as_str(), '<', "&lt;");
    replaced_in(twice.as_str(), '>', "&gt;")
}

/// A text as the inside of an element of a picture.
pub fn xml_escape(value: &str) -> (r: String)
    ensures
        r@ == html_escaped(value@),
{
    html_escape(value)
}

// ---------------------------------------------------------------------------
// Time
// ---------------------------------------------------------------------------

/// A sampling rate within its range.
pub open spec fn clamped_hz(hz: u64) -> u64 {
    if hz < 1 {
        1
    } else if hz > 10 {
        10
    } else {
        hz
    }
}

/// The number of decimal places of a time in seconds: as many as the sampling interval needs,
/// but at least one and at most three.
pub open spec fn time_precision(hz: u64) -> nat {
    let rate = clamped_hz(hz) as int;
    if 10int % rate == 0 {
        1
    } else if 100int % rate == 0 {
        2
    } else {
        3
    }
}

/// The number of decimal places of a time in seconds.
pub fn time_precision_for_hz(sampling_hz: u64) -> (r: usize)
    ensures
        r == time_precision(sampling_hz),
{
    let rate: u64 = if sampling_hz < 1 {
        1
    } else if sampling_hz > 10 {
        10
    } else {
        sampling_hz
    };
    if 10 % rate == 0 {
        1
    } else if 100 % rate == 0 {
        2
    } else {
        3
    }
}

/// The power of ten with the given number of zeros, up to three.
pub open spec fn power_of_ten(zeros: nat) -> int {
    if zeros == 0 {
        1
    } else if zeros == 1 {
        10
    } else if zeros == 2 {
        100
    } else {
        1000
    }
}

/// The decimal places suffice for the sampling interval where three of them would, and no fewer
/// do, but for the one that is always there.
pub proof fn law_time_precision(hz: u64)
    ensures
        ({
            let rate = clamped_hz(hz) as int;
            let places = time_precision(hz);
            &&& 1 <= places <= 3
            &&& 1000int % rate == 0 ==> power_of_ten(places) % rate == 0
            &&& places > 1 ==> power_of_ten((places - 1) as nat) % rate != 0
        }),
{
}

// ---------------------------------------------------------------------------
// Rows
// ---------------------------------------------------------------------------

/// One row of an export.
#[derive(Debug)]
pub struct ExportRow {
    /// The key of the metric.
    pub metric_key: String,
    /// The unit of the values.
    pub unit: String,
    /// Milliseconds since the first row.
    pub elapsed_ms: u64,
    /// The values.
    pub values: Vec<i64>,
}

/// One row of an export, abstractly.
pub struct Row {
    /// The key of the metric.
    pub metric_key: Seq<char>,
    /// The unit of the values.
    pub unit: Seq<char>,
    /// Milliseconds since the first row.
    pub elapsed_ms: u64,
    /// The values.
    pub values: Seq<i64>,
}

impl View for ExportRow {
    type V = Row;

    open spec fn view(&self) -> Row {
        Row {
            metric_key: self.metric_key@,
            unit: self.unit@,
            elapsed_ms: self.elapsed_ms,
            values: self.values@,
        }
    }
}

/// All frames of a session, channel by channel.
pub open spec fn all_frames(session: SessionStore) -> Seq<TimestampedBatch> {
    session.frames(Channel::CpuClock) + session.frames(Channel::CpuUsage) + session.frames(
        Channel::Fps,
    ) + session.frames(Channel::BatteryTemperature) + session.frames(Channel::BatteryVoltage)
        + session.frames(Channel::BatteryCurrent) + session.frames(Channel::BatteryPower)
}

/// Frames in the order of their times; frames of one time keep their order.
pub open spec fn in_order(frames: Seq<TimestampedBatch>) -> Seq<TimestampedBatch> {
    let order = sort::stable_order(storage::times(frames));
    Seq::new(order.len(), |i: int| frames[order[i] as int])
}

/// The row of a frame.
pub open spec fn row_of(frame: TimestampedBatch, base_ms: u64) -> Row {
    Row {
        metric_key: frame.batch.metric_key@,
        unit: frame.batch.unit@,
        elapsed_ms: storage::minus(frame.timestamp_ms, base_ms),
        values: types::padded(frame.batch.values@),
    }
}

/// The rows of frames that are in order. Time counts from the first of them.
pub open spec fn rows_of(frames: Seq<TimestampedBatch>) -> Seq<Row> {
    Seq::new(frames.len(), |i: int| row_of(frames[i], frames[0].timestamp_ms))
}

/// The rows of a session.
pub open spec fn session_rows(session: SessionStore) -> Seq<Row> {
    rows_of(in_order(all_frames(session)))
}

/// The rows of a session are as many as its frames, begin at time zero and go on in the order of
/// their times.
pub proof fn law_session_rows(session: SessionStore)
    requires
        all_frames(session).len() <= usize::MAX,
    ensures
        session_rows(session).len() == all_frames(session).len(),
        session_rows(session).len() > 0 ==> session_rows(session)[0].elapsed_ms == 0,
        forall|i: int, j: int|
            0 <= i <= j < session_rows(session).len() ==> (#[trigger] session_rows(
                session,
            )[i]).elapsed_ms <= (#[trigger] session_rows(session)[j]).elapsed_ms,
{
    let frames = all_frames(session);
    let keys = storage::times(frames);
    sort::lemma_stable_order_exists(keys);
    let order = sort::stable_order(keys);
    let sorted = in_order(frames);
    assert forall|i: int, j: int| 0 <= i <= j < sorted.len() implies (
    #[trigger] sorted[i]).timestamp_ms <= (#[trigger] sorted[j]).timestamp_ms by {
        assert(keys[order[i] as int] == sorted[i].timestamp_ms);
        assert(keys[order[j] as int] == sorted[j].timestamp_ms);
        if i < j {
            assert(sort::comes_before(keys, order[i] as int, order[j] as int));
        }
    }
    let rows = session_rows(session);
    assert forall|i: int, j: int| 0 <= i <= j < rows.len() implies (#[trigger] rows[i]).elapsed_ms
        <= (#[trigger] rows[j]).elapsed_ms by {
        assert(sorted[0].timestamp_ms <= sorted[i].timestamp_ms);
        assert(sorted[i].timestamp_ms <= sorted[j].timestamp_ms);
    }
}

/// Every frame of a session has its row in an export, with its key, its unit, its values and its
/// time since the first row.
pub proof fn law_frames_are_exported(session: SessionStore, channel: Channel, i: int)
    requires
        all_frames(session).len() <= usize::MAX,
        0 <= i < session.frames(channel).len(),
    ensures
        session_rows(session).contains(
            row_of(session.frames(channel)[i], in_order(all_frames(session))[0].timestamp_ms),
        ),
{
    let frames = all_frames(session);
    let keys = storage::times(frames);
    sort::lemma_stable_order_exists(keys);
    let order = sort::stable_order(keys);
    let clock = session.frames(Channel::CpuClock).len();
    let usage = clock + session.frames(Channel::CpuUsage).len();
    let fps = usage + session.frames(Channel::Fps).len();
    let temperature = fps + session.frames(Channel::BatteryTemperature).len();
    let voltage = temperature + session.frames(Channel::BatteryVoltage).len();
    let current = voltage + session.frames(Channel::BatteryCurrent).len();
    let place = match channel {
        Channel::CpuClock => i,
        Channel::CpuUsage => clock + i,
        Channel::Fps => usage + i,
        Channel::BatteryTemperature => fps + i,
        Channel::BatteryVoltage => temperature + i,
        Channel::BatteryCurrent => voltage + i,
        Channel::BatteryPower => current + i,
    };
    assert(frames[place] == session.frames(channel)[i]);
    sort::lemma_lists_every_place(keys, order, place);
    let k = choose|k: int| 0 <= k < order.len() && order[k] == place;
    assert(in_order(frames)[k] == frames[place]);
    assert(session_rows(session)[k] == row_of(
        frames[place],
        in_order(frames)[0].timestamp_ms,
    ));
}

/// The rows of a session are its frames, each once: there is an order of the frames in which the
/// rows have their keys, units, values and times. Frames of one time keep the order of the
/// channels.
pub proof fn law_rows_are_the_frames(session: SessionStore) -> (order: Seq<usize>)
    requires
        all_frames(session).len() <= usize::MAX,
    ensures
        order.len() == all_frames(session).len(),
        order.no_duplicates(),
        session_rows(session).len() == order.len(),
        forall|k: int|
            0 <= k < order.len() ==> {
                let frame = all_frames(session)[#[trigger] order[k] as int];
                let row = session_rows(session)[k];
                &&& order[k] < all_frames(session).len()
                &&& row.metric_key == frame.batch.metric_key@
                &&& row.unit == frame.batch.unit@
                &&& all_frames(session)[order[0] as int].timestamp_ms + row.elapsed_ms
                    == frame.timestamp_ms
                &&& row.values.len() == 10
                &&& forall|v: int|
                    0 <= v < 10 ==> row.values[v] == if v < frame.batch.values@.len() {
                        frame.batch.values@[v]
                    } else {
                        -1i64
                    }
            },
        forall|j: int, k: int|
            0 <= j < k < order.len() ==> {
                let a = all_frames(session)[#[trigger] order[j] as int].timestamp_ms;
                let b = all_frames(session)[#[trigger] order[k] as int].timestamp_ms;
                a < b || a == b && order[j] < order[k]
            },
{
    let frames = all_frames(session);
    let keys = storage::times(frames);
    sort::lemma_stable_order_exists(keys);
    let order = sort::stable_order(keys);
    assert forall|j: int, k: int| 0 <= j < k < order.len() implies {
        let a = frames[#[trigger] order[j] as int].timestamp_ms;
        let b = frames[#[trigger] order[k] as int].timestamp_ms;
        a < b || a == b && order[j] < order[k]
    } by {
        assert(sort::comes_before(keys, order[j] as int, order[k] as int));
    }
    assert forall|k: int| 0 <= k < order.len() implies {
        let frame = frames[#[trigger] order[k] as int];
        let row = session_rows(session)[k];
        &&& order[k] < frames.len()
        &&& row.metric_key == frame.batch.metric_key@
        &&& row.unit == frame.batch.unit@
        &&& frames[order[0] as int].timestamp_ms + row.elapsed_ms == frame.timestamp_ms
        &&& row.values.len() == 10
        &&& forall|v: int|
            0 <= v < 10 ==> row.values[v] == if v < frame.batch.values@.len() {
                frame.batch.values@[v]
            } else {
                -1i64
            }
    } by {
        assert(in_order(frames)[k] == frames[order[k] as int]);
        assert(in_order(frames)[0] == frames[order[0] as int]);
        if k > 0 {
            assert(sort::comes_before(keys, order[0] as int, order[k] as int));
        }
    }
    order
}

/// A frame of a known metric that a session takes up adds one row to its exports, with the key,
/// the unit and the values of the frame; a frame of another metric changes nothing in them.
pub proof fn law_pushed_frames_are_exported(
    before: SessionStore,
    after: SessionStore,
    frame: TimestampedBatch,
)
    requires
        storage::has_pushed(before, after, frame),
        all_frames(after).len() <= usize::MAX,
    ensures
        storage::channel_of(frame.batch.metric_key@) is Some ==> {
            &&& session_rows(after).len() == session_rows(before).len() + 1
            &&& exists|k: int|
                0 <= k < session_rows(after).len() && {
                    let row = #[trigger] session_rows(after)[k];
                    &&& row.metric_key == frame.batch.metric_key@
                    &&& row.unit == frame.batch.unit@
                    &&& row.values == types::padded(frame.batch.values@)
                }
        },
        storage::channel_of(frame.batch.metric_key@) is None ==> session_rows(after)
            == session_rows(before),
{
    match storage::channel_of(frame.batch.metric_key@) {
        None => {
            assert(all_frames(after) == all_frames(before));
        },
        Some(channel) => {
            assert(all_frames(after).len() == all_frames(before).len() + 1) by {
                assert(after.frames(channel).len() == before.frames(channel).len() + 1);
                assert(after.frames(Channel::CpuClock).len() >= 0);
                assert(after.frames(Channel::CpuUsage).len() >= 0);
                assert(after.frames(Channel::Fps).len() >= 0);
                assert(after.frames(Channel::BatteryTemperature).len() >= 0);
                assert(after.frames(Channel::BatteryVoltage).len() >= 0);
                assert(after.frames(Channel::BatteryCurrent).len() >= 0);
                assert(after.frames(Channel::BatteryPower).len() >= 0);
            }
            law_session_rows(before);
            law_session_rows(after);
            let last = after.frames(channel).len() - 1;
            law_frames_are_exported(after, channel, last);
            let row = row_of(
                after.frames(channel)[last],
                in_order(all_frames(after))[0].timestamp_ms,
            );
            let k = choose|k: int| 0 <= k < session_rows(after).len() && session_rows(after)[k] == row;
            assert(session_rows(after)[k] == row);
        },
    }
}

fn extend_frames<'a>(out: &mut Vec<&'a TimestampedBatch>, frames: &'a [TimestampedBatch])
    ensures
        final(out)@.unref() == old(out)@.unref() + frames@,
{
    let ghost before = out@.unref();
    let mut i: usize = 0;
    assert(before =~= before + frames@.take(0));
    while i < frames.len()
        invariant
            i <= frames@.len(),
            out@.unref() == before + frames@.take(i as int),
        decreases frames@.len() - i,
    {
        let ghost done = out@;
        out.push(&frames[i]);
        assert(out@.unref() =~= done.unref().push(frames@[i as int]));
        assert(frames@.take(i + 1) =~= frames@.take(i as int).push(frames@[i as int]));
        assert(out@.unref() =~= before + frames@.take(i + 1));
        i = i + 1;
    }
    assert(frames@.take(i as int) =~= frames@);
}

/// All frames of a session, channel by channel.
pub fn collect_frames<'a>(session: &'a SessionStore) -> (r: Vec<&'a TimestampedBatch>)
    ensures
        r@.unref() == all_frames(*session),
{
    let mut frames: Vec<&'a TimestampedBatch> = Vec::new();
    assert(frames@.unref() =~= Seq::empty());
    extend_frames(&mut frames, session.cpu_clock_frames());
    assert(frames@.unref() =~= session.frames(Channel::CpuClock));
    extend_frames(&mut frames, session.cpu_usage_frames());
    extend_frames(&mut frames, session.fps_frames());
    extend_frames(&mut frames, session.battery_temperature_frames());
    extend_frames(&mut frames, session.battery_voltage_frames());
    extend_frames(&mut frames, session.battery_current_frames());
    extend_frames(&mut frames, session.battery_power_frames());
    frames
}

fn padded_values(values: &Vec<i64>) -> (r: Vec<i64>)
    ensures
        r@ == types::padded(values@),
{
    let mut out: Vec<i64> = Vec::new();
    let mut i: usize = 0;
    while i < METRIC_VALUES_CAPACITY
        invariant
            i <= METRIC_VALUES_CAPACITY,
            out@ == types::padded(values@).take(i as int),
        decreases METRIC_VALUES_CAPACITY - i,
    {
        let value: i64 = if i < values.len() {
            values[i]
        } else {
            INVALID_METRIC_VALUE
        };
        out.push(value);
        assert(out@ =~= types::padded(values@).take(i + 1));
        i = i + 1;
    }
    assert(out@ =~= types::padded(values@));
    out
}

/// The rows of a session.
pub fn build_rows(session: &SessionStore) -> (r: Vec<ExportRow>)
    ensures
        text::views(r@) == session_rows(*session),
        r@.len() == all_frames(*session).len(),
{
    let frames = collect_frames(session);
    let ghost all = all_frames(*session);
    assert(all == frames@.unref());
    let mut keys: Vec<u64> = Vec::new();
    let mut i: usize = 0;
    while i < frames.len()
        invariant
            i <= frames@.len(),
            all == frames@.unref(),
            keys@ == storage::times(all).take(i as int),
        decreases frames@.len() - i,
    {
        assert(all[i as int] == *frames@[i as int]);
        keys.push(frames[i].timestamp_ms);
        assert(keys@ =~= storage::times(all).take(i + 1));
        i = i + 1;
    }
    assert(keys@ =~= storage::times(all));
    let order = order_by_key(keys.as_slice());
    let ghost sorted = in_order(all);
    let mut rows: Vec<ExportRow> = Vec::new();
    let mut base: u64 = 0;
    if order.len() > 0 {
        assert(order@[0] < keys@.len());
        assert(sorted[0] == all[order@[0] as int]);
        assert(all[order@[0] as int] == *frames@[order@[0] as int]);
        base = frames[order[0]].timestamp_ms;
    }
    let mut k: usize = 0;
    while k < order.len()
        invariant
            k <= order@.len(),
            all == frames@.unref(),
            keys@ == storage::times(all),
            order@ == sort::stable_order(keys@),
            sort::is_stable_order(keys@, order@),
            sorted == in_order(all),
            order@.len() > 0 ==> base == sorted[0].timestamp_ms,
            rows@.len() == k,
            forall|j: int| 0 <= j < k ==> (#[trigger] rows@[j])@ == row_of(sorted[j], base),
        decreases order@.len() - k,
    {
        assert(order@[k as int] < keys@.len());
        assert(sorted[k as int] == all[order@[k as int] as int]);
        assert(all[order@[k as int] as int] == *frames@[order@[k as int] as int]);
        let frame = frames[order[k]];
        rows.push(
            ExportRow {
                metric_key: frame.batch.metric_key.clone(),
                unit: frame.batch.unit.clone(),
                elapsed_ms: frame.timestamp_ms.saturating_sub(base),
                values: padded_values(&frame.batch.values),
            },
        );
        k = k + 1;
    }
    assert(text::views(rows@) =~= session_rows(*session));
    rows
}

/// The times of the rows of a session, in milliseconds since the first row.
pub fn elapsed_times(session: &SessionStore) -> (r: Vec<u64>)
    ensures
        r@ == session_rows(*session).map_values(|row: Row| row.elapsed_ms),
{
    let rows = build_rows(session);
    let mut out: Vec<u64> = Vec::new();
    let mut i: usize = 0;
    while i < rows.len()
        invariant
            i <= rows@.len(),
            text::views(rows@) == session_rows(*session),
            out@.len() == i,
            forall|j: int| 0 <= j < i ==> #[trigger] out@[j] == rows@[j]@.elapsed_ms,
        decreases rows@.len() - i,
    {
        out.push(rows[i].elapsed_ms);
        i = i + 1;
    }
    assert(out@ =~= session_rows(*session).map_values(|row: Row| row.elapsed_ms)) by {
        assert forall|j: int| 0 <= j < out@.len() implies out@[j] == (
        #[trigger] session_rows(*session)[j]).elapsed_ms by {
            assert(text::views(rows@)[j] == rows@[j]@);
        }
    }
    out
}

// ---------------------------------------------------------------------------
// The table
// ---------------------------------------------------------------------------

/// The heading of the table.
pub open spec fn csv_header(hz: u64) -> Seq<char> {
    "time_s(dp="@ + number::decimal(time_precision(hz)) + ",hz="@ + number::decimal(hz as nat)
        + "),metric_key,unit,value_0,value_1,value_2,value_3,value_4,value_5,value_6,value_7,value_8,value_9\n"@
}

/// Values, each behind a comma.
pub open spec fn csv_values(values: Seq<i64>) -> Seq<char>
    decreases values.len(),
{
    if values.len() == 0 {
        Seq::empty()
    } else {
        csv_values(values.drop_last()) + ","@ + number::decimal_int(values.last() as int)
    }
}

/// One line of the table. The label is the time in seconds.
pub open spec fn csv_row(row: Row, label: Seq<char>) -> Seq<char> {
    label + "s,"@ + csv_field(row.metric_key) + ","@ + csv_field(row.unit) + csv_values(row.values)
        + "\n"@
}

/// Lines of the table.
pub open spec fn csv_rows(rows: Seq<Row>, labels: Seq<Seq<char>>) -> Seq<char>
    decreases rows.len(),
{
    if rows.len() == 0 {
        Seq::empty()
    } else {
        csv_rows(rows.drop_last(), labels) + csv_row(rows.last(), labels[rows.len() - 1])
    }
}

fn write_values(values: &Vec<i64>) -> (r: String)
    ensures
        r@ == csv_values(values@),
{
    let mut out = String::new();
    let mut i: usize = 0;
    assert(values@.take(0) =~= Seq::empty());
    assert(out@ =~= Seq::empty());
    while i < values.len()
        invariant
            i <= values@.len(),
            out@ == csv_values(values@.take(i as int)),
        decreases values@.len() - i,
    {
        assert(values@.take(i + 1).drop_last() =~= values@.take(i as int));
        out.append(",");
        let value = write_i64(values[i]);
        out.append(value.as_str());
        i = i + 1;
    }
    assert(values@.take(i as int) =~= values@);
    out
}

/// One line of the table.
pub fn write_csv_row(row: &ExportRow, label: &str) -> (r: String)
    ensures
        r@ == csv_row(row@, label@),
{
    let mut out = String::from_str(label);
    out.append("s,");
    let key = write_csv_field(row.metric_key.as_str());
    out.append(key.as_str());
    out.append(",");
    let unit = write_csv_field(row.unit.as_str());
    out.append(unit.as_str());
    let values = write_values(&row.values);
    out.append(values.as_str());
    out.append("\n");
    out
}

/// The contents of the table of a session, and the number of its rows. The labels are the times
/// that `elapsed_times` lists, in seconds, with `time_precision_for_hz` decimal places.
pub fn export_session_to_csv(session: &SessionStore, sampling_hz: u64, time_labels: &Vec<String>) -> (r: (
    String,
    usize,
))
    requires
        time_labels@.len() == session_rows(*session).len(),
    ensures
        r.0@ == csv_header(sampling_hz) + csv_rows(
            session_rows(*session),
            text::views(time_labels@),
        ),
        r.1 == all_frames(*session).len(),
{
    let rows = build_rows(session);
    let ghost all = session_rows(*session);
    let ghost labels = text::views(time_labels@);
    assert(text::views(rows@).len() == rows@.len());
    let mut header = String::from_str("time_s(dp=");
    let precision = write_u64(time_precision_for_hz(sampling_hz) as u64);
    header.append(precision.as_str());
    header.append(",hz=");
    let hz = write_u64(sampling_hz);
    header.append(hz.as_str());
    header.append(
        "),metric_key,unit,value_0,value_1,value_2,value_3,value_4,value_5,value_6,value_7,value_8,value_9\n",
    );
    let mut body = String::new();
    let mut i: usize = 0;
    assert(all.take(0) =~= Seq::empty());
    assert(body@ =~= Seq::empty());
    while i < rows.len()
        invariant
            i <= rows@.len(),
            all == text::views(rows@),
            labels == text::views(time_labels@),
            time_labels@.len() == rows@.len(),
            body@ == csv_rows(all.take(i as int), labels),
        decreases rows@.len() - i,
    {
        assert(all.take(i + 1).drop_last() =~= all.take(i as int));
        assert(all.take(i + 1).last() == rows@[i as int]@);
        assert(labels[i as int] == time_labels@[i as int]@);
        let line = write_csv_row(&rows[i], time_labels[i].as_str());
        body.append(line.as_str());
        i = i + 1;
    }
    assert(all.take(i as int) =~= all);
    header.append(body.as_str());
    (header, rows.len())
}

// ---------------------------------------------------------------------------
// The data file
// ---------------------------------------------------------------------------

/// Values, separated by commas.
pub open spec fn json_values(values: Seq<i64>) -> Seq<char> {
    text::join(values.map_values(|v: i64| number::decimal_int(v as int)), ", "@)
}

/// One row of the data file. The label is the time in seconds.
pub open spec fn json_row(row: Row, label: Seq<char>) -> Seq<char> {
    "    {\n      \"time_s\": "@ + label + ",\n      \"metric_key\": \""@ + json_escaped(
        row.metric_key,
    ) + "\",\n      \"unit\": \""@ + json_escaped(row.unit) + "\",\n      \"values\": ["@
        + json_values(row.values) + "]\n    }"@
}

/// The rows of the data file, separated by commas.
pub open spec fn json_rows(rows: Seq<Row>, labels: Seq<Seq<char>>) -> Seq<Seq<char>> {
    Seq::new(rows.len(), |i: int| json_row(rows[i], labels[i]))
}

/// What stands between two rows of the data file.
pub open spec fn json_break() -> &'static str {
    ",\n"
}

/// What stands behind the last row of the data file.
pub open spec fn json_end(count: nat) -> &'static str {
    if count > 0 {
        "\n"
    } else {
        ""
    }
}

/// The data file of rows.
pub open spec fn json_text(rows: Seq<Row>, labels: Seq<Seq<char>>, hz: u64) -> Seq<char> {
    "{\n  \"sampling_hz\": "@ + number::decimal(hz as nat) + ",\n  \"time_precision\": "@
        + number::decimal(time_precision(hz)) + ",\n  \"rows\": [\n"@ + text::join(
        json_rows(rows, labels),
        json_break()@,
    ) + json_end(rows.len())@ + "  ]\n}"@
}

fn write_json_row(row: &ExportRow, label: &str) -> (r: String)
    ensures
        r@ == json_row(row@, label@),
{
    let mut out = String::from_str("    {\n      \"time_s\": ");
    out.append(label);
    out.append(",\n      \"metric_key\": \"");
    let key = json_escape(row.metric_key.as_str());
    out.append(key.as_str());
    out.append("\",\n      \"unit\": \"");
    let unit = json_escape(row.unit.as_str());
    out.append(unit.as_str());
    out.append("\",\n      \"values\": [");
    let mut items: Vec<String> = Vec::new();
    let mut i: usize = 0;
    while i < row.values.len()
        invariant
            i <= row.values@.len(),
            items@.len() == i,
            forall|j: int|
                0 <= j < i ==> (#[trigger] items@[j])@ == number::decimal_int(
                    row.values@[j] as int,
                ),
        decreases row.values@.len() - i,
    {
        items.push(write_i64(row.values[i]));
        i = i + 1;
    }
    assert(text::views(items@) =~= row@.values.map_values(
        |v: i64| number::decimal_int(v as int),
    ));
    let list = text::joined(&items, ", ");
    out.append(list.as_str());
    out.append("]\n    }");
    out
}

/// The contents of the data file of a session, and the number of its rows. The labels are the
/// times that `elapsed_times` lists, in seconds, with `time_precision_for_hz` decimal places.
pub fn export_session_to_json(session: &SessionStore, sampling_hz: u64, time_labels: &Vec<String>) -> (r: (
    String,
    usize,
))
    requires
        time_labels@.len() == session_rows(*session).len(),
    ensures
        r.0@ == json_text(session_rows(*session), text::views(time_labels@), sampling_hz),
        r.1 == all_frames(*session).len(),
{
    let rows = build_rows(session);
    let ghost all = session_rows(*session);
    let ghost labels = text::views(time_labels@);
    assert(text::views(rows@).len() == rows@.len());
    let mut out = String::from_str("{\n  \"sampling_hz\": ");
    let hz = write_u64(sampling_hz);
    out.append(hz.as_str());
    out.append(",\n  \"time_precision\": ");
    let precision = write_u64(time_precision_for_hz(sampling_hz) as u64);
    out.append(precision.as_str());
    out.append(",\n  \"rows\": [\n");
    let mut items: Vec<String> = Vec::new();
    let mut i: usize = 0;
    while i < rows.len()
        invariant
            i <= rows@.len(),
            all == text::views(rows@),
            labels == text::views(time_labels@),
            time_labels@.len() == rows@.len(),
            items@.len() == i,
            forall|j: int| 0 <= j < i ==> (#[trigger] items@[j])@ == json_row(all[j], labels[j]),
        decreases rows@.len() - i,
    {
        assert(all[i as int] == rows@[i as int]@);
        assert(labels[i as int] == time_labels@[i as int]@);
        items.push(write_json_row(&rows[i], time_labels[i].as_str()));
        i = i + 1;
    }
    assert(text::views(items@) =~= json_rows(all, labels));
    let list = text::joined(&items, ",\n");
    out.append(list.as_str());
    if rows.len() > 0 {
        out.append("\n");
    } else {
        out.append("");
    }
    out.append("  ]\n}");
    (out, rows.len())
}

} // verus!
