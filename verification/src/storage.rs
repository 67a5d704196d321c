//! The frames of a session, by metric, on a timeline from which ranges can be cut out.

use vstd::prelude::*;

use crate::constants::INVALID_METRIC_VALUE;
use crate::sort;
use crate::text;
use crate::text::same_str;
use crate::types::MetricBatch;

verus! {

/// A metric batch with the time of its reading.
#[derive(Debug)]
pub struct TimestampedBatch {
    /// Milliseconds on the timeline of the session.
    pub timestamp_ms: u64,
    /// The reading.
    pub batch: MetricBatch,
}

impl View for TimestampedBatch {
    type V = (u64, (Seq<char>, Seq<char>, Seq<i64>));

    open spec fn view(&self) -> (u64, (Seq<char>, Seq<char>, Seq<i64>)) {
        (self.timestamp_ms, self.batch@)
    }
}

impl Clone for TimestampedBatch {
    fn clone(&self) -> (r: Self)
        ensures
            r@ == self@,
    {
        TimestampedBatch { timestamp_ms: self.timestamp_ms, batch: self.batch.clone() }
    }
}

/// The metrics that a session stores.
#[derive(Debug, Clone, Copy, PartialEq, Eq, Structural)]
pub enum Channel {
    /// Clock rates of the CPU policies.
    CpuClock,
    /// Utilisation of the CPU policies.
    CpuUsage,
    /// Frames per second.
    Fps,
    /// Temperature of the battery.
    BatteryTemperature,
    /// Voltage of the battery.
    BatteryVoltage,
    /// Current of the battery.
    BatteryCurrent,
    /// Power that the battery delivers.
    BatteryPower,
}

impl Channel {
    /// The name of a channel.
    pub open spec fn title(self) -> &'static str {
        match self {
            Channel::CpuClock => "CPU_CLOCK",
            Channel::CpuUsage => "CPU_USAGE",
            Channel::Fps => "FPS",
            Channel::BatteryTemperature => "BATTERY_TEMP",
            Channel::BatteryVoltage => "VOLTAGE",
            Channel::BatteryCurrent => "CURRENT",
            Channel::BatteryPower => "POWER",
        }
    }

    /// The name of a channel.
    pub fn as_str(self) -> (r: &'static str)
        ensures
            r@ == self.title()@,
    {
        match self {
            Channel::CpuClock => "CPU_CLOCK",
            Channel::CpuUsage => "CPU_USAGE",
            Channel::Fps => "FPS",
            Channel::BatteryTemperature => "BATTERY_TEMP",
            Channel::BatteryVoltage => "VOLTAGE",
            Channel::BatteryCurrent => "CURRENT",
            Channel::BatteryPower => "POWER",
        }
    }
}

/// The channels, in the order in which their profilers are started.
pub open spec fn channels() -> Seq<Channel> {
    seq![
        Channel::CpuClock,
        Channel::CpuUsage,
        Channel::Fps,
        Channel::BatteryTemperature,
        Channel::BatteryVoltage,
        Channel::BatteryCurrent,
        Channel::BatteryPower,
    ]
}

/// The channel that a metric key names.
pub open spec fn channel_of(metric_key: Seq<char>) -> Option<Channel> {
    if metric_key == "CPU_CLOCK"@ {
        Some(Channel::CpuClock)
    } else if metric_key == "CPU_USAGE"@ {
        Some(Channel::CpuUsage)
    } else if metric_key == "FPS"@ {
        Some(Channel::Fps)
    } else if metric_key == "BATTERY_TEMP"@ {
        Some(Channel::BatteryTemperature)
    } else if metric_key == "VOLTAGE"@ {
        Some(Channel::BatteryVoltage)
    } else if metric_key == "CURRENT"@ {
        Some(Channel::BatteryCurrent)
    } else if metric_key == "POWER"@ {
        Some(Channel::BatteryPower)
    } else {
        None
    }
}

/// A channel is named by the key of its metric.
pub proof fn law_channels_are_named_by_their_keys(channel: Channel)
    ensures
        channel_of(channel.title()@) == Some(channel),
{
    reveal_strlit("CPU_CLOCK");
    reveal_strlit("CPU_USAGE");
    reveal_strlit("FPS");
    reveal_strlit("BATTERY_TEMP");
    reveal_strlit("VOLTAGE");
    reveal_strlit("CURRENT");
    reveal_strlit("POWER");
    assert("CPU_CLOCK"@.len() == 9 && "CPU_USAGE"@.len() == 9 && "CPU_CLOCK"@[4] == 'C');
    assert("CPU_USAGE"@[4] == 'U');
    assert("FPS"@.len() == 3 && "BATTERY_TEMP"@.len() == 12 && "POWER"@.len() == 5);
    assert("VOLTAGE"@.len() == 7 && "VOLTAGE"@[0] == 'V');
    assert("CURRENT"@.len() == 7 && "CURRENT"@[0] == 'C');
}

/// The difference of two times, or zero where it would be negative.
pub open spec fn minus(a: u64, b: u64) -> u64 {
    if a >= b {
        (a - b) as u64
    } else {
        0
    }
}

/// The sum of two times, or the latest time where it would not fit.
pub open spec fn plus(a: u64, b: u64) -> u64 {
    if a + b <= u64::MAX {
        (a + b) as u64
    } else {
        u64::MAX
    }
}

/// A frame at another time.
pub open spec fn at_time(frame: TimestampedBatch, timestamp_ms: u64) -> TimestampedBatch {
    TimestampedBatch { timestamp_ms, batch: frame.batch }
}

/// The times of frames.
pub open spec fn times(frames: Seq<TimestampedBatch>) -> Seq<u64> {
    frames.map_values(|f: TimestampedBatch| f.timestamp_ms)
}

/// What becomes of a frame when the range from `start_ms` to `end_ms`, both ends within it, is
/// cut out: it goes if it lies in the range, and moves down by `shift_ms` if it lies behind it.
pub open spec fn cut_frame(
    frame: TimestampedBatch,
    start_ms: u64,
    end_ms: u64,
    shift_ms: u64,
) -> Option<TimestampedBatch> {
    if start_ms <= frame.timestamp_ms <= end_ms {
        None
    } else if frame.timestamp_ms > end_ms {
        Some(at_time(frame, minus(frame.timestamp_ms, shift_ms)))
    } else {
        Some(frame)
    }
}

/// What becomes of the frames of a channel when a range is cut out.
pub open spec fn cut_frames(
    frames: Seq<TimestampedBatch>,
    start_ms: u64,
    end_ms: u64,
    shift_ms: u64,
) -> Seq<TimestampedBatch> {
    frames.filter_map(|f: TimestampedBatch| cut_frame(f, start_ms, end_ms, shift_ms))
}

/// Whether `step` is the smallest distance between two different times.
pub open spec fn is_smallest_gap(ts: Seq<u64>, step: u64) -> bool {
    &&& step > 0
    &&& exists|i: int, j: int|
        0 <= i < ts.len() && 0 <= j < ts.len() && #[trigger] ts[i] + step == #[trigger] ts[j]
    &&& forall|i: int, j: int|
        0 <= i < ts.len() && 0 <= j < ts.len() && #[trigger] ts[i] < #[trigger] ts[j] ==> ts[i]
            + step <= ts[j]
}

/// The smallest distance between two different times, if there are two.
pub open spec fn smallest_gap(ts: Seq<u64>) -> Option<u64> {
    if exists|step: u64| is_smallest_gap(ts, step) {
        Some(choose|step: u64| is_smallest_gap(ts, step))
    } else {
        None
    }
}

/// A value, if it is valid.
pub open spec fn valid(value: i64) -> Option<i64> {
    if value != INVALID_METRIC_VALUE {
        Some(value)
    } else {
        None
    }
}

/// The values of the latest frame, each if it is valid; nothing where there is no frame.
pub open spec fn latest_of(frames: Seq<TimestampedBatch>) -> Seq<Option<i64>> {
    if frames.len() > 0 {
        frames.last().batch.values@.map_values(|v: i64| valid(v))
    } else {
        Seq::empty()
    }
}

/// The first value of the latest frame, if there is one and it is valid.
pub open spec fn latest_scalar_of(frames: Seq<TimestampedBatch>) -> Option<i64> {
    if frames.len() > 0 && frames.last().batch.values@.len() > 0 {
        valid(frames.last().batch.values@[0])
    } else {
        None
    }
}

/// Whether an optional reference is the last of the frames.
pub open spec fn is_last(r: Option<&TimestampedBatch>, frames: Seq<TimestampedBatch>) -> bool {
    match r {
        Some(frame) => frames.len() > 0 && *frame == frames.last(),
        None => frames.len() == 0,
    }
}

/// The smaller of a time and the first of the frames.
pub open spec fn earlier(t: Option<u64>, frames: Seq<TimestampedBatch>) -> Option<u64> {
    if frames.len() == 0 {
        t
    } else {
        match t {
            Some(t) if t <= frames[0].timestamp_ms => Some(t),
            _ => Some(frames[0].timestamp_ms),
        }
    }
}

/// The frames of a session. Ranges that were cut out of the timeline also shorten it for the
/// frames that come later.
#[derive(Debug)]
pub struct SessionStore {
    cpu_clock: Vec<TimestampedBatch>,
    cpu_usage: Vec<TimestampedBatch>,
    fps: Vec<TimestampedBatch>,
    battery_temperature: Vec<TimestampedBatch>,
    battery_voltage: Vec<TimestampedBatch>,
    battery_current: Vec<TimestampedBatch>,
    battery_power: Vec<TimestampedBatch>,
    timeline_compaction_ms: u64,
}

impl SessionStore {
    /// The frames of a channel, in the order in which they came.
    pub closed spec fn frames(self, channel: Channel) -> Seq<TimestampedBatch> {
        match channel {
            Channel::CpuClock => self.cpu_clock@,
            Channel::CpuUsage => self.cpu_usage@,
            Channel::Fps => self.fps@,
            Channel::BatteryTemperature => self.battery_temperature@,
            Channel::BatteryVoltage => self.battery_voltage@,
            Channel::BatteryCurrent => self.battery_current@,
            Channel::BatteryPower => self.battery_power@,
        }
    }

    /// How much has been cut out of the timeline.
    pub closed spec fn compaction(self) -> u64 {
        self.timeline_compaction_ms
    }

    /// The times of all frames, channel by channel.
    pub open spec fn all_times(self) -> Seq<u64> {
        times(self.frames(Channel::CpuClock)) + times(self.frames(Channel::CpuUsage)) + times(
            self.frames(Channel::Fps),
        ) + times(self.frames(Channel::BatteryTemperature)) + times(
            self.frames(Channel::BatteryVoltage),
        ) + times(self.frames(Channel::BatteryCurrent)) + times(self.frames(Channel::BatteryPower))
    }

    /// How far the timeline closes when a range is cut out: by the length of the range, or by
    /// one sampling step where the range is a single point.
    pub open spec fn shift_for(self, start_ms: u64, end_ms: u64) -> u64 {
        if start_ms == end_ms {
            match smallest_gap(self.all_times()) {
                Some(step) => step,
                None => 0,
            }
        } else {
            minus(end_ms, start_ms)
        }
    }

    /// The earliest of the first frames of the channels.
    pub open spec fn start(self) -> Option<u64> {
        earlier(
            earlier(
                earlier(
                    earlier(
                        earlier(
                            earlier(
                                earlier(None, self.frames(Channel::CpuClock)),
                                self.frames(Channel::CpuUsage),
                            ),
                            self.frames(Channel::Fps),
                        ),
                        self.frames(Channel::BatteryTemperature),
                    ),
                    self.frames(Channel::BatteryVoltage),
                ),
                self.frames(Channel::BatteryCurrent),
            ),
            self.frames(Channel::BatteryPower),
        )
    }
}

// ---------------------------------------------------------------------------
// Laws
// ---------------------------------------------------------------------------

/// The smallest distance is unique.
pub proof fn lemma_smallest_gap_is(ts: Seq<u64>, step: u64)
    requires
        is_smallest_gap(ts, step),
    ensures
        smallest_gap(ts) == Some(step),
{
    let other = choose|s: u64| is_smallest_gap(ts, s);
    let (i, j) = choose|i: int, j: int|
        0 <= i < ts.len() && 0 <= j < ts.len() && #[trigger] ts[i] + step == #[trigger] ts[j];
    let (k, l) = choose|k: int, l: int|
        0 <= k < ts.len() && 0 <= l < ts.len() && #[trigger] ts[k] + other == #[trigger] ts[l];
    assert(ts[i] < ts[j]);
    assert(ts[k] < ts[l]);
}

/// Cutting a range out removes exactly the frames in the range and keeps the others in order:
/// those before it as they are, those behind it moved down.
pub proof fn law_cut_frames_one_by_one(
    frames: Seq<TimestampedBatch>,
    last: TimestampedBatch,
    start_ms: u64,
    end_ms: u64,
    shift_ms: u64,
)
    ensures
        cut_frames(Seq::empty(), start_ms, end_ms, shift_ms) == Seq::<TimestampedBatch>::empty(),
        cut_frames(frames.push(last), start_ms, end_ms, shift_ms) == match cut_frame(
            last,
            start_ms,
            end_ms,
            shift_ms,
        ) {
            Some(f) => cut_frames(frames, start_ms, end_ms, shift_ms).push(f),
            None => cut_frames(frames, start_ms, end_ms, shift_ms),
        },
{
    let f = |f: TimestampedBatch| cut_frame(f, start_ms, end_ms, shift_ms);
    let all = frames.push(last);
    all.lemma_filter_map_take_succ(f, frames.len() as int);
    assert(all.take(frames.len() as int) =~= frames);
    assert(all.take(frames.len() as int + 1) =~= all);
}

/// Cutting out an empty range by no shift changes nothing.
pub proof fn law_cut_of_no_range(frames: Seq<TimestampedBatch>, start_ms: u64, end_ms: u64)
    requires
        start_ms > end_ms,
    ensures
        cut_frames(frames, start_ms, end_ms, 0) == frames,
    decreases frames.len(),
{
    if frames.len() > 0 {
        law_cut_of_no_range(frames.drop_last(), start_ms, end_ms);
        law_cut_frames_one_by_one(frames.drop_last(), frames.last(), start_ms, end_ms, 0);
        assert(frames.drop_last().push(frames.last()) =~= frames);
        assert(at_time(frames.last(), frames.last().timestamp_ms) == frames.last());
    } else {
        law_cut_frames_one_by_one(frames, arbitrary(), start_ms, end_ms, 0);
        assert(frames =~= Seq::empty());
    }
}

/// Whether the frames are in the order of their times.
pub open spec fn in_time_order(frames: Seq<TimestampedBatch>) -> bool {
    forall|i: int, j: int|
        0 <= i <= j < frames.len() ==> #[trigger] frames[i].timestamp_ms
            <= #[trigger] frames[j].timestamp_ms
}

/// What is left of a channel came from frames that were there before.
proof fn lemma_cut_comes_from(
    frames: Seq<TimestampedBatch>,
    start_ms: u64,
    end_ms: u64,
    shift_ms: u64,
    k: int,
)
    requires
        0 <= k < cut_frames(frames, start_ms, end_ms, shift_ms).len(),
    ensures
        exists|i: int|
            0 <= i < frames.len() && cut_frame(#[trigger] frames[i], start_ms, end_ms, shift_ms)
                == Some(cut_frames(frames, start_ms, end_ms, shift_ms)[k]),
    decreases frames.len(),
{
    if frames.len() == 0 {
        law_cut_frames_one_by_one(frames, arbitrary(), start_ms, end_ms, shift_ms);
        assert(frames =~= Seq::empty());
    } else {
        let rest = frames.drop_last();
        law_cut_frames_one_by_one(rest, frames.last(), start_ms, end_ms, shift_ms);
        assert(rest.push(frames.last()) =~= frames);
        let n = cut_frames(rest, start_ms, end_ms, shift_ms).len() as int;
        if k < n {
            lemma_cut_comes_from(rest, start_ms, end_ms, shift_ms, k);
            let i = choose|i: int|
                0 <= i < rest.len() && cut_frame(#[trigger] rest[i], start_ms, end_ms, shift_ms)
                    == Some(cut_frames(rest, start_ms, end_ms, shift_ms)[k]);
            assert(frames[i] == rest[i]);
        } else {
            assert(frames[frames.len() - 1] == frames.last());
        }
    }
}

/// Frames in the order of their times stay so when a range is cut out, provided that the
/// timeline closes by no more than lies between a frame before the range and one behind it.
pub proof fn law_cut_keeps_time_order(
    frames: Seq<TimestampedBatch>,
    start_ms: u64,
    end_ms: u64,
    shift_ms: u64,
)
    requires
        in_time_order(frames),
        forall|i: int, j: int|
            0 <= i < frames.len() && 0 <= j < frames.len() && #[trigger] frames[i].timestamp_ms
                < start_ms && end_ms < #[trigger] frames[j].timestamp_ms
                ==> frames[i].timestamp_ms + shift_ms <= frames[j].timestamp_ms,
    ensures
        in_time_order(cut_frames(frames, start_ms, end_ms, shift_ms)),
    decreases frames.len(),
{
    if frames.len() == 0 {
        law_cut_frames_one_by_one(frames, arbitrary(), start_ms, end_ms, shift_ms);
        assert(frames =~= Seq::empty());
    } else {
        let rest = frames.drop_last();
        law_cut_frames_one_by_one(rest, frames.last(), start_ms, end_ms, shift_ms);
        assert(rest.push(frames.last()) =~= frames);
        assert forall|i: int, j: int|
            0 <= i < rest.len() && 0 <= j < rest.len() && #[trigger] rest[i].timestamp_ms
                < start_ms && end_ms < #[trigger] rest[j].timestamp_ms implies rest[i].timestamp_ms
            + shift_ms <= rest[j].timestamp_ms by {
            assert(frames[i] == rest[i] && frames[j] == rest[j]);
        }
        assert(in_time_order(rest)) by {
            assert forall|i: int, j: int| 0 <= i <= j < rest.len() implies #[trigger] rest[i].timestamp_ms
                <= #[trigger] rest[j].timestamp_ms by {
                assert(frames[i] == rest[i] && frames[j] == rest[j]);
            }
        }
        law_cut_keeps_time_order(rest, start_ms, end_ms, shift_ms);
        let out = cut_frames(frames, start_ms, end_ms, shift_ms);
        let head = cut_frames(rest, start_ms, end_ms, shift_ms);
        assert forall|i: int, j: int| 0 <= i <= j < out.len() implies #[trigger] out[i].timestamp_ms
            <= #[trigger] out[j].timestamp_ms by {
            if j < head.len() {
                assert(head[i].timestamp_ms <= head[j].timestamp_ms);
            } else if i < head.len() {
                lemma_cut_comes_from(rest, start_ms, end_ms, shift_ms, i);
                let a = choose|a: int|
                    0 <= a < rest.len() && cut_frame(#[trigger] rest[a], start_ms, end_ms, shift_ms)
                        == Some(head[i]);
                assert(frames[a] == rest[a]);
                assert(frames[a].timestamp_ms <= frames[frames.len() - 1].timestamp_ms);
            }
        }
    }
}

/// Deleting any range from a store keeps the frames of a channel in the order of their times.
pub proof fn law_delete_range_keeps_time_order(
    store: SessionStore,
    channel: Channel,
    start_ms: u64,
    end_ms: u64,
)
    requires
        in_time_order(store.frames(channel)),
    ensures
        in_time_order(
            cut_frames(
                store.frames(channel),
                start_ms,
                end_ms,
                store.shift_for(start_ms, end_ms),
            ),
        ),
{
    let frames = store.frames(channel);
    let shift_ms = store.shift_for(start_ms, end_ms);
    if start_ms > end_ms {
        law_cut_of_no_range(frames, start_ms, end_ms);
    } else {
        assert forall|i: int, j: int|
            0 <= i < frames.len() && 0 <= j < frames.len() && #[trigger] frames[i].timestamp_ms
                < start_ms && end_ms < #[trigger] frames[j].timestamp_ms implies frames[i].timestamp_ms
            + shift_ms <= frames[j].timestamp_ms by {
            if start_ms == end_ms {
                let ts = store.all_times();
                if let Some(step) = smallest_gap(ts) {
                    assert(is_smallest_gap(ts, step));
                    let n0 = store.frames(Channel::CpuClock).len() as int;
                    let n1 = n0 + store.frames(Channel::CpuUsage).len();
                    let n2 = n1 + store.frames(Channel::Fps).len();
                    let n3 = n2 + store.frames(Channel::BatteryTemperature).len();
                    let n4 = n3 + store.frames(Channel::BatteryVoltage).len();
                    let n5 = n4 + store.frames(Channel::BatteryCurrent).len();
                    let base: int = match channel {
                        Channel::CpuClock => 0,
                        Channel::CpuUsage => n0,
                        Channel::Fps => n1,
                        Channel::BatteryTemperature => n2,
                        Channel::BatteryVoltage => n3,
                        Channel::BatteryCurrent => n4,
                        Channel::BatteryPower => n5,
                    };
                    assert(ts[base + i] == frames[i].timestamp_ms);
                    assert(ts[base + j] == frames[j].timestamp_ms);
                }
            }
        }
        law_cut_keeps_time_order(frames, start_ms, end_ms, shift_ms);
    }
}

/// A frame that lies behind a range ends up at the same place whether it came before the range
/// was cut out or after: the timeline that later frames are put on is the shortened one.
pub proof fn law_later_frames_join_the_shortened_timeline(
    frames: Seq<TimestampedBatch>,
    frame: TimestampedBatch,
    compaction_ms: u64,
    start_ms: u64,
    end_ms: u64,
    shift_ms: u64,
)
    requires
        minus(frame.timestamp_ms, compaction_ms) > end_ms,
    ensures
        cut_frames(
            frames.push(at_time(frame, minus(frame.timestamp_ms, compaction_ms))),
            start_ms,
            end_ms,
            shift_ms,
        ) == cut_frames(frames, start_ms, end_ms, shift_ms).push(
            at_time(frame, minus(frame.timestamp_ms, plus(compaction_ms, shift_ms))),
        ),
{
    law_cut_frames_one_by_one(
        frames,
        at_time(frame, minus(frame.timestamp_ms, compaction_ms)),
        start_ms,
        end_ms,
        shift_ms,
    );
}

// ---------------------------------------------------------------------------
// Operations
// ---------------------------------------------------------------------------

/// Whether `after` is what a store becomes when it takes up a frame: the frame joins the channel
/// of its metric, on the shortened timeline; one of no known metric is dropped.
pub open spec fn has_pushed(
    before: SessionStore,
    after: SessionStore,
    frame: TimestampedBatch,
) -> bool {
    &&& after.compaction() == before.compaction()
    &&& forall|c: Channel| #[trigger]
        after.frames(c) == if channel_of(frame.batch.metric_key@) == Some(c) {
            before.frames(c).push(
                at_time(frame, minus(frame.timestamp_ms, before.compaction())),
            )
        } else {
            before.frames(c)
        }
}

/// Differences and sums of times stay within the range of times: a difference undoes a sum, and
/// what would leave the range stops at its end.
pub proof fn law_times_stop_at_the_ends(a: u64, b: u64)
    ensures
        a >= b ==> minus(a, b) + b == a,
        a < b ==> minus(a, b) == 0,
        a + b <= u64::MAX ==> plus(a, b) == a + b && minus(plus(a, b), b) == a,
        a + b > u64::MAX ==> plus(a, b) == u64::MAX,
{
}

/// Of a frame that lies in a range nothing is left when the range is cut out; one before the range
/// stays as it is; one behind it keeps its reading and moves down by the shift.
pub proof fn law_cut_range(
    frames: Seq<TimestampedBatch>,
    last: TimestampedBatch,
    start_ms: u64,
    end_ms: u64,
    shift_ms: u64,
)
    requires
        start_ms <= end_ms,
    ensures
        ({
            let before = cut_frames(frames, start_ms, end_ms, shift_ms);
            let after = cut_frames(frames.push(last), start_ms, end_ms, shift_ms);
            &&& start_ms <= last.timestamp_ms <= end_ms ==> after == before
            &&& last.timestamp_ms < start_ms ==> after == before.push(last)
            &&& last.timestamp_ms > end_ms ==> after.len() == before.len() + 1
                && after.drop_last() == before && after.last().batch == last.batch && (
            last.timestamp_ms >= shift_ms ==> after.last().timestamp_ms + shift_ms
                == last.timestamp_ms)
        }),
{
    law_cut_frames_one_by_one(frames, last, start_ms, end_ms, shift_ms);
    let before = cut_frames(frames, start_ms, end_ms, shift_ms);
    assert(before.push(at_time(last, minus(last.timestamp_ms, shift_ms))).drop_last() =~= before);
}

proof fn lemma_time_is_listed(store: SessionStore, channel: Channel, i: int) -> (place: int)
    requires
        0 <= i < store.frames(channel).len(),
    ensures
        0 <= place < store.all_times().len(),
        store.all_times()[place] == store.frames(channel)[i].timestamp_ms,
{
    let n0 = store.frames(Channel::CpuClock).len() as int;
    let n1 = n0 + store.frames(Channel::CpuUsage).len();
    let n2 = n1 + store.frames(Channel::Fps).len();
    let n3 = n2 + store.frames(Channel::BatteryTemperature).len();
    let n4 = n3 + store.frames(Channel::BatteryVoltage).len();
    let n5 = n4 + store.frames(Channel::BatteryCurrent).len();
    let base: int = match channel {
        Channel::CpuClock => 0,
        Channel::CpuUsage => n0,
        Channel::Fps => n1,
        Channel::BatteryTemperature => n2,
        Channel::BatteryVoltage => n3,
        Channel::BatteryCurrent => n4,
        Channel::BatteryPower => n5,
    };
    base + i
}

proof fn lemma_listed_time_is_a_frames(store: SessionStore, place: int) -> (r: (Channel, int))
    requires
        0 <= place < store.all_times().len(),
    ensures
        0 <= r.1 < store.frames(r.0).len(),
        store.frames(r.0)[r.1].timestamp_ms == store.all_times()[place],
{
    let n0 = store.frames(Channel::CpuClock).len() as int;
    let n1 = n0 + store.frames(Channel::CpuUsage).len();
    let n2 = n1 + store.frames(Channel::Fps).len();
    let n3 = n2 + store.frames(Channel::BatteryTemperature).len();
    let n4 = n3 + store.frames(Channel::BatteryVoltage).len();
    let n5 = n4 + store.frames(Channel::BatteryCurrent).len();
    if place < n0 {
        (Channel::CpuClock, place)
    } else if place < n1 {
        (Channel::CpuUsage, place - n0)
    } else if place < n2 {
        (Channel::Fps, place - n1)
    } else if place < n3 {
        (Channel::BatteryTemperature, place - n2)
    } else if place < n4 {
        (Channel::BatteryVoltage, place - n3)
    } else if place < n5 {
        (Channel::BatteryCurrent, place - n4)
    } else {
        (Channel::BatteryPower, place - n5)
    }
}

/// Whether two frames lie the given distance apart.
pub open spec fn lie_apart(
    store: SessionStore,
    a: Channel,
    i: int,
    b: Channel,
    j: int,
    distance: int,
) -> bool {
    &&& 0 <= i < store.frames(a).len()
    &&& 0 <= j < store.frames(b).len()
    &&& store.frames(a)[i].timestamp_ms + distance == store.frames(b)[j].timestamp_ms
}

/// The timeline closes by the length of a range that is cut out. Where the range is a single
/// point it closes by one sampling step: no two frames of any channels that differ in time lie
/// closer together, and two of them lie just so far apart. Where all frames are of one time it
/// does not close.
pub proof fn law_timeline_closes(store: SessionStore, start_ms: u64, end_ms: u64)
    ensures
        start_ms < end_ms ==> store.shift_for(start_ms, end_ms) == end_ms - start_ms,
        start_ms > end_ms ==> store.shift_for(start_ms, end_ms) == 0,
        start_ms == end_ms ==> {
            let shift = store.shift_for(start_ms, end_ms);
            &&& forall|a: Channel, i: int, b: Channel, j: int, d: int| #[trigger]
                lie_apart(store, a, i, b, j, d) && d > 0 ==> 0 < shift <= d
            &&& shift > 0 ==> exists|a: Channel, i: int, b: Channel, j: int| #[trigger]
                lie_apart(store, a, i, b, j, shift as int)
        },
{
    if start_ms == end_ms {
        let shift = store.shift_for(start_ms, end_ms);
        let ts = store.all_times();
        assert forall|a: Channel, i: int, b: Channel, j: int, d: int| #[trigger]
            lie_apart(store, a, i, b, j, d) && d > 0 implies 0 < shift <= d by {
            let p = lemma_time_is_listed(store, a, i);
            let q = lemma_time_is_listed(store, b, j);
            assert(ts[p] < ts[q]);
            lemma_a_gap_exists(ts, p, q);
        }
        if shift > 0 {
            let step = shift;
            assert(is_smallest_gap(ts, step));
            let (p, q) = choose|p: int, q: int|
                0 <= p < ts.len() && 0 <= q < ts.len() && #[trigger] ts[p] + step
                    == #[trigger] ts[q];
            let x = lemma_listed_time_is_a_frames(store, p);
            let y = lemma_listed_time_is_a_frames(store, q);
            assert(lie_apart(store, x.0, x.1, y.0, y.1, shift as int));
        }
    }
}

/// Where two times differ there is a smallest distance.
proof fn lemma_a_gap_exists(ts: Seq<u64>, p: int, q: int)
    requires
        0 <= p < ts.len(),
        0 <= q < ts.len(),
        ts[p] < ts[q],
    ensures
        exists|step: u64| is_smallest_gap(ts, step),
    decreases ts[q] - ts[p],
{
    let step = (ts[q] - ts[p]) as u64;
    if forall|i: int, j: int|
        0 <= i < ts.len() && 0 <= j < ts.len() && #[trigger] ts[i] < #[trigger] ts[j] ==> ts[i]
            + step <= ts[j] {
        assert(ts[p] + step == ts[q]);
        assert(is_smallest_gap(ts, step));
    } else {
        let (i, j) = choose|i: int, j: int|
            0 <= i < ts.len() && 0 <= j < ts.len() && #[trigger] ts[i] < #[trigger] ts[j] && !(
            ts[i] + step <= ts[j]);
        lemma_a_gap_exists(ts, i, j);
    }
}

/// A session starts with the earliest of the first frames of its channels: none of them is before
/// it, and it is the time of one of them. There is no start only where there is no frame.
pub proof fn law_start_is_the_earliest(store: SessionStore, channel: Channel)
    ensures
        store.frames(channel).len() > 0 ==> (store.start() matches Some(start) && start
            <= store.frames(channel)[0].timestamp_ms),
        store.start() matches Some(start) ==> exists|c: Channel|
            (#[trigger] store.frames(c)).len() > 0 && store.frames(c)[0].timestamp_ms == start,
{
    let a = store.frames(Channel::CpuClock);
    let b = store.frames(Channel::CpuUsage);
    let c = store.frames(Channel::Fps);
    let d = store.frames(Channel::BatteryTemperature);
    let e = store.frames(Channel::BatteryVoltage);
    let f = store.frames(Channel::BatteryCurrent);
    let g = store.frames(Channel::BatteryPower);
    if let Some(start) = store.start() {
        assert((a.len() > 0 && a[0].timestamp_ms == start) || (b.len() > 0 && b[0].timestamp_ms
            == start) || (c.len() > 0 && c[0].timestamp_ms == start) || (d.len() > 0
            && d[0].timestamp_ms == start) || (e.len() > 0 && e[0].timestamp_ms == start) || (
        f.len() > 0 && f[0].timestamp_ms == start) || (g.len() > 0 && g[0].timestamp_ms == start));
    }
}

/// The latest values are those of the frame that came last, each where it is valid.
pub proof fn law_latest_values(frames: Seq<TimestampedBatch>, last: TimestampedBatch, i: int)
    ensures
        latest_of(frames.push(last)).len() == last.batch.values@.len(),
        0 <= i < last.batch.values@.len() && last.batch.values@[i] == INVALID_METRIC_VALUE
            ==> latest_of(frames.push(last))[i] is None,
        0 <= i < last.batch.values@.len() && last.batch.values@[i] != INVALID_METRIC_VALUE
            ==> latest_of(frames.push(last))[i] == Some(last.batch.values@[i]),
        last.batch.values@.len() > 0 ==> latest_scalar_of(frames.push(last)) == latest_of(
            frames.push(last),
        )[0],
        last.batch.values@.len() == 0 ==> latest_scalar_of(frames.push(last)) is None,
        latest_of(Seq::empty()).len() == 0,
        latest_scalar_of(Seq::empty()) is None,
{
}

/// A frame that a session takes up is the last of the channel that its key names: its reading is
/// kept, and its time is that on the shortened timeline. The other channels stay as they are.
pub proof fn law_pushed_frames_are_last(
    before: SessionStore,
    after: SessionStore,
    frame: TimestampedBatch,
    channel: Channel,
    other: Channel,
)
    requires
        has_pushed(before, after, frame),
        frame.batch.metric_key@ == channel.title()@,
        other != channel,
    ensures
        after.frames(channel).len() == before.frames(channel).len() + 1,
        after.frames(channel).drop_last() == before.frames(channel),
        after.frames(channel).last().batch == frame.batch,
        frame.timestamp_ms >= before.compaction() ==> after.frames(channel).last().timestamp_ms
            + before.compaction() == frame.timestamp_ms,
        after.frames(other) == before.frames(other),
        after.compaction() == before.compaction(),
{
    law_channels_are_named_by_their_keys(channel);
    assert(after.frames(channel).drop_last() =~= before.frames(channel));
}

impl Default for SessionStore {
    fn default() -> (r: Self)
        ensures
            forall|c: Channel| #[trigger] r.frames(c) == Seq::<TimestampedBatch>::empty(),
            r.compaction() == 0,
    {
        SessionStore {
            cpu_clock: Vec::new(),
            cpu_usage: Vec::new(),
            fps: Vec::new(),
            battery_temperature: Vec::new(),
            battery_voltage: Vec::new(),
            battery_current: Vec::new(),
            battery_power: Vec::new(),
            timeline_compaction_ms: 0,
        }
    }
}

/// A copy of frames.
fn clone_frames(frames: &Vec<TimestampedBatch>) -> (r: Vec<TimestampedBatch>)
    ensures
        text::views(r@) == text::views(frames@),
{
    let mut out: Vec<TimestampedBatch> = Vec::new();
    let mut i: usize = 0;
    while i < frames.len()
        invariant
            i <= frames@.len(),
            out@.len() == i,
            forall|j: int| 0 <= j < i ==> (#[trigger] out@[j])@ == frames@[j]@,
        decreases frames@.len() - i,
    {
        out.push(frames[i].clone());
        i = i + 1;
    }
    assert(text::views(out@) =~= text::views(frames@));
    out
}

impl Clone for SessionStore {
    fn clone(&self) -> (r: Self)
        ensures
            forall|c: Channel|
                text::views(#[trigger] r.frames(c)) == text::views(self.frames(c)),
            r.compaction() == self.compaction(),
    {
        SessionStore {
            cpu_clock: clone_frames(&self.cpu_clock),
            cpu_usage: clone_frames(&self.cpu_usage),
            fps: clone_frames(&self.fps),
            battery_temperature: clone_frames(&self.battery_temperature),
            battery_voltage: clone_frames(&self.battery_voltage),
            battery_current: clone_frames(&self.battery_current),
            battery_power: clone_frames(&self.battery_power),
            timeline_compaction_ms: self.timeline_compaction_ms,
        }
    }
}

/// The channels, in the order in which their profilers are started.
pub fn all_channels() -> (r: Vec<Channel>)
    ensures
        r@ == channels(),
{
    let r: Vec<Channel> = vec![
        Channel::CpuClock,
        Channel::CpuUsage,
        Channel::Fps,
        Channel::BatteryTemperature,
        Channel::BatteryVoltage,
        Channel::BatteryCurrent,
        Channel::BatteryPower,
    ];
    assert(r@ =~= channels());
    r
}

/// The channel that a metric key names.
pub fn find_channel(metric_key: &str) -> (r: Option<Channel>)
    ensures
        r == channel_of(metric_key@),
{
    if same_str(metric_key, "CPU_CLOCK") {
        Some(Channel::CpuClock)
    } else if same_str(metric_key, "CPU_USAGE") {
        Some(Channel::CpuUsage)
    } else if same_str(metric_key, "FPS") {
        Some(Channel::Fps)
    } else if same_str(metric_key, "BATTERY_TEMP") {
        Some(Channel::BatteryTemperature)
    } else if same_str(metric_key, "VOLTAGE") {
        Some(Channel::BatteryVoltage)
    } else if same_str(metric_key, "CURRENT") {
        Some(Channel::BatteryCurrent)
    } else if same_str(metric_key, "POWER") {
        Some(Channel::BatteryPower)
    } else {
        None
    }
}

/// The last of the frames.
fn last_of(frames: &Vec<TimestampedBatch>) -> (r: Option<&TimestampedBatch>)
    ensures
        is_last(r, frames@),
{
    if frames.len() > 0 {
        Some(&frames[frames.len() - 1])
    } else {
        None
    }
}

/// A value, if it is valid.
fn checked_value(value: i64) -> (r: Option<i64>)
    ensures
        r == valid(value),
{
    if value != INVALID_METRIC_VALUE {
        Some(value)
    } else {
        None
    }
}

/// The values of the latest frame, each if it is valid.
fn latest_values_of(frames: &Vec<TimestampedBatch>) -> (r: Vec<Option<i64>>)
    ensures
        r@ == latest_of(frames@),
{
    let mut out: Vec<Option<i64>> = Vec::new();
    if frames.len() == 0 {
        assert(out@ =~= latest_of(frames@));
        return out;
    }
    let values = &frames[frames.len() - 1].batch.values;
    let mut i: usize = 0;
    while i < values.len()
        invariant
            i <= values@.len(),
            frames@.len() > 0,
            values@ == frames@.last().batch.values@,
            out@ == latest_of(frames@).take(i as int),
        decreases values@.len() - i,
    {
        out.push(checked_value(values[i]));
        assert(out@ =~= latest_of(frames@).take(i + 1));
        i = i + 1;
    }
    assert(latest_of(frames@).take(i as int) =~= latest_of(frames@));
    out
}

/// Adds the times of frames to a list.
fn extend_times(out: &mut Vec<u64>, frames: &Vec<TimestampedBatch>)
    ensures
        final(out)@ == old(out)@ + times(frames@),
{
    let mut i: usize = 0;
    assert(out@ =~= old(out)@ + times(frames@).take(0));
    while i < frames.len()
        invariant
            i <= frames@.len(),
            out@ == old(out)@ + times(frames@).take(i as int),
        decreases frames@.len() - i,
    {
        out.push(frames[i].timestamp_ms);
        assert(out@ =~= old(out)@ + times(frames@).take(i + 1));
        i = i + 1;
    }
    assert(times(frames@).take(i as int) =~= times(frames@));
}

/// The smaller of a time and the first of the frames.
fn earliest(t: Option<u64>, frames: &Vec<TimestampedBatch>) -> (r: Option<u64>)
    ensures
        r == earlier(t, frames@),
{
    if frames.len() == 0 {
        return t;
    }
    let first: u64 = frames[0].timestamp_ms;
    match t {
        Some(t) => if t <= first {
            Some(t)
        } else {
            Some(first)
        },
        None => Some(first),
    }
}

/// The smallest distance between two different times, if there are two.
fn find_smallest_gap(ts: &Vec<u64>) -> (r: Option<u64>)
    ensures
        r == smallest_gap(ts@),
{
    let order = sort::order_by_key(ts.as_slice());
    let mut gap: Option<u64> = None;
    let mut k: usize = 1;
    while k < order.len()
        invariant
            1 <= k,
            sort::is_stable_order(ts@, order@),
            order@.len() > 0 ==> k <= order@.len(),
            match gap {
                Some(step) => {
                    &&& step > 0
                    &&& exists|i: int, j: int|
                        0 <= i < ts@.len() && 0 <= j < ts@.len() && #[trigger] ts@[i] + step
                            == #[trigger] ts@[j]
                    &&& forall|a: int, b: int|
                        0 <= a < b < k && b < order@.len() && ts@[#[trigger] order@[a] as int]
                            < ts@[#[trigger] order@[b] as int] ==> ts@[order@[a] as int] + step
                            <= ts@[order@[b] as int]
                },
                None => forall|a: int, b: int|
                    0 <= a < b < k && b < order@.len() ==> ts@[#[trigger] order@[a] as int]
                        == ts@[#[trigger] order@[b] as int],
            },
        decreases order@.len() - k,
    {
        assert(order@[k - 1] < ts@.len() && order@[k as int] < ts@.len());
        assert(sort::comes_before(ts@, order@[k - 1] as int, order@[k as int] as int));
        let low: u64 = ts[order[k - 1]];
        let high: u64 = ts[order[k]];
        let delta: u64 = high - low;
        let ghost before = gap;
        if delta > 0 {
            assert(ts@[order@[k - 1] as int] + delta == ts@[order@[k as int] as int]);
            gap = match gap {
                Some(step) => if step <= delta {
                    Some(step)
                } else {
                    Some(delta)
                },
                None => Some(delta),
            };
        }
        proof {
            assert forall|a: int| 0 <= a < k implies ts@[#[trigger] order@[a] as int] <= low by {
                if a < k - 1 {
                    assert(sort::comes_before(ts@, order@[a] as int, order@[k - 1] as int));
                }
            }
            if gap is Some {
                let step = gap->0;
                assert forall|a: int, b: int|
                    0 <= a < b < k + 1 && b < order@.len() && ts@[#[trigger] order@[a] as int]
                        < ts@[#[trigger] order@[b] as int] implies ts@[order@[a] as int] + step
                    <= ts@[order@[b] as int] by {
                    if b == k {
                        if delta == 0 {
                            assert(a < k - 1);
                            assert(ts@[order@[a] as int] < ts@[order@[k - 1] as int]);
                        }
                    } else if before is None {
                        assert(ts@[order@[a] as int] == ts@[order@[b] as int]);
                    }
                }
            } else {
                assert forall|a: int, b: int| 0 <= a < b < k + 1 && b < order@.len() implies ts@[#[trigger] order@[a] as int]
                    == ts@[#[trigger] order@[b] as int] by {
                    if b == k && a < k - 1 {
                        assert(ts@[order@[a] as int] == ts@[order@[k - 1] as int]);
                    }
                }
            }
        }
        k = k + 1;
    }
    proof {
        assert forall|i: int, j: int|
            0 <= i < ts@.len() && 0 <= j < ts@.len() && #[trigger] ts@[i] < #[trigger] ts@[j] implies gap is Some
            && ts@[i] + gap->0 <= ts@[j] by {
            sort::lemma_lists_every_place(ts@, order@, i);
            sort::lemma_lists_every_place(ts@, order@, j);
            let a = choose|a: int| 0 <= a < order@.len() && order@[a] == i;
            let b = choose|b: int| 0 <= b < order@.len() && order@[b] == j;
            if a > b {
                assert(sort::comes_before(ts@, order@[b] as int, order@[a] as int));
            }
            assert(a < b < k);
        }
        match gap {
            Some(step) => {
                assert(is_smallest_gap(ts@, step));
                lemma_smallest_gap_is(ts@, step);
            },
            None => {
                assert forall|step: u64| !is_smallest_gap(ts@, step) by {
                    if is_smallest_gap(ts@, step) {
                        let (i, j) = choose|i: int, j: int|
                            0 <= i < ts@.len() && 0 <= j < ts@.len() && #[trigger] ts@[i] + step
                                == #[trigger] ts@[j];
                        assert(ts@[i] < ts@[j]);
                    }
                }
            },
        }
    }
    gap
}

/// Cuts a range out of the frames of a channel.
fn delete_and_compact_frames(
    frames: &mut Vec<TimestampedBatch>,
    start_ms: u64,
    end_ms: u64,
    shift_ms: u64,
)
    ensures
        final(frames)@ == cut_frames(old(frames)@, start_ms, end_ms, shift_ms),
{
    let mut before: Vec<TimestampedBatch> = Vec::new();
    std::mem::swap(frames, &mut before);
    let ghost all = before@;
    proof {
        law_cut_frames_one_by_one(all, arbitrary(), start_ms, end_ms, shift_ms);
        assert(all.take(0) =~= Seq::empty());
    }
    for frame in it: before
        invariant
            it.seq() == all,
            frames@ == cut_frames(all.take(it.index()), start_ms, end_ms, shift_ms),
    {
        let mut frame = frame;
        proof {
            let i = it.index();
            law_cut_frames_one_by_one(all.take(i), frame, start_ms, end_ms, shift_ms);
            assert(all.take(i + 1) =~= all.take(i).push(frame));
        }
        if frame.timestamp_ms < start_ms || frame.timestamp_ms > end_ms {
            if frame.timestamp_ms > end_ms {
                frame.timestamp_ms = frame.timestamp_ms.saturating_sub(shift_ms);
            }
            frames.push(frame);
        }
    }
    assert(all.take(all.len() as int) =~= all);
}

impl SessionStore {
    /// Appends a frame to the channel that its key names, at its place on the shortened
    /// timeline. A frame with another key is dropped.
    pub fn push(&mut self, frame: TimestampedBatch)
        ensures
            has_pushed(*old(self), *final(self), frame),
    {
        let mut frame = frame;
        frame.timestamp_ms = frame.timestamp_ms.saturating_sub(self.timeline_compaction_ms);
        match find_channel(frame.batch.metric_key.as_str()) {
            Some(Channel::CpuClock) => self.cpu_clock.push(frame),
            Some(Channel::CpuUsage) => self.cpu_usage.push(frame),
            Some(Channel::Fps) => self.fps.push(frame),
            Some(Channel::BatteryTemperature) => self.battery_temperature.push(frame),
            Some(Channel::BatteryVoltage) => self.battery_voltage.push(frame),
            Some(Channel::BatteryCurrent) => self.battery_current.push(frame),
            Some(Channel::BatteryPower) => self.battery_power.push(frame),
            None => {},
        }
    }

    /// The frames of a channel.
    pub fn frames_of(&self, channel: Channel) -> (r: &[TimestampedBatch])
        ensures
            r@ == self.frames(channel),
    {
        match channel {
            Channel::CpuClock => self.cpu_clock_frames(),
            Channel::CpuUsage => self.cpu_usage_frames(),
            Channel::Fps => self.fps_frames(),
            Channel::BatteryTemperature => self.battery_temperature_frames(),
            Channel::BatteryVoltage => self.battery_voltage_frames(),
            Channel::BatteryCurrent => self.battery_current_frames(),
            Channel::BatteryPower => self.battery_power_frames(),
        }
    }

    /// The CPU clock frames.
    pub fn cpu_clock_frames(&self) -> (r: &[TimestampedBatch])
        ensures
            r@ == self.frames(Channel::CpuClock),
    {
        self.cpu_clock.as_slice()
    }

    /// The latest CPU clock frame.
    pub fn latest_cpu_clock(&self) -> (r: Option<&TimestampedBatch>)
        ensures
            is_last(r, self.frames(Channel::CpuClock)),
    {
        last_of(&self.cpu_clock)
    }

    /// The CPU usage frames.
    pub fn cpu_usage_frames(&self) -> (r: &[TimestampedBatch])
        ensures
            r@ == self.frames(Channel::CpuUsage),
    {
        self.cpu_usage.as_slice()
    }

    /// The latest CPU usage frame.
    pub fn latest_cpu_usage(&self) -> (r: Option<&TimestampedBatch>)
        ensures
            is_last(r, self.frames(Channel::CpuUsage)),
    {
        last_of(&self.cpu_usage)
    }

    /// The FPS frames.
    pub fn fps_frames(&self) -> (r: &[TimestampedBatch])
        ensures
            r@ == self.frames(Channel::Fps),
    {
        self.fps.as_slice()
    }

    /// The latest FPS frame.
    pub fn latest_fps(&self) -> (r: Option<&TimestampedBatch>)
        ensures
            is_last(r, self.frames(Channel::Fps)),
    {
        last_of(&self.fps)
    }

    /// The battery temperature frames.
    pub fn battery_temperature_frames(&self) -> (r: &[TimestampedBatch])
        ensures
            r@ == self.frames(Channel::BatteryTemperature),
    {
        self.battery_temperature.as_slice()
    }

    /// The latest battery temperature frame.
    pub fn latest_battery_temperature(&self) -> (r: Option<&TimestampedBatch>)
        ensures
            is_last(r, self.frames(Channel::BatteryTemperature)),
    {
        last_of(&self.battery_temperature)
    }

    /// The battery voltage frames.
    pub fn battery_voltage_frames(&self) -> (r: &[TimestampedBatch])
        ensures
            r@ == self.frames(Channel::BatteryVoltage),
    {
        self.battery_voltage.as_slice()
    }

    /// The latest battery voltage frame.
    pub fn latest_battery_voltage(&self) -> (r: Option<&TimestampedBatch>)
        ensures
            is_last(r, self.frames(Channel::BatteryVoltage)),
    {
        last_of(&self.battery_voltage)
    }

    /// The battery current frames.
    pub fn battery_current_frames(&self) -> (r: &[TimestampedBatch])
        ensures
            r@ == self.frames(Channel::BatteryCurrent),
    {
        self.battery_current.as_slice()
    }

    /// The latest battery current frame.
    pub fn latest_battery_current(&self) -> (r: Option<&TimestampedBatch>)
        ensures
            is_last(r, self.frames(Channel::BatteryCurrent)),
    {
        last_of(&self.battery_current)
    }

    /// The battery power frames.
    pub fn battery_power_frames(&self) -> (r: &[TimestampedBatch])
        ensures
            r@ == self.frames(Channel::BatteryPower),
    {
        self.battery_power.as_slice()
    }

    /// The latest battery power frame.
    pub fn latest_battery_power(&self) -> (r: Option<&TimestampedBatch>)
        ensures
            is_last(r, self.frames(Channel::BatteryPower)),
    {
        last_of(&self.battery_power)
    }

    /// The earliest of the first frames of the channels.
    pub fn global_start_timestamp_ms(&self) -> (r: Option<u64>)
        ensures
            r == self.start(),
    {
        let t = earliest(None, &self.cpu_clock);
        let t = earliest(t, &self.cpu_usage);
        let t = earliest(t, &self.fps);
        let t = earliest(t, &self.battery_temperature);
        let t = earliest(t, &self.battery_voltage);
        let t = earliest(t, &self.battery_current);
        earliest(t, &self.battery_power)
    }

    /// The smallest distance between two different times of frames, if there are two.
    fn estimate_sampling_step_ms(&self) -> (r: Option<u64>)
        ensures
            r == smallest_gap(self.all_times()),
    {
        let mut timestamps: Vec<u64> = Vec::new();
        extend_times(&mut timestamps, &self.cpu_clock);
        assert(timestamps@ =~= times(self.cpu_clock@));
        extend_times(&mut timestamps, &self.cpu_usage);
        extend_times(&mut timestamps, &self.fps);
        extend_times(&mut timestamps, &self.battery_temperature);
        extend_times(&mut timestamps, &self.battery_voltage);
        extend_times(&mut timestamps, &self.battery_current);
        extend_times(&mut timestamps, &self.battery_power);
        find_smallest_gap(&timestamps)
    }

    /// Cuts the range from `start_ms` to `end_ms`, both ends within it, out of all channels and
    /// out of the timeline.
    pub fn delete_range(&mut self, start_ms: u64, end_ms: u64)
        ensures
            forall|c: Channel| #[trigger]
                final(self).frames(c) == cut_frames(
                    old(self).frames(c),
                    start_ms,
                    end_ms,
                    old(self).shift_for(start_ms, end_ms),
                ),
            final(self).compaction() == plus(
                old(self).compaction(),
                old(self).shift_for(start_ms, end_ms),
            ),
    {
        let shift_ms: u64 = if start_ms == end_ms {
            match self.estimate_sampling_step_ms() {
                Some(step) => step,
                None => 0,
            }
        } else {
            end_ms.saturating_sub(start_ms)
        };
        delete_and_compact_frames(&mut self.cpu_clock, start_ms, end_ms, shift_ms);
        delete_and_compact_frames(&mut self.cpu_usage, start_ms, end_ms, shift_ms);
        delete_and_compact_frames(&mut self.fps, start_ms, end_ms, shift_ms);
        delete_and_compact_frames(&mut self.battery_temperature, start_ms, end_ms, shift_ms);
        delete_and_compact_frames(&mut self.battery_voltage, start_ms, end_ms, shift_ms);
        delete_and_compact_frames(&mut self.battery_current, start_ms, end_ms, shift_ms);
        delete_and_compact_frames(&mut self.battery_power, start_ms, end_ms, shift_ms);
        self.timeline_compaction_ms = self.timeline_compaction_ms.saturating_add(shift_ms);
    }

    /// The values of the latest CPU clock frame, each if it is valid.
    pub fn latest_values(&self) -> (r: Vec<Option<i64>>)
        ensures
            r@ == latest_of(self.frames(Channel::CpuClock)),
    {
        latest_values_of(&self.cpu_clock)
    }

    /// The latest FPS value, if it is valid.
    pub fn latest_fps_value(&self) -> (r: Option<i64>)
        ensures
            r == latest_scalar_of(self.frames(Channel::Fps)),
    {
        latest_scalar_value(self.latest_fps(), Ghost(self.fps@))
    }

    /// The values of the latest CPU usage frame, each if it is valid.
    pub fn latest_cpu_usage_values(&self) -> (r: Vec<Option<i64>>)
        ensures
            r@ == latest_of(self.frames(Channel::CpuUsage)),
    {
        latest_values_of(&self.cpu_usage)
    }

    /// The latest battery temperature, if it is valid.
    pub fn latest_battery_temperature_value(&self) -> (r: Option<i64>)
        ensures
            r == latest_scalar_of(self.frames(Channel::BatteryTemperature)),
    {
        latest_scalar_value(self.latest_battery_temperature(), Ghost(self.battery_temperature@))
    }

    /// The latest battery voltage, if it is valid.
    pub fn latest_battery_voltage_value(&self) -> (r: Option<i64>)
        ensures
            r == latest_scalar_of(self.frames(Channel::BatteryVoltage)),
    {
        latest_scalar_value(self.latest_battery_voltage(), Ghost(self.battery_voltage@))
    }

    /// The latest battery current, if it is valid.
    pub fn latest_battery_current_value(&self) -> (r: Option<i64>)
        ensures
            r == latest_scalar_of(self.frames(Channel::BatteryCurrent)),
    {
        latest_scalar_value(self.latest_battery_current(), Ghost(self.battery_current@))
    }

    /// The latest battery power, if it is valid.
    pub fn latest_battery_power_value(&self) -> (r: Option<i64>)
        ensures
            r == latest_scalar_of(self.frames(Channel::BatteryPower)),
    {
        latest_scalar_value(self.latest_battery_power(), Ghost(self.battery_power@))
    }
}

/// The first value of a frame, if there is a frame, it has a value and the value is valid.
fn latest_scalar_value(
    frame: Option<&TimestampedBatch>,
    Ghost(frames): Ghost<Seq<TimestampedBatch>>,
) -> (r: Option<i64>)
    requires
        is_last(frame, frames),
    ensures
        r == latest_scalar_of(frames),
{
    match frame {
        Some(frame) => if frame.batch.values.len() > 0 {
            checked_value(frame.batch.values[0])
        } else {
            None
        },
        None => None,
    }
}

} // verus!
