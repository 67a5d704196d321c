//! What the window tells of a selection.

use vstd::prelude::*;

use crate::export::panel;
use crate::export::panel::PLOT_VALUES;
use crate::gui::charts;
use crate::gui::charts::{describe_point, describe_range, RangeStats};
use crate::gui::selection::SelectionRange;
use crate::gui::Dashboard;
use crate::storage;
use crate::storage::{all_channels, Channel, SessionStore, TimestampedBatch};
use crate::text;

verus! {

impl Channel {
    /// What the values of a channel are divided by when they are shown.
    pub fn divisor(self) -> (r: u64)
        ensures
            r == if self is BatteryTemperature {
                10u64
            } else {
                1
            },
    {
        match self {
            Channel::BatteryTemperature => 10,
            _ => 1,
        }
    }
}

/// The sentence about a selection whose ends are written out.
pub open spec fn summary_text(
    selection: Option<SelectionRange>,
    start: Seq<char>,
    end: Seq<char>,
) -> Seq<char> {
    if selection is Some {
        "Selected range: ["@ + start + "s, "@ + end
            + "s] (inclusive). Long-press left mouse to select range, then delete in Paused state."@
    } else {
        "No selection. Left click selects nearest point. Left long-press drag selects a range. Deletion is only allowed in Paused state."@
    }
}

/// The lines about the first channels at a moment.
pub open spec fn point_lines(
    session: SessionStore,
    ts: u64,
    texts: Seq<Vec<String>>,
    n: nat,
) -> Seq<Seq<char>> {
    Seq::new(
        n,
        |i: int|
            charts::point_line(
                storage::channels()[i].title()@,
                charts::values_near(session.frames(storage::channels()[i]), ts),
                text::views(texts[i]@),
            ),
    )
}

/// The lines about the first channels in a range.
pub open spec fn span_lines(
    session: SessionStore,
    start_ms: u64,
    end_ms: u64,
    stats: Seq<Vec<RangeStats>>,
    n: nat,
) -> Seq<Seq<char>>
    decreases n,
{
    if n == 0 {
        Seq::empty()
    } else {
        let channel = storage::channels()[n - 1];
        span_lines(session, start_ms, end_ms, stats, (n - 1) as nat) + charts::range_text(
            channel.title()@,
            session.frames(channel),
            start_ms,
            end_ms,
            stats[n - 1]@,
        )
    }
}

/// Whether there is a text for each value that is shown at a moment, channel by channel.
pub open spec fn texts_fit(session: SessionStore, ts: u64, texts: Seq<Vec<String>>) -> bool {
    &&& texts.len() == storage::channels().len()
    &&& forall|i: int|
        0 <= i < texts.len() ==> (#[trigger] texts[i])@.len() == charts::values_near(
            session.frames(storage::channels()[i]),
            ts,
        ).len()
}

/// Whether there is something to show for each place, channel by channel.
pub open spec fn stats_fit(stats: Seq<Vec<RangeStats>>) -> bool {
    &&& stats.len() == storage::channels().len()
    &&& forall|i: int| 0 <= i < stats.len() ==> (#[trigger] stats[i])@.len() == PLOT_VALUES
}

/// The lines about a selection: a heading, and what each channel shows there.
pub open spec fn detail_lines(
    session: SessionStore,
    selection: Option<SelectionRange>,
    start: Seq<char>,
    end: Seq<char>,
    texts: Seq<Vec<String>>,
    stats: Seq<Vec<RangeStats>>,
) -> Seq<Seq<char>> {
    let n = storage::channels().len();
    match selection {
        Some(SelectionRange::Point(ts)) => seq!["Point @ "@ + start + "s"@] + point_lines(
            session,
            ts,
            texts,
            n,
        ),
        Some(SelectionRange::Span { start_ms, end_ms }) => seq![
            "Range ["@ + start + "s, "@ + end + "s] avg/min/max"@,
        ] + span_lines(session, start_ms, end_ms, stats, n),
        None => seq!["Selection details will appear here."@],
    }
}

/// A line of the chart of voltage, current and power, where its channel has frames: the place of
/// its values, its label and its colour.
pub open spec fn battery_line(
    frames: Seq<TimestampedBatch>,
    place: usize,
    label: &'static str,
    color: u32,
) -> Seq<(usize, &'static str, u32)> {
    if frames.len() == 0 {
        Seq::empty()
    } else {
        seq![(place, label, color)]
    }
}

/// The lines of the chart of voltage, current and power.
pub open spec fn battery_line_list(session: SessionStore) -> Seq<(usize, &'static str, u32)> {
    battery_line(session.frames(Channel::BatteryVoltage), 0, "voltage (mV)", 0x2563EB)
        + battery_line(session.frames(Channel::BatteryCurrent), 1, "current (mA)", 0x10B981)
        + battery_line(session.frames(Channel::BatteryPower), 2, "power (mW)", 0xDB2777)
}

impl Dashboard {
    /// The lines of the chart of voltage, current and power: the places of their values, their
    /// labels and their colours.
    pub fn battery_lines(&self) -> (r: Vec<(usize, &'static str, u32)>)
        ensures
            r@ == battery_line_list(self.session),
    {
        let mut lines: Vec<(usize, &'static str, u32)> = Vec::new();
        if self.session.battery_voltage_frames().len() > 0 {
            lines.push((0, "voltage (mV)", 0x2563EB));
        }
        if self.session.battery_current_frames().len() > 0 {
            lines.push((1, "current (mA)", 0x10B981));
        }
        if self.session.battery_power_frames().len() > 0 {
            lines.push((2, "power (mW)", 0xDB2777));
        }
        assert(lines@ =~= battery_line_list(self.session));
        lines
    }

    /// The sentence about the selection. The two texts are its ends in seconds.
    pub fn selection_summary(&self, start_text: &str, end_text: &str) -> (r: String)
        ensures
            r@ == summary_text(self@.selection, start_text@, end_text@),
    {
        if self.selection.is_none() {
            return String::from_str(
                "No selection. Left click selects nearest point. Left long-press drag selects a range. Deletion is only allowed in Paused state.",
            );
        }
        let mut out = String::from_str("Selected range: [");
        out.append(start_text);
        out.append("s, ");
        out.append(end_text);
        out.append(
            "s] (inclusive). Long-press left mouse to select range, then delete in Paused state.",
        );
        out
    }

    fn push_point_lines(&self, ts: u64, texts: &Vec<Vec<String>>, lines: &mut Vec<String>)
        requires
            texts_fit(self.session, ts, texts@),
        ensures
            text::views(final(lines)@) == text::views(old(lines)@) + point_lines(
                self.session,
                ts,
                texts@,
                storage::channels().len(),
            ),
    {
        broadcast use text::lemma_views_push;

        let channels = all_channels();
        let ghost heading = text::views(lines@);
        let mut i: usize = 0;
        assert(heading =~= heading + point_lines(self.session, ts, texts@, 0));
        while i < channels.len()
            invariant
                i <= channels@.len(),
                channels@ == storage::channels(),
                texts_fit(self.session, ts, texts@),
                text::views(lines@) == heading + point_lines(self.session, ts, texts@, i as nat),
            decreases channels@.len() - i,
        {
            let frames = self.session.frames_of(channels[i]);
            assert(texts@[i as int]@.len() == charts::values_near(frames@, ts).len());
            let line = describe_point(channels[i].as_str(), frames, ts, &texts[i]);
            let ghost before = lines@;
            lines.push(line);
            assert(text::views(lines@) == text::views(before).push(line@));
            assert(text::views(lines@) =~= heading + point_lines(
                self.session,
                ts,
                texts@,
                (i + 1) as nat,
            ));
            i = i + 1;
        }
    }

    fn push_span_lines(
        &self,
        start_ms: u64,
        end_ms: u64,
        stats: &Vec<Vec<RangeStats>>,
        lines: &mut Vec<String>,
    )
        requires
            stats_fit(stats@),
        ensures
            text::views(final(lines)@) == text::views(old(lines)@) + span_lines(
                self.session,
                start_ms,
                end_ms,
                stats@,
                storage::channels().len(),
            ),
    {
        let channels = all_channels();
        let ghost heading = text::views(lines@);
        let mut i: usize = 0;
        assert(heading =~= heading + span_lines(self.session, start_ms, end_ms, stats@, 0));
        while i < channels.len()
            invariant
                i <= channels@.len(),
                channels@ == storage::channels(),
                stats_fit(stats@),
                text::views(lines@) == heading + span_lines(
                    self.session,
                    start_ms,
                    end_ms,
                    stats@,
                    i as nat,
                ),
            decreases channels@.len() - i,
        {
            let frames = self.session.frames_of(channels[i]);
            assert(stats@[i as int]@.len() == PLOT_VALUES);
            let mut more = describe_range(
                channels[i].as_str(),
                frames,
                start_ms,
                end_ms,
                &stats[i],
            );
            let ghost before = lines@;
            let ghost added = more@;
            lines.append(&mut more);
            assert(lines@ =~= before + added);
            assert(text::views(lines@) =~= text::views(before) + text::views(added));
            assert(text::views(lines@) =~= heading + span_lines(
                self.session,
                start_ms,
                end_ms,
                stats@,
                (i + 1) as nat,
            ));
            i = i + 1;
        }
    }

    /// The lines about what is selected. The first two texts are the ends of the selection in
    /// seconds; the others stand for the values at a moment and for the values in a range, channel
    /// by channel.
    pub fn selection_details(
        &self,
        start_text: &str,
        end_text: &str,
        texts: &Vec<Vec<String>>,
        stats: &Vec<Vec<RangeStats>>,
    ) -> (r: Vec<String>)
        requires
            match self@.selection {
                Some(SelectionRange::Point(ts)) => texts_fit(self.session, ts, texts@),
                Some(SelectionRange::Span { .. }) => stats_fit(stats@),
                None => true,
            },
        ensures
            text::views(r@) == detail_lines(
                self.session,
                self@.selection,
                start_text@,
                end_text@,
                texts@,
                stats@,
            ),
    {
        let mut lines: Vec<String> = Vec::new();
        match self.selection {
            Some(SelectionRange::Point(ts)) => {
                let mut heading = String::from_str("Point @ ");
                heading.append(start_text);
                heading.append("s");
                lines.push(heading);
                assert(text::views(lines@) =~= seq!["Point @ "@ + start_text@ + "s"@]);
                self.push_point_lines(ts, texts, &mut lines);
            },
            Some(SelectionRange::Span { start_ms, end_ms }) => {
                let mut heading = String::from_str("Range [");
                heading.append(start_text);
                heading.append("s, ");
                heading.append(end_text);
                heading.append("s] avg/min/max");
                lines.push(heading);
                assert(text::views(lines@) =~= seq![
                    "Range ["@ + start_text@ + "s, "@ + end_text@ + "s] avg/min/max"@,
                ]);
                self.push_span_lines(start_ms, end_ms, stats, &mut lines);
            },
            None => {
                lines.push(String::from_str("Selection details will appear here."));
                assert(text::views(lines@) =~= seq!["Selection details will appear here."@]);
            },
        }
        lines
    }
}

/// The lines about a moment are one for each channel, in order: each begins with the channel's
/// name and tells the channel's values there.
pub proof fn law_moment_lines(
    session: SessionStore,
    ts: u64,
    start: Seq<char>,
    end: Seq<char>,
    texts: Seq<Vec<String>>,
    stats: Seq<Vec<RangeStats>>,
    i: int,
)
    requires
        0 <= i < storage::channels().len(),
    ensures
        ({
            let lines = detail_lines(
                session,
                Some(SelectionRange::Point(ts)),
                start,
                end,
                texts,
                stats,
            );
            let channel = storage::channels()[i];
            &&& lines.len() == 8
            &&& text::contains(lines[0], start)
            &&& lines[i + 1] == charts::point_line(
                channel.title()@,
                charts::values_near(session.frames(channel), ts),
                text::views(texts[i]@),
            )
        }),
{
    let line = "Point @ "@ + start + "s"@;
    let at = "Point @ "@.len() as int;
    assert(line.subrange(at, at + start.len()) =~= start);
    assert(text::occurs_at(line, start, at));
}

/// The lines about a range are those of the channels, one channel after the other.
pub proof fn law_range_lines(
    session: SessionStore,
    start_ms: u64,
    end_ms: u64,
    stats: Seq<Vec<RangeStats>>,
    n: nat,
)
    requires
        n < storage::channels().len(),
    ensures
        span_lines(session, start_ms, end_ms, stats, n + 1) == span_lines(
            session,
            start_ms,
            end_ms,
            stats,
            n,
        ) + charts::range_text(
            storage::channels()[n as int].title()@,
            session.frames(storage::channels()[n as int]),
            start_ms,
            end_ms,
            stats[n as int]@,
        ),
        span_lines(session, start_ms, end_ms, stats, 0).len() == 0,
{
}

/// A battery metric has a line exactly where its channel has frames, and the line is named for it.
pub proof fn law_battery_lines_follow_the_channels(session: SessionStore, channel: Channel)
    requires
        channel is BatteryVoltage || channel is BatteryCurrent || channel is BatteryPower,
    ensures
        session.frames(channel).len() > 0 <==> exists|k: int|
            0 <= k < battery_line_list(session).len() && panel::is_named_for(
                (#[trigger] battery_line_list(session)[k]).1@,
                channel,
            ),
{
    panel::lemma_battery_names();
    let lines = battery_line_list(session);
    let v = session.frames(Channel::BatteryVoltage).len() > 0;
    let c = session.frames(Channel::BatteryCurrent).len() > 0;
    let nv: int = if v {
        1
    } else {
        0
    };
    let nc: int = if c {
        1
    } else {
        0
    };
    assert(panel::is_named_for("voltage (mV)"@, channel) <==> channel is BatteryVoltage);
    assert(panel::is_named_for("current (mA)"@, channel) <==> channel is BatteryCurrent);
    assert(panel::is_named_for("power (mW)"@, channel) <==> channel is BatteryPower);
    if session.frames(channel).len() > 0 {
        let k: int = match channel {
            Channel::BatteryVoltage => 0,
            Channel::BatteryCurrent => nv,
            _ => nv + nc,
        };
        assert(panel::is_named_for(lines[k].1@, channel));
    } else {
        assert forall|k: int| 0 <= k < lines.len() implies !panel::is_named_for(
            (#[trigger] lines[k]).1@,
            channel,
        ) by {
            assert(lines[k].1 == "voltage (mV)" && v || lines[k].1 == "current (mA)" && c
                || lines[k].1 == "power (mW)" && session.frames(Channel::BatteryPower).len() > 0);
        }
    }
}

/// The sentence and the heading about a range tell its ends in their order.
pub proof fn law_told_ends(
    session: SessionStore,
    start_ms: u64,
    end_ms: u64,
    start: Seq<char>,
    end: Seq<char>,
    texts: Seq<Vec<String>>,
    stats: Seq<Vec<RangeStats>>,
)
    ensures
        ({
            let selection = Some(SelectionRange::Span { start_ms, end_ms });
            let ends = "["@ + start + "s, "@ + end + "s]"@;
            &&& text::contains(summary_text(selection, start, end), ends)
            &&& text::contains(
                detail_lines(session, selection, start, end, texts, stats)[0],
                ends,
            )
        }),
{
    reveal_strlit("[");
    reveal_strlit("s]");
    reveal_strlit("Selected range: [");
    reveal_strlit(
        "s] (inclusive). Long-press left mouse to select range, then delete in Paused state.",
    );
    reveal_strlit("Range [");
    reveal_strlit("s] avg/min/max");
    let ends = "["@ + start + "s, "@ + end + "s]"@;
    let summary = "Selected range: ["@ + start + "s, "@ + end
        + "s] (inclusive). Long-press left mouse to select range, then delete in Paused state."@;
    assert(summary.subrange(16, 16 + ends.len() as int) =~= ends);
    assert(text::occurs_at(summary, ends, 16));
    let heading = "Range ["@ + start + "s, "@ + end + "s] avg/min/max"@;
    assert(heading.subrange(6, 6 + ends.len() as int) =~= ends);
    assert(text::occurs_at(heading, ends, 6));
}

} // verus!
