//! Selecting points and ranges on the timeline with the mouse, and deleting them.

use vstd::prelude::*;

use crate::gui::{Dashboard, Shown};
use crate::session::SessionState;
use crate::storage;
use crate::storage::{Channel, SessionStore, TimestampedBatch};
use crate::text;

verus! {

/// What is selected on the timeline, in milliseconds.
#[derive(Debug, Clone, Copy, PartialEq, Eq, Structural)]
pub enum SelectionRange {
    /// One moment.
    Point(u64),
    /// A range, both ends within it.
    Span {
        /// Where it starts.
        start_ms: u64,
        /// Where it ends.
        end_ms: u64,
    },
}

/// The selection that the mouse is drawing, in milliseconds.
#[derive(Debug, Clone, Copy, PartialEq, Eq, Structural)]
pub struct DragSelection {
    /// Where the button went down.
    pub start_ms: u64,
    /// Where the mouse is.
    pub current_ms: u64,
}

/// The charts.
#[derive(Debug, Clone, Copy, PartialEq, Eq, Structural)]
pub enum ChartKey {
    /// The CPU clock.
    CpuClock,
    /// The CPU utilisation.
    CpuUsage,
    /// The battery temperature.
    BatteryTemp,
    /// Voltage, current and power.
    BatteryPowerMetrics,
    /// The frame rate.
    Fps,
}

impl ChartKey {
    /// The name of the chart.
    pub open spec fn name(self) -> &'static str {
        match self {
            ChartKey::CpuClock => "CpuClock",
            ChartKey::CpuUsage => "CpuUsage",
            ChartKey::BatteryTemp => "BatteryTemp",
            ChartKey::BatteryPowerMetrics => "BatteryPowerMetrics",
            ChartKey::Fps => "Fps",
        }
    }

    /// The name of the chart.
    pub fn as_str(self) -> (r: &'static str)
        ensures
            r@ == self.name()@,
    {
        match self {
            ChartKey::CpuClock => "CpuClock",
            ChartKey::CpuUsage => "CpuUsage",
            ChartKey::BatteryTemp => "BatteryTemp",
            ChartKey::BatteryPowerMetrics => "BatteryPowerMetrics",
            ChartKey::Fps => "Fps",
        }
    }
}

/// The ends of a selection.
pub open spec fn bounds(selection: Option<SelectionRange>) -> Option<(u64, u64)> {
    match selection {
        Some(SelectionRange::Point(ts)) => Some((ts, ts)),
        Some(SelectionRange::Span { start_ms, end_ms }) => Some((start_ms, end_ms)),
        None => None,
    }
}

/// The smaller of two times.
pub open spec fn earliest_of(a: u64, b: u64) -> u64 {
    if a <= b {
        a
    } else {
        b
    }
}

/// The larger of two times.
pub open spec fn latest_of(a: u64, b: u64) -> u64 {
    if a >= b {
        a
    } else {
        b
    }
}

/// The ends of what the mouse has drawn when its button goes up: all that it passed when it went
/// down, when it moved last and when it went up.
pub open spec fn drawn(drag: DragSelection, ts: u64) -> (u64, u64) {
    (
        earliest_of(earliest_of(drag.start_ms, ts), drag.current_ms),
        latest_of(latest_of(drag.start_ms, ts), drag.current_ms),
    )
}

/// The selection of a range; one without length is a point.
pub open spec fn range_of(start_ms: u64, end_ms: u64) -> SelectionRange {
    if start_ms == end_ms {
        SelectionRange::Point(start_ms)
    } else {
        SelectionRange::Span { start_ms, end_ms }
    }
}

/// The window after the left button went down at a time.
pub open spec fn pressed(s: Shown, ts: u64) -> Shown {
    if s.ignore_click {
        Shown { ignore_click: false, ..s }
    } else {
        Shown {
            selection: Some(SelectionRange::Point(ts)),
            drag: Some(DragSelection { start_ms: ts, current_ms: ts }),
            ..s
        }
    }
}

/// The window after the mouse moved to a time with its button down.
pub open spec fn dragged(s: Shown, ts: u64) -> Shown {
    match s.drag {
        Some(drag) => Shown { drag: Some(DragSelection { current_ms: ts, ..drag }), ..s },
        None => s,
    }
}

/// The window after the left button went up at a time.
pub open spec fn released(
    s: Shown,
    chart: ChartKey,
    ts: u64,
    start_text: Seq<char>,
    end_text: Seq<char>,
) -> Shown {
    match s.drag {
        Some(drag) => Shown {
            selection: Some(range_of(drawn(drag, ts).0, drawn(drag, ts).1)),
            drag: None,
            status: "Selection updated on "@ + chart.name()@ + ": ["@ + start_text + "s, "@
                + end_text + "s]"@,
            ..s
        },
        None => s,
    }
}

/// Whether selections can be deleted in a state.
pub open spec fn deletes(state: SessionState) -> bool {
    state is Paused || state is Stopped
}

impl Dashboard {
    /// The ends of the selection.
    pub fn selection_bounds_ms(&self) -> (r: Option<(u64, u64)>)
        ensures
            r == bounds(self@.selection),
    {
        match self.selection {
            Some(SelectionRange::Point(ts)) => Some((ts, ts)),
            Some(SelectionRange::Span { start_ms, end_ms }) => Some((start_ms, end_ms)),
            None => None,
        }
    }

    /// The left button went down at a time: that time is selected.
    pub fn left_button_down(&mut self, ts: u64)
        ensures
            final(self)@ == pressed(old(self)@, ts),
            final(self).session == old(self).session,
    {
        if self.ignore_next_left_click {
            self.ignore_next_left_click = false;
            return;
        }
        self.selection = Some(SelectionRange::Point(ts));
        self.drag_selection = Some(DragSelection { start_ms: ts, current_ms: ts });
    }

    /// The right button went down: the menu opens, and the next left click closes it.
    pub fn right_button_down(&mut self)
        ensures
            final(self)@ == (Shown {
                ignore_click: true,
                status: "Right-click menu opened. Choose Delete Selected Range."@,
                ..old(self)@
            }),
            final(self).session == old(self).session,
    {
        self.ignore_next_left_click = true;
        self.status_line = String::from_str(
            "Right-click menu opened. Choose Delete Selected Range.",
        );
    }

    /// The mouse moved to a time with its button down.
    pub fn mouse_dragged(&mut self, ts: u64)
        ensures
            final(self)@ == dragged(old(self)@, ts),
            final(self).session == old(self).session,
    {
        if let Some(drag) = self.drag_selection {
            self.drag_selection = Some(
                DragSelection { start_ms: drag.start_ms, current_ms: ts },
            );
        }
    }

    /// The ends of what would be selected if the left button went up at a time.
    pub fn drawn_bounds_ms(&self, ts: u64) -> (r: Option<(u64, u64)>)
        ensures
            r == match self@.drag {
                Some(drag) => Some(drawn(drag, ts)),
                None => None,
            },
    {
        match self.drag_selection {
            Some(drag) => {
                let mut start: u64 = drag.start_ms;
                if ts < start {
                    start = ts;
                }
                if drag.current_ms < start {
                    start = drag.current_ms;
                }
                let mut end: u64 = drag.start_ms;
                if ts > end {
                    end = ts;
                }
                if drag.current_ms > end {
                    end = drag.current_ms;
                }
                Some((start, end))
            },
            None => None,
        }
    }

    /// The left button went up at a time: what the mouse has drawn is selected. The two texts are
    /// its ends in seconds.
    pub fn left_button_up(&mut self, chart: ChartKey, ts: u64, start_text: &str, end_text: &str)
        ensures
            final(self)@ == released(old(self)@, chart, ts, start_text@, end_text@),
            final(self).session == old(self).session,
    {
        if let Some((start_ms, end_ms)) = self.drawn_bounds_ms(ts) {
            self.drag_selection = None;
            if start_ms == end_ms {
                self.selection = Some(SelectionRange::Point(start_ms));
            } else {
                self.selection = Some(SelectionRange::Span { start_ms, end_ms });
            }
            let mut message = String::from_str("Selection updated on ");
            message.append(chart.as_str());
            message.append(": [");
            message.append(start_text);
            message.append("s, ");
            message.append(end_text);
            message.append("s]");
            self.status_line = message;
        }
    }

    /// Whether the button that deletes the selection can be pressed.
    pub fn can_delete(&self) -> (r: bool)
        ensures
            r == (self@.selection is Some && deletes(self@.state)),
    {
        self.selection.is_some() && matches!(
            self.state,
            SessionState::Paused | SessionState::Stopped
        )
    }

    /// Deletes the selection from all channels, where there is one and the session does not
    /// change by itself. The two texts are the ends of the selection in seconds.
    pub fn delete_current_selection(&mut self, start_text: &str, end_text: &str) -> (r: bool)
        ensures
            r == (deletes(old(self)@.state) && old(self)@.selection is Some),
            if !deletes(old(self)@.state) {
                &&& final(self)@ == (Shown {
                    status: "Delete is only allowed in Paused or Stopped state."@,
                    ..old(self)@
                })
                &&& final(self).session == old(self).session
            } else {
                match bounds(old(self)@.selection) {
                    Some((start_ms, end_ms)) => {
                        &&& final(self)@ == (Shown {
                            selection: None,
                            drag: None,
                            status: "Deleted selected range ["@ + start_text@ + "s, "@ + end_text@
                                + "s] across all profilers."@,
                            ..old(self)@
                        })
                        &&& is_cut(old(self).session, final(self).session, start_ms, end_ms)
                    },
                    None => {
                        &&& final(self)@ == old(self)@
                        &&& final(self).session == old(self).session
                    },
                }
            },
    {
        if !matches!(self.state, SessionState::Paused | SessionState::Stopped) {
            self.status_line = String::from_str(
                "Delete is only allowed in Paused or Stopped state.",
            );
            return false;
        }
        match self.selection_bounds_ms() {
            None => false,
            Some((start_ms, end_ms)) => {
                self.session.delete_range(start_ms, end_ms);
                self.selection = None;
                self.drag_selection = None;
                let mut message = String::from_str("Deleted selected range [");
                message.append(start_text);
                message.append("s, ");
                message.append(end_text);
                message.append("s] across all profilers.");
                self.status_line = message;
                true
            },
        }
    }

    /// Presses the button that deletes the selection.
    pub fn press_delete(&mut self, start_text: &str, end_text: &str)
        ensures
            if deletes(old(self)@.state) && old(self)@.selection is Some {
                &&& final(self)@ == (Shown {
                    selection: None,
                    drag: None,
                    status: "Deleted selected range ["@ + start_text@ + "s, "@ + end_text@
                        + "s] across all profilers."@,
                    ..old(self)@
                })
                &&& is_cut(
                    old(self).session,
                    final(self).session,
                    bounds(old(self)@.selection)->Some_0.0,
                    bounds(old(self)@.selection)->Some_0.1,
                )
            } else {
                &&& final(self)@ == (Shown {
                    status: "No active selection to delete."@,
                    ..old(self)@
                })
                &&& final(self).session == old(self).session
            },
    {
        if !self.delete_current_selection(start_text, end_text) {
            self.status_line = String::from_str("No active selection to delete.");
        }
    }
}

/// Whether a store is another with a range cut out.
pub open spec fn is_cut(before: SessionStore, after: SessionStore, start_ms: u64, end_ms: u64) -> bool {
    &&& after.compaction() == storage::plus(
        before.compaction(),
        before.shift_for(start_ms, end_ms),
    )
    &&& forall|c: Channel| #[trigger]
        after.frames(c) == storage::cut_frames(
            before.frames(c),
            start_ms,
            end_ms,
            before.shift_for(start_ms, end_ms),
        )
}

/// A click selects one point: pressing and releasing the button at the same time selects that
/// time, and pressing, moving and releasing selects what lies between, in whatever direction the
/// mouse moved.
pub proof fn law_selecting(
    s: Shown,
    chart: ChartKey,
    from: u64,
    to: u64,
    start_text: Seq<char>,
    end_text: Seq<char>,
)
    requires
        !s.ignore_click,
    ensures
        ({
            let after = released(
                dragged(pressed(s, from), to),
                chart,
                to,
                start_text,
                end_text,
            );
            &&& bounds(after.selection) == Some((earliest_of(from, to), latest_of(from, to)))
            &&& from == to <==> after.selection is Some && after.selection->Some_0 is Point
            &&& after.drag is None
        }),
{
}

/// The left click after a right click selects nothing, and only that one.
pub proof fn law_menu_click_selects_nothing(s: Shown, ts: u64)
    requires
        s.ignore_click,
    ensures
        pressed(s, ts).selection == s.selection,
        pressed(s, ts).drag == s.drag,
        !pressed(s, ts).ignore_click,
{
}

/// What the mouse has drawn reaches from the earliest to the latest of the three times: where the
/// button went down, where the mouse moved last and where the button went up.
pub proof fn law_drawn_ends(drag: DragSelection, ts: u64)
    ensures
        ({
            let (start, end) = drawn(drag, ts);
            &&& start <= drag.start_ms <= end
            &&& start <= drag.current_ms <= end
            &&& start <= ts <= end
            &&& start == drag.start_ms || start == drag.current_ms || start == ts
            &&& end == drag.start_ms || end == drag.current_ms || end == ts
        }),
{
}

/// A range that is selected has the ends that it was given.
pub proof fn law_bounds_of_ranges(start_ms: u64, end_ms: u64)
    ensures
        bounds(Some(range_of(start_ms, end_ms))) == Some((start_ms, end_ms)),
        range_of(start_ms, end_ms) is Point <==> start_ms == end_ms,
        bounds(None) is None,
{
}

/// A press selects its moment, a drag moves one end of what is drawn, and neither touches what
/// else the window shows; without a press before it a drag or a release does nothing.
pub proof fn law_mouse_moves(
    s: Shown,
    chart: ChartKey,
    ts: u64,
    start_text: Seq<char>,
    end_text: Seq<char>,
)
    ensures
        !s.ignore_click ==> pressed(s, ts).selection == Some(SelectionRange::Point(ts))
            && pressed(s, ts).drag == Some(DragSelection { start_ms: ts, current_ms: ts }),
        s.drag is None ==> dragged(s, ts) == s && released(s, chart, ts, start_text, end_text) == s,
        s.drag is Some ==> dragged(s, ts).drag == Some(
            DragSelection { start_ms: s.drag->Some_0.start_ms, current_ms: ts },
        ),
        dragged(s, ts).selection == s.selection,
        pressed(s, ts).state == s.state && pressed(s, ts).status == s.status && pressed(s, ts).hz
            == s.hz && pressed(s, ts).package == s.package,
        dragged(s, ts).state == s.state && dragged(s, ts).status == s.status && dragged(s, ts).hz
            == s.hz && dragged(s, ts).package == s.package,
        released(s, chart, ts, start_text, end_text).state == s.state && released(
            s,
            chart,
            ts,
            start_text,
            end_text,
        ).hz == s.hz && released(s, chart, ts, start_text, end_text).package == s.package,
        deletes(s.state) <==> s.state == SessionState::Paused || s.state == SessionState::Stopped,
{
}

/// Deleting a selection takes all frames in it from every channel: nothing is left of a channel
/// whose frames all lie in the selection, and one whose frames all lie before it stays as it is.
pub proof fn law_deleting_takes_all_of_the_selection(
    before: SessionStore,
    after: SessionStore,
    channel: Channel,
    start_ms: u64,
    end_ms: u64,
)
    requires
        is_cut(before, after, start_ms, end_ms),
        start_ms <= end_ms,
    ensures
        (forall|i: int|
            0 <= i < before.frames(channel).len() ==> start_ms <= #[trigger] before.frames(
                channel,
            )[i].timestamp_ms <= end_ms) ==> after.frames(channel).len() == 0,
        (forall|i: int|
            0 <= i < before.frames(channel).len() ==> #[trigger] before.frames(
                channel,
            )[i].timestamp_ms < start_ms) ==> after.frames(channel) == before.frames(channel),
{
    lemma_cut_all_or_none(
        before.frames(channel),
        start_ms,
        end_ms,
        before.shift_for(start_ms, end_ms),
    );
}

proof fn lemma_cut_all_or_none(
    frames: Seq<TimestampedBatch>,
    start_ms: u64,
    end_ms: u64,
    shift_ms: u64,
)
    requires
        start_ms <= end_ms,
    ensures
        (forall|i: int|
            0 <= i < frames.len() ==> start_ms <= #[trigger] frames[i].timestamp_ms <= end_ms)
            ==> storage::cut_frames(frames, start_ms, end_ms, shift_ms).len() == 0,
        (forall|i: int| 0 <= i < frames.len() ==> #[trigger] frames[i].timestamp_ms < start_ms)
            ==> storage::cut_frames(frames, start_ms, end_ms, shift_ms) == frames,
    decreases frames.len(),
{
    if frames.len() == 0 {
        storage::law_cut_frames_one_by_one(frames, arbitrary(), start_ms, end_ms, shift_ms);
        assert(frames =~= Seq::empty());
    } else {
        let rest = frames.drop_last();
        assert(forall|i: int| 0 <= i < rest.len() ==> rest[i] == frames[i]);
        lemma_cut_all_or_none(rest, start_ms, end_ms, shift_ms);
        storage::law_cut_range(rest, frames.last(), start_ms, end_ms, shift_ms);
        assert(rest.push(frames.last()) =~= frames);
    }
}

/// What is told of a new selection names the chart and the ends in their order.
pub proof fn law_told_selection(
    s: Shown,
    chart: ChartKey,
    ts: u64,
    start_text: Seq<char>,
    end_text: Seq<char>,
)
    requires
        s.drag is Some,
    ensures
        text::contains(
            released(s, chart, ts, start_text, end_text).status,
            chart.name()@ + ": ["@ + start_text + "s, "@ + end_text + "s]"@,
        ),
        released(s, chart, ts, start_text, end_text).selection is Some,
        bounds(released(s, chart, ts, start_text, end_text).selection) == Some(
            drawn(s.drag->Some_0, ts),
        ),
{
    let head = "Selection updated on "@;
    let told = chart.name()@ + ": ["@ + start_text + "s, "@ + end_text + "s]"@;
    let status = head + chart.name()@ + ": ["@ + start_text + "s, "@ + end_text + "s]"@;
    let at = head.len() as int;
    assert(status.subrange(at, at + told.len()) =~= told);
    assert(text::occurs_at(status, told, at));
}

} // verus!
