//! The report page.

use vstd::prelude::*;

use crate::export;
use crate::export::panel;
use crate::export::panel::{build_panels, Card, Legend, Panel, PanelView, PlotRow};
use crate::export::{html_escape, time_precision_for_hz};
use crate::number;
use crate::number::{write_u128, write_u64};
use crate::storage::SessionStore;
use crate::text;
use crate::text::{chars_of, CharClass};

verus! {

/// The numbers of a panel that are not whole, as they are to be printed.
#[derive(Debug)]
pub struct ChartNumbers {
    /// The highest value of the chart, with one decimal place.
    pub max_value: String,
    /// Half of it.
    pub half_value: String,
    /// The time of the last row in seconds, with one decimal place.
    pub max_time: String,
    /// For each line of the chart the coordinates of its points.
    pub points: Vec<Vec<String>>,
    /// For each line of the chart, where it has samples, its statistics: average, minimum,
    /// maximum, median, 95th and 99th percentile, standard deviation, coefficient of variation
    /// in percent and range.
    pub stats: Vec<Option<Vec<String>>>,
}

/// The numbers of a panel, abstractly.
pub struct Numbers {
    /// The highest value of the chart.
    pub max_value: Seq<char>,
    /// Half of it.
    pub half_value: Seq<char>,
    /// The time of the last row in seconds.
    pub max_time: Seq<char>,
    /// For each line of the chart the coordinates of its points.
    pub points: Seq<Seq<Seq<char>>>,
    /// For each line of the chart, where it has samples, its statistics.
    pub stats: Seq<Option<Seq<Seq<char>>>>,
}

/// A list of texts, where there is one.
pub open spec fn optional_texts(cells: Option<Vec<String>>) -> Option<Seq<Seq<char>>> {
    match cells {
        Some(cells) => Some(text::views(cells@)),
        None => None,
    }
}

impl View for ChartNumbers {
    type V = Numbers;

    open spec fn view(&self) -> Numbers {
        Numbers {
            max_value: self.max_value@,
            half_value: self.half_value@,
            max_time: self.max_time@,
            points: self.points@.map_values(|line: Vec<String>| text::views(line@)),
            stats: self.stats@.map_values(|cells: Option<Vec<String>>| optional_texts(cells)),
        }
    }
}

/// The number of statistics of a line.
pub const STATS: usize = 9;

/// The positive values at a place of the rows, in their order.
pub open spec fn samples(rows: Seq<(u64, Seq<i64>)>, place: int) -> Seq<i64>
    decreases rows.len(),
{
    if rows.len() == 0 {
        Seq::empty()
    } else {
        let before = samples(rows.drop_last(), place);
        if rows.last().1[place] > 0 {
            before.push(rows.last().1[place])
        } else {
            before
        }
    }
}

/// The largest length of a printed number, or of the two coordinates of a point.
pub const NUMBER_LENGTH: usize = 32;

/// Whether a character can stand in a printed number, or between the two coordinates of a point.
pub open spec fn is_number_char(c: char) -> bool {
    text::is_digit(c) || c == '.' || c == ',' || c == '-'
}

/// Whether a text is a printed number, or a point, as far as its characters and its length tell.
pub open spec fn is_number_text(s: Seq<char>) -> bool {
    s.len() <= NUMBER_LENGTH && forall|i: int| 0 <= i < s.len() ==> is_number_char(#[trigger] s[i])
}

/// Whether all texts of a list are printed numbers.
pub open spec fn are_number_texts(texts: Seq<Seq<char>>) -> bool {
    forall|i: int| 0 <= i < texts.len() ==> is_number_text(#[trigger] texts[i])
}

/// Whether the points and statistics of one line of a panel are those of that line: a
/// point for each row, and statistics exactly where it has samples.
pub open spec fn is_line(numbers: Numbers, panel: PanelView, i: int) -> bool {
    &&& numbers.points[i].len() == panel.rows.len()
    &&& are_number_texts(numbers.points[i])
    &&& numbers.stats[i] is Some <==> samples(panel.rows, panel.series_indexes[i] as int).len() > 0
    &&& numbers.stats[i] matches Some(cells) ==> cells.len() == STATS && are_number_texts(cells)
}

/// Whether the numbers are those of a panel, as they are printed.
pub open spec fn fit(numbers: Numbers, panel: PanelView) -> bool {
    &&& is_number_text(numbers.max_value)
    &&& is_number_text(numbers.half_value)
    &&& is_number_text(numbers.max_time)
    &&& numbers.points.len() == panel.legends.len()
    &&& numbers.stats.len() == panel.legends.len()
    &&& forall|i: int| 0 <= i < panel.legends.len() ==> #[trigger] is_line(numbers, panel, i)
}

/// The positive values at a place of the rows, in their order.
pub fn series_samples(rows: &Vec<PlotRow>, place: usize) -> (r: Vec<i64>)
    requires
        forall|i: int| 0 <= i < rows@.len() ==> place < (#[trigger] rows@[i]).values@.len(),
    ensures
        r@ == samples(text::views(rows@), place as int),
{
    let ghost all = text::views(rows@);
    let mut out: Vec<i64> = Vec::new();
    let mut i: usize = 0;
    assert(all.take(0) =~= Seq::empty());
    assert(out@ =~= Seq::empty());
    while i < rows.len()
        invariant
            i <= rows@.len(),
            all == text::views(rows@),
            forall|i: int| 0 <= i < rows@.len() ==> place < (#[trigger] rows@[i]).values@.len(),
            out@ == samples(all.take(i as int), place as int),
        decreases rows@.len() - i,
    {
        assert(all.take(i + 1).drop_last() =~= all.take(i as int));
        assert(all.take(i + 1).last() == rows@[i as int]@);
        let value: i64 = rows[i].values[place];
        if value > 0 {
            out.push(value);
        }
        i = i + 1;
    }
    assert(all.take(i as int) =~= all);
    out
}

/// The highest value of a chart, and at least zero: the largest of the values of its lines.
pub open spec fn is_peak(rows: Seq<(u64, Seq<i64>)>, places: Seq<usize>, peak: i64) -> bool {
    &&& peak >= 0
    &&& forall|i: int, j: int|
        0 <= i < rows.len() && 0 <= j < places.len() ==> (#[trigger] rows[i]).1[(
        #[trigger] places[j]) as int] <= peak
    &&& peak == 0 || exists|i: int, j: int|
        0 <= i < rows.len() && 0 <= j < places.len() && (#[trigger] rows[i]).1[(
        #[trigger] places[j]) as int] == peak
}

/// The highest value of a chart.
pub fn chart_peak(panel: &Panel) -> (r: i64)
    requires
        panel@.wf(),
    ensures
        is_peak(panel@.rows, panel@.series_indexes, r),
{
    let ghost rows = panel@.rows;
    let ghost places = panel@.series_indexes;
    let mut peak: i64 = 0;
    let mut i: usize = 0;
    while i < panel.rows.len()
        invariant
            i <= panel.rows@.len(),
            panel@.wf(),
            rows == panel@.rows,
            places == panel@.series_indexes,
            rows == text::views(panel.rows@),
            is_peak(rows.take(i as int), places, peak),
        decreases panel.rows@.len() - i,
    {
        assert(rows[i as int] == panel.rows@[i as int]@);
        let ghost before = peak;
        let mut j: usize = 0;
        while j < panel.series_indexes.len()
            invariant
                i < panel.rows@.len(),
                j <= panel.series_indexes@.len(),
                panel@.wf(),
                rows == panel@.rows,
                places == panel@.series_indexes,
                rows[i as int] == panel.rows@[i as int]@,
                peak >= before,
                peak >= 0,
                forall|k: int|
                    0 <= k < j ==> rows[i as int].1[(#[trigger] places[k]) as int] <= peak,
                peak == before || exists|k: int|
                    0 <= k < j && rows[i as int].1[(#[trigger] places[k]) as int] == peak,
            decreases panel.series_indexes@.len() - j,
        {
            let place: usize = panel.series_indexes[j];
            assert(places[j as int] < panel::PLOT_VALUES);
            assert(rows[i as int].1.len() == panel::PLOT_VALUES);
            let value: i64 = panel.rows[i].values[place];
            if value > peak {
                peak = value;
                assert(rows[i as int].1[places[j as int] as int] == peak);
            }
            j = j + 1;
        }
        proof {
            let next = rows.take(i + 1);
            let shorter = rows.take(i as int);
            assert forall|a: int, b: int| 0 <= a < next.len() && 0 <= b < places.len() implies (
            #[trigger] next[a]).1[(#[trigger] places[b]) as int] <= peak by {
                if a < i {
                    assert(shorter[a].1[places[b] as int] <= before);
                }
            }
            if peak != before {
                let k = choose|k: int|
                    0 <= k < j && rows[i as int].1[(#[trigger] places[k]) as int] == peak;
                assert(next[i as int].1[places[k] as int] == peak);
            } else if before != 0 {
                let (a, b) = choose|a: int, b: int|
                    0 <= a < shorter.len() && 0 <= b < places.len() && (
                    #[trigger] shorter[a]).1[(#[trigger] places[b]) as int] == before;
                assert(next[a].1[places[b] as int] == peak);
            }
        }
        i = i + 1;
    }
    assert(rows.take(i as int) =~= rows);
    peak
}

// ---------------------------------------------------------------------------
// The chart
// ---------------------------------------------------------------------------

/// An attribute with a number.
pub open spec fn attribute(name: Seq<char>, value: nat) -> Seq<char> {
    " "@ + name + "=\""@ + number::decimal(value) + "\""@
}

/// Half of a number.
pub open spec fn half_text(n: nat) -> Seq<char> {
    if n % 2 == 0 {
        number::decimal(n / 2)
    } else {
        number::decimal(n / 2) + ".5"@
    }
}

/// The left edge of the plot area.
pub const PLOT_LEFT: u64 = 56;

/// The upper edge of the plot area.
pub const PLOT_TOP: u64 = 16;

/// The right edge of the plot area.
pub open spec fn plot_right(width: nat) -> nat {
    (width - 16) as nat
}

/// The lower edge of the plot area.
pub open spec fn plot_bottom(height: nat) -> nat {
    (height - 26) as nat
}

/// The frame and the axes of a chart.
pub open spec fn chart_frame(width: nat, height: nat) -> Seq<char> {
    let right = plot_right(width);
    let bottom = plot_bottom(height);
    "<svg width=\"100%\""@ + attribute("height"@, height) + " viewBox=\"0 0 "@ + number::decimal(
        width,
    ) + " "@ + number::decimal(height)
        + "\" xmlns=\"http://www.w3.org/2000/svg\"><rect x=\"0\" y=\"0\""@ + attribute(
        "width"@,
        width,
    ) + attribute("height"@, height) + " fill=\"#fff\"/><rect"@ + attribute(
        "x"@,
        PLOT_LEFT as nat,
    ) + attribute("y"@, PLOT_TOP as nat) + attribute("width"@, (right - PLOT_LEFT) as nat)
        + attribute("height"@, (bottom - PLOT_TOP) as nat)
        + " fill=\"none\" stroke=\"#ccc\"/><line"@ + attribute("x1"@, PLOT_LEFT as nat) + attribute(
        "y1"@,
        bottom,
    ) + attribute("x2"@, right) + attribute("y2"@, bottom) + " stroke=\"#888\"/><line"@ + attribute(
        "x1"@,
        PLOT_LEFT as nat,
    ) + attribute("y1"@, PLOT_TOP as nat) + attribute("x2"@, PLOT_LEFT as nat) + attribute(
        "y2"@,
        bottom,
    ) + " stroke=\"#888\"/>"@
}

/// The numbers at the axes of a chart.
pub open spec fn chart_scales(numbers: Numbers, unit: Seq<char>, width: nat, height: nat) -> Seq<
    char,
> {
    let right = plot_right(width);
    let bottom = plot_bottom(height);
    let unit = export::html_escaped(unit);
    "<text x=\"8\""@ + attribute("y"@, (PLOT_TOP + 10) as nat)
        + " font-size=\"11\" fill=\"#666\">"@ + numbers.max_value + " "@ + unit
        + "</text><text x=\"8\" y=\""@ + half_text((PLOT_TOP + bottom) as nat)
        + "\" font-size=\"11\" fill=\"#666\">"@ + numbers.half_value + " "@ + unit
        + "</text><text x=\"8\""@ + attribute("y"@, bottom)
        + " font-size=\"11\" fill=\"#666\">0 "@ + unit + "</text><text"@ + attribute(
        "x"@,
        PLOT_LEFT as nat,
    ) + attribute("y"@, bottom + 14) + " font-size=\"11\" fill=\"#666\">0.0s</text><text"@
        + attribute("x"@, (right - 32) as nat) + attribute("y"@, bottom + 14)
        + " font-size=\"11\" fill=\"#666\">"@ + numbers.max_time + "s</text>"@
}

/// A line of a chart; nothing where there are no points.
pub open spec fn chart_line(points: Seq<Seq<char>>, color: Seq<char>) -> Seq<char> {
    if text::join(points, " "@).len() == 0 {
        Seq::empty()
    } else {
        "<polyline points=\""@ + text::join(points, " "@) + "\" fill=\"none\" stroke=\""@ + color
            + "\" stroke-width=\"2\"/>"@
    }
}

/// The lines of a chart.
pub open spec fn chart_lines(points: Seq<Seq<Seq<char>>>, legends: Seq<(Seq<char>, Seq<char>)>) -> Seq<
    char,
>
    decreases legends.len(),
{
    if legends.len() == 0 {
        Seq::empty()
    } else {
        chart_lines(points, legends.drop_last()) + chart_line(
            points[legends.len() - 1],
            legends.last().1,
        )
    }
}

/// A chart.
pub open spec fn chart(panel: PanelView, numbers: Numbers, width: nat, height: nat) -> Seq<char> {
    chart_frame(width, height) + chart_scales(numbers, panel.unit, width, height) + chart_lines(
        numbers.points,
        panel.legends,
    ) + "</svg>"@
}

/// Appends an attribute with a number.
pub fn push_attribute(out: &mut String, name: &str, value: u128)
    ensures
        final(out)@ == old(out)@ + attribute(name@, value as nat),
{
    let mut piece = String::from_str(" ");
    piece.append(name);
    piece.append("=\"");
    let digits = write_u128(value);
    piece.append(digits.as_str());
    piece.append("\"");
    out.append(piece.as_str());
}

fn write_half(n: u64) -> (r: String)
    ensures
        r@ == half_text(n as nat),
{
    let mut out = write_u64(n / 2);
    if n % 2 != 0 {
        out.append(".5");
    }
    out
}

fn write_chart_frame(width: u64, height: u64) -> (r: String)
    requires
        72 <= width,
        42 <= height,
    ensures
        r@ == chart_frame(width as nat, height as nat),
{
    let right: u64 = width - 16;
    let bottom: u64 = height - 26;
    let mut s = String::from_str("<svg width=\"100%\"");
    push_attribute(&mut s, "height", height as u128);
    s.append(" viewBox=\"0 0 ");
    let w = write_u64(width);
    s.append(w.as_str());
    s.append(" ");
    let h = write_u64(height);
    s.append(h.as_str());
    s.append("\" xmlns=\"http://www.w3.org/2000/svg\"><rect x=\"0\" y=\"0\"");
    push_attribute(&mut s, "width", width as u128);
    push_attribute(&mut s, "height", height as u128);
    s.append(" fill=\"#fff\"/><rect");
    push_attribute(&mut s, "x", PLOT_LEFT as u128);
    push_attribute(&mut s, "y", PLOT_TOP as u128);
    push_attribute(&mut s, "width", (right - PLOT_LEFT) as u128);
    push_attribute(&mut s, "height", (bottom - PLOT_TOP) as u128);
    s.append(" fill=\"none\" stroke=\"#ccc\"/><line");
    push_attribute(&mut s, "x1", PLOT_LEFT as u128);
    push_attribute(&mut s, "y1", bottom as u128);
    push_attribute(&mut s, "x2", right as u128);
    push_attribute(&mut s, "y2", bottom as u128);
    s.append(" stroke=\"#888\"/><line");
    push_attribute(&mut s, "x1", PLOT_LEFT as u128);
    push_attribute(&mut s, "y1", PLOT_TOP as u128);
    push_attribute(&mut s, "x2", PLOT_LEFT as u128);
    push_attribute(&mut s, "y2", bottom as u128);
    s.append(" stroke=\"#888\"/>");
    s
}

fn write_chart_scales(numbers: &ChartNumbers, unit: &str, width: u64, height: u64) -> (r: String)
    requires
        72 <= width,
        42 <= height,
    ensures
        r@ == chart_scales(numbers@, unit@, width as nat, height as nat),
{
    let right: u64 = width - 16;
    let bottom: u64 = height - 26;
    let unit = html_escape(unit);
    let mut s = String::from_str("<text x=\"8\"");
    push_attribute(&mut s, "y", (PLOT_TOP + 10) as u128);
    s.append(" font-size=\"11\" fill=\"#666\">");
    s.append(numbers.max_value.as_str());
    s.append(" ");
    s.append(unit.as_str());
    s.append("</text><text x=\"8\" y=\"");
    let middle = write_half(PLOT_TOP + bottom);
    s.append(middle.as_str());
    s.append("\" font-size=\"11\" fill=\"#666\">");
    s.append(numbers.half_value.as_str());
    s.append(" ");
    s.append(unit.as_str());
    s.append("</text><text x=\"8\"");
    push_attribute(&mut s, "y", bottom as u128);
    s.append(" font-size=\"11\" fill=\"#666\">0 ");
    s.append(unit.as_str());
    s.append("</text><text");
    push_attribute(&mut s, "x", PLOT_LEFT as u128);
    push_attribute(&mut s, "y", (bottom + 14) as u128);
    s.append(" font-size=\"11\" fill=\"#666\">0.0s</text><text");
    push_attribute(&mut s, "x", (right - 32) as u128);
    push_attribute(&mut s, "y", (bottom + 14) as u128);
    s.append(" font-size=\"11\" fill=\"#666\">");
    s.append(numbers.max_time.as_str());
    s.append("s</text>");
    s
}

fn write_chart_line(points: &Vec<String>, color: &str) -> (r: String)
    ensures
        r@ == chart_line(text::views(points@), color@),
{
    let list = text::joined(points, " ");
    if list.as_str().unicode_len() == 0 {
        let empty = String::new();
        assert(empty@ =~= Seq::empty());
        return empty;
    }
    let mut s = String::from_str("<polyline points=\"");
    s.append(list.as_str());
    s.append("\" fill=\"none\" stroke=\"");
    s.append(color);
    s.append("\" stroke-width=\"2\"/>");
    s
}

fn write_chart_lines(points: &Vec<Vec<String>>, legends: &Vec<Legend>) -> (r: String)
    requires
        points@.len() == legends@.len(),
    ensures
        r@ == chart_lines(
            points@.map_values(|line: Vec<String>| text::views(line@)),
            text::views(legends@),
        ),
{
    let ghost all = text::views(legends@);
    let ghost dots = points@.map_values(|line: Vec<String>| text::views(line@));
    let mut s = String::new();
    let mut i: usize = 0;
    assert(all.take(0) =~= Seq::empty());
    assert(s@ =~= Seq::empty());
    while i < legends.len()
        invariant
            i <= legends@.len(),
            points@.len() == legends@.len(),
            all == text::views(legends@),
            dots == points@.map_values(|line: Vec<String>| text::views(line@)),
            s@ == chart_lines(dots, all.take(i as int)),
        decreases legends@.len() - i,
    {
        assert(all.take(i + 1).drop_last() =~= all.take(i as int));
        assert(all.take(i + 1).last() == legends@[i as int]@);
        assert(dots[i as int] == text::views(points@[i as int]@));
        let line = write_chart_line(&points[i], legends[i].color);
        s.append(line.as_str());
        i = i + 1;
    }
    assert(all.take(i as int) =~= all);
    s
}

/// A chart.
pub fn render_line_chart_svg(panel: &Panel, numbers: &ChartNumbers, width: u64, height: u64) -> (r: String)
    requires
        72 <= width,
        42 <= height,
        numbers@.points.len() == panel@.legends.len(),
    ensures
        r@ == chart(panel@, numbers@, width as nat, height as nat),
{
    let mut s = write_chart_frame(width, height);
    let scales = write_chart_scales(numbers, panel.unit, width, height);
    s.append(scales.as_str());
    assert(numbers@.points.len() == numbers.points@.len());
    assert(panel@.legends.len() == panel.legends@.len());
    let lines = write_chart_lines(&numbers.points, &panel.legends);
    s.append(lines.as_str());
    s.append("</svg>");
    s
}

// ---------------------------------------------------------------------------
// The panels
// ---------------------------------------------------------------------------

/// The cards of a panel.
pub open spec fn card_boxes(cards: Seq<(Seq<char>, Seq<char>)>) -> Seq<char>
    decreases cards.len(),
{
    if cards.len() == 0 {
        Seq::empty()
    } else {
        card_boxes(cards.drop_last()) + "<div class=\"card\"><div>"@ + export::html_escaped(
            cards.last().0,
        ) + "</div><div>"@ + export::html_escaped(cards.last().1) + "</div></div>"@
    }
}

/// The names of the lines of a panel.
pub open spec fn legend_marks(legends: Seq<(Seq<char>, Seq<char>)>) -> Seq<char>
    decreases legends.len(),
{
    if legends.len() == 0 {
        Seq::empty()
    } else {
        legend_marks(legends.drop_last()) + "<span><i style=\"background:"@ + legends.last().1
            + "\"></i>"@ + export::html_escaped(legends.last().0) + "</span>"@
    }
}

/// A statistic: the eighth of a line is a percentage.
pub open spec fn stat_text(cells: Seq<Seq<char>>, i: int) -> Seq<char> {
    if i == 7 {
        cells[i] + "%"@
    } else {
        cells[i]
    }
}

/// The first statistics of a line in a table.
pub open spec fn stat_cells(cells: Seq<Seq<char>>, n: nat) -> Seq<char>
    decreases n,
{
    if n == 0 {
        Seq::empty()
    } else {
        stat_cells(cells, (n - 1) as nat) + "<td>"@ + stat_text(cells, n - 1) + "</td>"@
    }
}

/// The statistics of the lines that have samples, in a table.
pub open spec fn stat_rows(
    legends: Seq<(Seq<char>, Seq<char>)>,
    stats: Seq<Option<Seq<Seq<char>>>>,
) -> Seq<char>
    decreases legends.len(),
{
    if legends.len() == 0 {
        Seq::empty()
    } else {
        let before = stat_rows(legends.drop_last(), stats);
        match stats[legends.len() - 1] {
            Some(cells) => before + "<tr><td>"@ + export::html_escaped(legends.last().0) + "</td>"@
                + stat_cells(cells, STATS as nat) + "</tr>"@,
            None => before,
        }
    }
}

/// A panel of the page.
pub open spec fn panel_section(panel: PanelView, numbers: Numbers) -> Seq<char> {
    "<section class=\"panel\"><h2>"@ + export::html_escaped(panel.title)
        + "</h2><div class=\"cards\">"@ + card_boxes(panel.cards) + "</div>"@ + chart(
        panel,
        numbers,
        1080,
        240,
    ) + "<div class=\"legend\">"@ + legend_marks(panel.legends)
        + "</div><div class=\"muted\" style=\"margin-top:8px\">"@ + export::html_escaped(
        panel.footer,
    )
        + "</div><table><thead><tr><th>series</th><th>avg</th><th>min</th><th>max</th><th>median</th><th>p95</th><th>p99</th><th>stddev</th><th>cv</th><th>range</th></tr></thead><tbody>"@
        + stat_rows(panel.legends, numbers.stats) + "</tbody></table></section>"@
}

/// The panels of the page.
pub open spec fn panel_sections(panels: Seq<PanelView>, numbers: Seq<Numbers>) -> Seq<char>
    decreases panels.len(),
{
    if panels.len() == 0 {
        Seq::empty()
    } else {
        panel_sections(panels.drop_last(), numbers) + panel_section(
            panels.last(),
            numbers[panels.len() - 1],
        )
    }
}

/// The head of the page.
pub open spec fn page_head(hz: u64) -> Seq<char> {
    "<!doctype html><html><head><meta charset=\"utf-8\"><title>PerfDroid Report</title><style>body{font-family:Arial,sans-serif;background:#F3EBDD;color:#222;padding:24px}h1{margin:0 0 6px}h2{margin:0 0 10px;text-align:center}.panel{background:#FFF9F1;border:1px solid #ddd;border-radius:12px;padding:16px;margin-bottom:16px}.cards{display:flex;flex-wrap:wrap;gap:8px;justify-content:center;margin-bottom:10px}.card{background:#F7EEE0;border:1px solid #ddd;border-radius:8px;padding:8px 12px;min-width:120px;text-align:center}.legend{display:flex;flex-wrap:wrap;gap:8px;margin-top:8px}.legend i{display:inline-block;width:14px;height:3px;vertical-align:middle;margin-right:6px}table{width:100%;border-collapse:collapse;margin-top:10px;background:#fff}th,td{border:1px solid #ddd;padding:6px 8px;text-align:left;font-size:12px}.muted{color:#666}</style></head><body><h1>PerfDroid</h1><p class=\"muted\">sampling_hz: "@
        + number::decimal(hz as nat) + " Hz | time_precision: "@ + number::decimal(
        export::time_precision(hz),
    ) + " decimal places (time label precision) | state: exported</p>"@
}

/// The page.
pub open spec fn page(panels: Seq<PanelView>, numbers: Seq<Numbers>, hz: u64) -> Seq<char> {
    page_head(hz) + panel_sections(panels, numbers) + "</body></html>"@
}

fn write_card_boxes(cards: &Vec<Card>) -> (r: String)
    ensures
        r@ == card_boxes(text::views(cards@)),
{
    let ghost all = text::views(cards@);
    let mut s = String::new();
    let mut i: usize = 0;
    assert(all.take(0) =~= Seq::empty());
    assert(s@ =~= Seq::empty());
    while i < cards.len()
        invariant
            i <= cards@.len(),
            all == text::views(cards@),
            s@ == card_boxes(all.take(i as int)),
        decreases cards@.len() - i,
    {
        assert(all.take(i + 1).drop_last() =~= all.take(i as int));
        assert(all.take(i + 1).last() == cards@[i as int]@);
        s.append("<div class=\"card\"><div>");
        let name = html_escape(cards[i].name.as_str());
        s.append(name.as_str());
        s.append("</div><div>");
        let value = html_escape(cards[i].value.as_str());
        s.append(value.as_str());
        s.append("</div></div>");
        i = i + 1;
    }
    assert(all.take(i as int) =~= all);
    s
}

fn write_legend_marks(legends: &Vec<Legend>) -> (r: String)
    ensures
        r@ == legend_marks(text::views(legends@)),
{
    let ghost all = text::views(legends@);
    let mut s = String::new();
    let mut i: usize = 0;
    assert(all.take(0) =~= Seq::empty());
    assert(s@ =~= Seq::empty());
    while i < legends.len()
        invariant
            i <= legends@.len(),
            all == text::views(legends@),
            s@ == legend_marks(all.take(i as int)),
        decreases legends@.len() - i,
    {
        assert(all.take(i + 1).drop_last() =~= all.take(i as int));
        assert(all.take(i + 1).last() == legends@[i as int]@);
        s.append("<span><i style=\"background:");
        s.append(legends[i].color);
        s.append("\"></i>");
        let label = html_escape(legends[i].label.as_str());
        s.append(label.as_str());
        s.append("</span>");
        i = i + 1;
    }
    assert(all.take(i as int) =~= all);
    s
}

/// A statistic of a line.
pub fn write_stat(cells: &Vec<String>, i: usize) -> (r: String)
    requires
        i < cells@.len(),
    ensures
        r@ == stat_text(text::views(cells@), i as int),
{
    assert(text::views(cells@)[i as int] == cells@[i as int]@);
    let mut out = cells[i].clone();
    if i == 7 {
        out.append("%");
    }
    out
}

fn write_stat_cells(cells: &Vec<String>) -> (r: String)
    requires
        cells@.len() == STATS,
    ensures
        r@ == stat_cells(text::views(cells@), STATS as nat),
{
    let mut s = String::new();
    let mut i: usize = 0;
    assert(s@ =~= Seq::empty());
    while i < STATS
        invariant
            i <= STATS,
            cells@.len() == STATS,
            s@ == stat_cells(text::views(cells@), i as nat),
        decreases STATS - i,
    {
        s.append("<td>");
        let cell = write_stat(cells, i);
        s.append(cell.as_str());
        s.append("</td>");
        i = i + 1;
    }
    s
}

fn write_stat_rows(legends: &Vec<Legend>, stats: &Vec<Option<Vec<String>>>) -> (r: String)
    requires
        stats@.len() == legends@.len(),
        forall|i: int|
            0 <= i < stats@.len() ==> ((#[trigger] stats@[i]) matches Some(cells) ==> cells@.len()
                == STATS),
    ensures
        r@ == stat_rows(
            text::views(legends@),
            stats@.map_values(|cells: Option<Vec<String>>| optional_texts(cells)),
        ),
{
    let ghost all = text::views(legends@);
    let ghost figures = stats@.map_values(|cells: Option<Vec<String>>| optional_texts(cells));
    let mut s = String::new();
    let mut i: usize = 0;
    assert(all.take(0) =~= Seq::empty());
    assert(s@ =~= Seq::empty());
    while i < legends.len()
        invariant
            i <= legends@.len(),
            stats@.len() == legends@.len(),
            all == text::views(legends@),
            figures == stats@.map_values(|cells: Option<Vec<String>>| optional_texts(cells)),
            forall|i: int|
                0 <= i < stats@.len() ==> ((#[trigger] stats@[i]) matches Some(cells)
                    ==> cells@.len() == STATS),
            s@ == stat_rows(all.take(i as int), figures),
        decreases legends@.len() - i,
    {
        assert(all.take(i + 1).drop_last() =~= all.take(i as int));
        assert(all.take(i + 1).last() == legends@[i as int]@);
        assert(figures[i as int] == optional_texts(stats@[i as int]));
        if let Some(cells) = &stats[i] {
            s.append("<tr><td>");
            let label = html_escape(legends[i].label.as_str());
            s.append(label.as_str());
            s.append("</td>");
            let row = write_stat_cells(cells);
            s.append(row.as_str());
            s.append("</tr>");
        }
        i = i + 1;
    }
    assert(all.take(i as int) =~= all);
    s
}

/// What the shape of the numbers of a panel says of their parts.
pub proof fn lemma_fit(numbers: ChartNumbers, panel: Panel)
    requires
        fit(numbers@, panel@),
    ensures
        numbers.points@.len() == panel.legends@.len(),
        numbers.stats@.len() == panel.legends@.len(),
        forall|i: int|
            0 <= i < numbers.stats@.len() ==> ((#[trigger] numbers.stats@[i]) matches Some(cells)
                ==> cells@.len() == STATS),
{
    assert(panel@.legends.len() == panel.legends@.len());
    assert forall|i: int| 0 <= i < numbers.stats@.len() implies ((
    #[trigger] numbers.stats@[i]) matches Some(cells) ==> cells@.len() == STATS) by {
        assert(numbers@.stats[i] == optional_texts(numbers.stats@[i]));
        assert(is_line(numbers@, panel@, i));
        if numbers.stats@[i] is Some {
            assert((numbers@.stats[i]->0).len() == STATS);
            assert(text::views((numbers.stats@[i]->0)@).len() == (numbers.stats@[i]->0)@.len());
        }
    }
}

/// A panel of the page.
pub fn render_panel(panel: &Panel, numbers: &ChartNumbers) -> (r: String)
    requires
        fit(numbers@, panel@),
    ensures
        r@ == panel_section(panel@, numbers@),
{
    proof {
        lemma_fit(*numbers, *panel);
    }
    let mut s = String::from_str("<section class=\"panel\"><h2>");
    let title = html_escape(panel.title);
    s.append(title.as_str());
    s.append("</h2><div class=\"cards\">");
    let cards = write_card_boxes(&panel.cards);
    s.append(cards.as_str());
    s.append("</div>");
    let svg = render_line_chart_svg(panel, numbers, 1080, 240);
    s.append(svg.as_str());
    s.append("<div class=\"legend\">");
    let legends = write_legend_marks(&panel.legends);
    s.append(legends.as_str());
    s.append("</div><div class=\"muted\" style=\"margin-top:8px\">");
    let footer = html_escape(panel.footer);
    s.append(footer.as_str());
    s.append(
        "</div><table><thead><tr><th>series</th><th>avg</th><th>min</th><th>max</th><th>median</th><th>p95</th><th>p99</th><th>stddev</th><th>cv</th><th>range</th></tr></thead><tbody>",
    );
    let rows = write_stat_rows(&panel.legends, &numbers.stats);
    s.append(rows.as_str());
    s.append("</tbody></table></section>");
    s
}

/// Whether the numbers are those of panels, one for each.
pub open spec fn all_fit(numbers: Seq<Numbers>, panels: Seq<PanelView>) -> bool {
    numbers.len() == panels.len() && forall|i: int|
        0 <= i < panels.len() ==> fit(#[trigger] numbers[i], panels[i])
}

/// Tests whether a text is a printed number.
fn reads_as_number(s: &str) -> (r: bool)
    ensures
        r == is_number_text(s@),
{
    let chars = chars_of(s);
    if chars.len() > NUMBER_LENGTH {
        return false;
    }
    let mut i: usize = 0;
    while i < chars.len()
        invariant
            i <= chars@.len(),
            chars@ == s@,
            forall|j: int| 0 <= j < i ==> is_number_char(#[trigger] s@[j]),
        decreases chars@.len() - i,
    {
        let c: char = chars[i];
        if !(CharClass::Digit.test(c) || c == '.' || c == ',' || c == '-') {
            assert(!is_number_char(s@[i as int]));
            return false;
        }
        i = i + 1;
    }
    true
}

fn read_as_numbers(texts: &Vec<String>) -> (r: bool)
    ensures
        r == are_number_texts(text::views(texts@)),
{
    let mut i: usize = 0;
    while i < texts.len()
        invariant
            i <= texts@.len(),
            forall|j: int| 0 <= j < i ==> is_number_text(#[trigger] text::views(texts@)[j]),
        decreases texts@.len() - i,
    {
        if !reads_as_number(texts[i].as_str()) {
            assert(!is_number_text(text::views(texts@)[i as int]));
            return false;
        }
        i = i + 1;
    }
    true
}

/// Tests whether the points and statistics of one line of a panel are those of that line.
fn line_fits(numbers: &ChartNumbers, panel: &Panel, i: usize) -> (r: bool)
    requires
        panel@.wf(),
        i < panel.legends@.len(),
        i < numbers.points@.len(),
        i < numbers.stats@.len(),
    ensures
        r == is_line(numbers@, panel@, i as int),
{
    assert(panel@.legends.len() == panel.legends@.len());
    assert(panel@.series_indexes[i as int] < panel::PLOT_VALUES);
    assert forall|k: int| 0 <= k < panel.rows@.len() implies panel.series_indexes@[i as int] < (
    #[trigger] panel.rows@[k]).values@.len() by {
        assert(panel@.rows[k] == panel.rows@[k]@);
    }
    let has_samples = series_samples(&panel.rows, panel.series_indexes[i]).len() > 0;
    let points = &numbers.points[i];
    assert(numbers@.points[i as int] == text::views(points@));
    assert(numbers@.stats[i as int] == optional_texts(numbers.stats@[i as int]));
    if points.len() != panel.rows.len() || !read_as_numbers(points) {
        return false;
    }
    match &numbers.stats[i] {
        None => !has_samples,
        Some(cells) => has_samples && cells.len() == STATS && read_as_numbers(cells),
    }
}

/// Tests whether the numbers are those of a panel.
pub fn numbers_fit(numbers: &ChartNumbers, panel: &Panel) -> (r: bool)
    requires
        panel@.wf(),
    ensures
        r == fit(numbers@, panel@),
{
    assert(panel@.legends.len() == panel.legends@.len());
    assert(numbers@.points.len() == numbers.points@.len());
    assert(numbers@.stats.len() == numbers.stats@.len());
    if !(reads_as_number(numbers.max_value.as_str()) && reads_as_number(
        numbers.half_value.as_str(),
    ) && reads_as_number(numbers.max_time.as_str())) {
        return false;
    }
    if numbers.points.len() != panel.legends.len() || numbers.stats.len() != panel.legends.len() {
        return false;
    }
    let mut i: usize = 0;
    while i < panel.legends.len()
        invariant
            i <= panel.legends@.len(),
            panel@.wf(),
            numbers.points@.len() == panel.legends@.len(),
            numbers.stats@.len() == panel.legends@.len(),
            forall|j: int| 0 <= j < i ==> #[trigger] is_line(numbers@, panel@, j),
        decreases panel.legends@.len() - i,
    {
        if !line_fits(numbers, panel, i) {
            assert(panel@.legends.len() == panel.legends@.len());
            assert(!is_line(numbers@, panel@, i as int));
            return false;
        }
        i = i + 1;
    }
    assert(panel@.legends.len() == panel.legends@.len());
    true
}

/// Tests whether the numbers are those of panels, one for each.
pub fn all_numbers_fit(numbers: &Vec<ChartNumbers>, panels: &Vec<Panel>) -> (r: bool)
    requires
        forall|i: int| 0 <= i < panels@.len() ==> (#[trigger] panels@[i])@.wf(),
    ensures
        r == all_fit(text::views(numbers@), text::views(panels@)),
{
    let ghost figures = text::views(numbers@);
    let ghost all = text::views(panels@);
    assert(figures.len() == numbers@.len());
    assert(all.len() == panels@.len());
    if numbers.len() != panels.len() {
        return false;
    }
    let mut i: usize = 0;
    while i < panels.len()
        invariant
            i <= panels@.len(),
            numbers@.len() == panels@.len(),
            figures == text::views(numbers@),
            all == text::views(panels@),
            all.len() == panels@.len(),
            forall|i: int| 0 <= i < panels@.len() ==> (#[trigger] panels@[i])@.wf(),
            forall|j: int| 0 <= j < i ==> fit(#[trigger] figures[j], all[j]),
        decreases panels@.len() - i,
    {
        assert(figures[i as int] == numbers@[i as int]@);
        assert(all[i as int] == panels@[i as int]@);
        if !numbers_fit(&numbers[i], &panels[i]) {
            return false;
        }
        i = i + 1;
    }
    true
}

/// The contents of the report page of a session, and the number of frames it shows. The latest
/// temperature and the numbers of the panels are given as they are to be printed.
pub fn export_session_to_html(
    session: &SessionStore,
    sampling_hz: u64,
    temperature: String,
    numbers: &Vec<ChartNumbers>,
) -> (r: (String, usize))
    requires
        panel::fits_charts(*session),
        all_fit(text::views(numbers@), panel::panels(*session, temperature@)),
    ensures
        r.0@ == page(
            panel::panels(*session, temperature@),
            text::views(numbers@),
            sampling_hz,
        ),
        r.1 == export::all_frames(*session).len(),
{
    let panels = build_panels(session, temperature);
    let ghost all = text::views(panels@);
    let ghost figures = text::views(numbers@);
    assert(all.len() == panels@.len());
    assert(figures.len() == numbers@.len());
    let mut html = String::from_str(
        "<!doctype html><html><head><meta charset=\"utf-8\"><title>PerfDroid Report</title><style>body{font-family:Arial,sans-serif;background:#F3EBDD;color:#222;padding:24px}h1{margin:0 0 6px}h2{margin:0 0 10px;text-align:center}.panel{background:#FFF9F1;border:1px solid #ddd;border-radius:12px;padding:16px;margin-bottom:16px}.cards{display:flex;flex-wrap:wrap;gap:8px;justify-content:center;margin-bottom:10px}.card{background:#F7EEE0;border:1px solid #ddd;border-radius:8px;padding:8px 12px;min-width:120px;text-align:center}.legend{display:flex;flex-wrap:wrap;gap:8px;margin-top:8px}.legend i{display:inline-block;width:14px;height:3px;vertical-align:middle;margin-right:6px}table{width:100%;border-collapse:collapse;margin-top:10px;background:#fff}th,td{border:1px solid #ddd;padding:6px 8px;text-align:left;font-size:12px}.muted{color:#666}</style></head><body><h1>PerfDroid</h1><p class=\"muted\">sampling_hz: ",
    );
    let hz = write_u64(sampling_hz);
    html.append(hz.as_str());
    html.append(" Hz | time_precision: ");
    let precision = write_u64(time_precision_for_hz(sampling_hz) as u64);
    html.append(precision.as_str());
    html.append(" decimal places (time label precision) | state: exported</p>");
    let mut sections = String::new();
    let mut i: usize = 0;
    assert(all.take(0) =~= Seq::empty());
    assert(sections@ =~= Seq::empty());
    while i < panels.len()
        invariant
            i <= panels@.len(),
            all == text::views(panels@),
            figures == text::views(numbers@),
            all.len() == panels@.len(),
            numbers@.len() == panels@.len(),
            all_fit(figures, all),
            sections@ == panel_sections(all.take(i as int), figures),
        decreases panels@.len() - i,
    {
        assert(all.take(i + 1).drop_last() =~= all.take(i as int));
        assert(all.take(i + 1).last() == panels@[i as int]@);
        assert(figures[i as int] == numbers@[i as int]@);
        assert(fit(figures[i as int], all[i as int]));
        let section = render_panel(&panels[i], &numbers[i]);
        sections.append(section.as_str());
        i = i + 1;
    }
    assert(all.take(i as int) =~= all);
    html.append(sections.as_str());
    html.append("</body></html>");
    let frames = export::collect_frames(session);
    assert(frames@.unref().len() == frames@.len());
    (html, frames.len())
}

// ---------------------------------------------------------------------------
// What the page shows
// ---------------------------------------------------------------------------

/// The samples of a line are the positive values at its place, in the order of the rows.
pub proof fn law_samples(rows: Seq<(u64, Seq<i64>)>, row: (u64, Seq<i64>), place: int)
    ensures
        row.1[place] > 0 ==> samples(rows.push(row), place) == samples(rows, place).push(
            row.1[place],
        ),
        row.1[place] <= 0 ==> samples(rows.push(row), place) == samples(rows, place),
        samples(Seq::empty(), place).len() == 0,
{
    assert(rows.push(row).drop_last() =~= rows);
}

/// No value of a line of a chart is above its highest value, which is one of them or zero.
pub proof fn law_peak_is_the_highest(
    rows: Seq<(u64, Seq<i64>)>,
    places: Seq<usize>,
    peak: i64,
    i: int,
    j: int,
)
    requires
        is_peak(rows, places, peak),
        0 <= i < rows.len(),
        0 <= j < places.len(),
    ensures
        rows[i].1[places[j] as int] <= peak,
        peak == 0 || exists|k: int, l: int|
            0 <= k < rows.len() && 0 <= l < places.len() && (#[trigger] rows[k]).1[(
            #[trigger] places[l]) as int] == peak,
        peak >= 0,
{
}

/// Each line of a chart is drawn through its own points in the colour of its own name.
pub proof fn law_lines_have_their_colors(
    points: Seq<Seq<Seq<char>>>,
    legends: Seq<(Seq<char>, Seq<char>)>,
    i: int,
)
    requires
        0 <= i < legends.len(),
        text::join(points[i], " "@).len() > 0,
    ensures
        text::contains(
            chart_lines(points, legends),
            "points=\""@ + text::join(points[i], " "@) + "\" fill=\"none\" stroke=\""@
                + legends[i].1 + "\""@,
        ),
    decreases legends.len(),
{
    let p = "points=\""@ + text::join(points[i], " "@) + "\" fill=\"none\" stroke=\""@
        + legends[i].1 + "\""@;
    let before = legends.drop_last();
    let n = legends.len() - 1;
    let none = Seq::<char>::empty();
    if i < n {
        law_lines_have_their_colors(points, before, i);
        text::lemma_contains_within(
            none,
            chart_lines(points, before),
            chart_line(points[n], legends.last().1),
            p,
        );
        assert(none + chart_lines(points, before) =~= chart_lines(points, before));
    } else {
        reveal_strlit("<polyline points=\"");
        reveal_strlit("points=\"");
        reveal_strlit("\" stroke-width=\"2\"/>");
        reveal_strlit("\"");
        let line = chart_line(points[n], legends.last().1);
        assert(line.subrange(10, 10 + p.len() as int) =~= p);
        assert(text::occurs_at(line, p, 10));
        text::lemma_contains_within(chart_lines(points, before), line, none, p);
        assert(chart_lines(points, before) + line + none =~= chart_lines(points, legends));
    }
}

/// Each line is named beside a mark of its colour.
pub proof fn law_marks_have_their_colors(legends: Seq<(Seq<char>, Seq<char>)>, i: int)
    requires
        0 <= i < legends.len(),
    ensures
        text::contains(
            legend_marks(legends),
            "<i style=\"background:"@ + legends[i].1 + "\"></i>"@ + export::html_escaped(
                legends[i].0,
            ) + "</span>"@,
        ),
    decreases legends.len(),
{
    let p = "<i style=\"background:"@ + legends[i].1 + "\"></i>"@ + export::html_escaped(
        legends[i].0,
    ) + "</span>"@;
    let before = legends.drop_last();
    let none = Seq::<char>::empty();
    let last = "<span><i style=\"background:"@ + legends.last().1 + "\"></i>"@
        + export::html_escaped(legends.last().0) + "</span>"@;
    assert(legend_marks(before) + last =~= legend_marks(legends));
    if i < legends.len() - 1 {
        law_marks_have_their_colors(before, i);
        text::lemma_contains_within(none, legend_marks(before), last, p);
        assert(none + legend_marks(before) + last =~= legend_marks(legends));
    } else {
        reveal_strlit("<span><i style=\"background:");
        reveal_strlit("<i style=\"background:");
        assert(last.subrange(6, 6 + p.len() as int) =~= p);
        assert(text::occurs_at(last, p, 6));
        text::lemma_contains_within(legend_marks(before), last, none, p);
        assert(legend_marks(before) + last + none =~= legend_marks(legends));
    }
}

/// Each card shows its value below its name.
pub proof fn law_cards_are_shown(cards: Seq<(Seq<char>, Seq<char>)>, i: int)
    requires
        0 <= i < cards.len(),
    ensures
        text::contains(
            card_boxes(cards),
            "<div>"@ + export::html_escaped(cards[i].0) + "</div><div>"@ + export::html_escaped(
                cards[i].1,
            ) + "</div></div>"@,
        ),
    decreases cards.len(),
{
    let p = "<div>"@ + export::html_escaped(cards[i].0) + "</div><div>"@ + export::html_escaped(
        cards[i].1,
    ) + "</div></div>"@;
    let before = cards.drop_last();
    let none = Seq::<char>::empty();
    let last = "<div class=\"card\"><div>"@ + export::html_escaped(cards.last().0)
        + "</div><div>"@ + export::html_escaped(cards.last().1) + "</div></div>"@;
    assert(card_boxes(before) + last =~= card_boxes(cards));
    if i < cards.len() - 1 {
        law_cards_are_shown(before, i);
        text::lemma_contains_within(none, card_boxes(before), last, p);
        assert(none + card_boxes(before) + last =~= card_boxes(cards));
    } else {
        reveal_strlit("<div class=\"card\"><div>");
        reveal_strlit("<div>");
        assert(last.subrange(18, 18 + p.len() as int) =~= p);
        assert(text::occurs_at(last, p, 18));
        text::lemma_contains_within(card_boxes(before), last, none, p);
        assert(card_boxes(before) + last + none =~= card_boxes(cards));
    }
}

/// The statistics of a line stand in one row behind its name, in the order average, minimum,
/// maximum, median, 95th and 99th percentile, standard deviation, variation in percent, range.
pub proof fn law_statistics_stand_behind_their_line(
    legends: Seq<(Seq<char>, Seq<char>)>,
    stats: Seq<Option<Seq<Seq<char>>>>,
    i: int,
)
    requires
        0 <= i < legends.len(),
        stats[i] is Some,
    ensures
        text::contains(
            stat_rows(legends, stats),
            statistics_row(export::html_escaped(legends[i].0), stats[i]->Some_0),
        ),
    decreases legends.len(),
{
    let p = statistics_row(export::html_escaped(legends[i].0), stats[i]->Some_0);
    let before = legends.drop_last();
    let n = legends.len() - 1;
    let rows = stat_rows(before, stats);
    if i < n {
        law_statistics_stand_behind_their_line(before, stats, i);
        if let Some(cells) = stats[n] {
            lemma_next_row(legends, stats);
            text::lemma_contains_left(
                rows,
                statistics_row(export::html_escaped(legends.last().0), cells),
                p,
            );
        }
    } else {
        lemma_next_row(legends, stats);
        text::lemma_contains_self(p);
        text::lemma_contains_right(rows, p, p);
    }
}

proof fn lemma_next_row(
    legends: Seq<(Seq<char>, Seq<char>)>,
    stats: Seq<Option<Seq<Seq<char>>>>,
)
    requires
        legends.len() > 0,
        stats[legends.len() - 1] is Some,
    ensures
        stat_rows(legends, stats) == stat_rows(legends.drop_last(), stats) + statistics_row(
            export::html_escaped(legends.last().0),
            stats[legends.len() - 1]->Some_0,
        ),
{
    let cells = stats[legends.len() - 1]->Some_0;
    lemma_nine_cells(cells);
    lemma_grouped(
        stat_rows(legends.drop_last(), stats),
        "<tr><td>"@,
        export::html_escaped(legends.last().0),
        "</td>"@,
        stat_cells(cells, STATS as nat),
        "</tr>"@,
    );
}

proof fn lemma_grouped(
    before: Seq<char>,
    a: Seq<char>,
    b: Seq<char>,
    c: Seq<char>,
    d: Seq<char>,
    e: Seq<char>,
)
    ensures
        before + a + b + c + d + e == before + (a + b + c + d + e),
{
    assert(before + a + b + c + d + e =~= before + (a + b + c + d + e));
}

/// The row of a line in the table of statistics.
pub open spec fn statistics_row(name: Seq<char>, cells: Seq<Seq<char>>) -> Seq<char> {
    "<tr><td>"@ + name + "</td>"@ + (in_cell(cells[0]) + in_cell(cells[1]) + in_cell(cells[2])
        + in_cell(cells[3]) + in_cell(cells[4]) + in_cell(cells[5]) + in_cell(cells[6]) + in_cell(
        cells[7] + "%"@,
    ) + in_cell(cells[8])) + "</tr>"@
}

/// A text in a cell of a table.
pub open spec fn in_cell(s: Seq<char>) -> Seq<char> {
    "<td>"@ + s + "</td>"@
}

proof fn lemma_nine_cells(cells: Seq<Seq<char>>)
    ensures
        stat_cells(cells, 9) == in_cell(cells[0]) + in_cell(cells[1]) + in_cell(cells[2])
            + in_cell(cells[3]) + in_cell(cells[4]) + in_cell(cells[5]) + in_cell(cells[6])
            + in_cell(cells[7] + "%"@) + in_cell(cells[8]),
{
    lemma_next_cell(cells, 8);
    lemma_next_cell(cells, 7);
    lemma_next_cell(cells, 6);
    lemma_next_cell(cells, 5);
    lemma_next_cell(cells, 4);
    lemma_next_cell(cells, 3);
    lemma_next_cell(cells, 2);
    lemma_next_cell(cells, 1);
    lemma_next_cell(cells, 0);
    assert(stat_cells(cells, 0) + in_cell(stat_text(cells, 0)) =~= in_cell(cells[0]));
}

proof fn lemma_next_cell(cells: Seq<Seq<char>>, n: nat)
    ensures
        stat_cells(cells, n + 1) == stat_cells(cells, n) + in_cell(stat_text(cells, n as int)),
{
    assert(stat_cells(cells, n + 1) =~= stat_cells(cells, n) + in_cell(
        stat_text(cells, n as int),
    ));
}

/// A section of the page shows the title, the cards, the chart, the names of the lines, the note
/// and the statistics of its panel, and the page holds the section of each panel with its own
/// numbers.
pub proof fn law_page_shows_every_panel(
    panels: Seq<PanelView>,
    numbers: Seq<Numbers>,
    hz: u64,
    i: int,
)
    requires
        0 <= i < panels.len(),
    ensures
        text::contains(page(panels, numbers, hz), panel_section(panels[i], numbers[i])),
        text::contains(
            panel_section(panels[i], numbers[i]),
            "<h2>"@ + export::html_escaped(panels[i].title) + "</h2>"@,
        ),
        text::contains(panel_section(panels[i], numbers[i]), card_boxes(panels[i].cards)),
        text::contains(
            panel_section(panels[i], numbers[i]),
            chart_lines(numbers[i].points, panels[i].legends),
        ),
        text::contains(panel_section(panels[i], numbers[i]), legend_marks(panels[i].legends)),
        text::contains(
            panel_section(panels[i], numbers[i]),
            stat_rows(panels[i].legends, numbers[i].stats),
        ),
{
    let section = panel_section(panels[i], numbers[i]);
    lemma_section_is_among(panels, numbers, i);
    text::lemma_contains_within(
        page_head(hz),
        panel_sections(panels, numbers),
        "</body></html>"@,
        section,
    );
    lemma_section_parts(panels[i], numbers[i]);
}

proof fn lemma_section_is_among(panels: Seq<PanelView>, numbers: Seq<Numbers>, i: int)
    requires
        0 <= i < panels.len(),
    ensures
        text::contains(panel_sections(panels, numbers), panel_section(panels[i], numbers[i])),
{
    let f = |k: int| panel_section(panels[k], numbers[k]);
    lemma_sections_in_a_row(panels, numbers, panels.len());
    assert(panels.take(panels.len() as int) =~= panels);
    text::lemma_in_a_row(f, panels.len(), i);
    assert(f(i) == panel_section(panels[i], numbers[i]));
}

#[verifier::rlimit(40)]
proof fn lemma_sections_in_a_row(panels: Seq<PanelView>, numbers: Seq<Numbers>, n: nat)
    requires
        n <= panels.len(),
    ensures
        panel_sections(panels.take(n as int), numbers) == text::in_a_row(
            |k: int| panel_section(panels[k], numbers[k]),
            n,
        ),
    decreases n,
{
    if n > 0 {
        lemma_sections_in_a_row(panels, numbers, (n - 1) as nat);
        text::lemma_first_elements(panels, n as int);
    }
}

/// What stands in a text, or is what is put behind it, stands in both together.
pub proof fn lemma_last_section(before: Seq<char>, last: Seq<char>, p: Seq<char>)
    requires
        text::contains(before, p) || last == p,
    ensures
        text::contains(before + last, p),
{
    if text::contains(before, p) {
        text::lemma_contains_left(before, last, p);
    } else {
        text::lemma_contains_self(p);
        text::lemma_contains_right(before, p, p);
    }
}

proof fn lemma_section_parts(panel: PanelView, numbers: Numbers)
    ensures
        text::contains(
            panel_section(panel, numbers),
            "<h2>"@ + export::html_escaped(panel.title) + "</h2>"@,
        ),
        text::contains(panel_section(panel, numbers), card_boxes(panel.cards)),
        text::contains(
            panel_section(panel, numbers),
            chart_lines(numbers.points, panel.legends),
        ),
        text::contains(panel_section(panel, numbers), legend_marks(panel.legends)),
        text::contains(
            panel_section(panel, numbers),
            stat_rows(panel.legends, numbers.stats),
        ),
{
    let t1 = "<section class=\"panel\"><h2>"@ + export::html_escaped(panel.title)
        + "</h2><div class=\"cards\">"@;
    let cards = card_boxes(panel.cards);
    let drawing = chart(panel, numbers, 1080, 240);
    let lines = chart_lines(numbers.points, panel.legends);
    let marks = legend_marks(panel.legends);
    let n1 = "</div><div class=\"muted\" style=\"margin-top:8px\">"@;
    let n2 = export::html_escaped(panel.footer);
    let n3 =
        "</div><table><thead><tr><th>series</th><th>avg</th><th>min</th><th>max</th><th>median</th><th>p95</th><th>p99</th><th>stddev</th><th>cv</th><th>range</th></tr></thead><tbody>"@;
    let rows = stat_rows(panel.legends, numbers.stats);
    let end = "</tbody></table></section>"@;
    let t2 = t1 + cards;
    let t3 = t2 + "</div>"@;
    let t4 = t3 + drawing;
    let t5 = t4 + "<div class=\"legend\">"@;
    let t6 = t5 + marks;
    let t7 = t6 + n1 + n2 + n3;
    let t8 = t7 + rows;
    assert(panel_section(panel, numbers) == t8 + end);
    lemma_heading(export::html_escaped(panel.title));
    let h2 = "<h2>"@ + export::html_escaped(panel.title) + "</h2>"@;
    lemma_stays(t1, cards, "</div>"@, drawing, "<div class=\"legend\">"@, marks, h2);
    lemma_stays(t6, n1, n2, n3, rows, end, h2);
    text::lemma_contains_self(cards);
    text::lemma_contains_right(t1, cards, cards);
    lemma_stays(t2, "</div>"@, drawing, "<div class=\"legend\">"@, marks, n1, cards);
    lemma_stays(t6 + n1, n2, n3, rows, end, Seq::empty(), cards);
    text::lemma_contains_self(lines);
    let frame = chart_frame(1080, 240) + chart_scales(numbers, panel.unit, 1080, 240);
    text::lemma_contains_right(frame, lines, lines);
    text::lemma_contains_left(frame + lines, "</svg>"@, lines);
    text::lemma_contains_right(t3, drawing, lines);
    lemma_stays(t4, "<div class=\"legend\">"@, marks, n1, n2, n3, lines);
    lemma_stays(t7, rows, end, Seq::empty(), Seq::empty(), Seq::empty(), lines);
    text::lemma_contains_self(marks);
    text::lemma_contains_right(t5, marks, marks);
    lemma_stays(t6, n1, n2, n3, rows, end, marks);
    text::lemma_contains_self(rows);
    text::lemma_contains_right(t7, rows, rows);
    text::lemma_contains_left(t8, end, rows);
    assert(t8 + end + Seq::<char>::empty() =~= t8 + end);
    assert(t8 + end + Seq::<char>::empty() + Seq::<char>::empty() =~= t8 + end);
    assert(t8 + end + Seq::<char>::empty() + Seq::<char>::empty() + Seq::<char>::empty() =~= t8
        + end);
}

proof fn lemma_heading(title: Seq<char>)
    ensures
        text::contains(
            "<section class=\"panel\"><h2>"@ + title + "</h2><div class=\"cards\">"@,
            "<h2>"@ + title + "</h2>"@,
        ),
{
    reveal_strlit("<section class=\"panel\"><h2>");
    reveal_strlit("<h2>");
    reveal_strlit("</h2>");
    reveal_strlit("</h2><div class=\"cards\">");
    let whole = "<section class=\"panel\"><h2>"@ + title + "</h2><div class=\"cards\">"@;
    let p = "<h2>"@ + title + "</h2>"@;
    assert(whole.subrange(23, 23 + p.len() as int) =~= p);
    assert(text::occurs_at(whole, p, 23));
}

proof fn lemma_stays(
    a: Seq<char>,
    b: Seq<char>,
    c: Seq<char>,
    d: Seq<char>,
    e: Seq<char>,
    f: Seq<char>,
    p: Seq<char>,
)
    requires
        text::contains(a, p),
    ensures
        text::contains(a + b + c + d + e + f, p),
{
    text::lemma_contains_left(a, b, p);
    text::lemma_contains_left(a + b, c, p);
    text::lemma_contains_left(a + b + c, d, p);
    text::lemma_contains_left(a + b + c + d, e, p);
    text::lemma_contains_left(a + b + c + d + e, f, p);
}

/// The highest value of a chart stands at its upper edge and half of it in the middle, both with the
/// unit, and the time of the last row at its right edge.
pub proof fn law_scales(numbers: Numbers, unit: Seq<char>, width: nat, height: nat)
    requires
        width >= 100,
        height >= 100,
    ensures
        ({
            let scales = chart_scales(numbers, unit, width, height);
            let shown = export::html_escaped(unit);
            let style = " font-size=\"11\" fill=\"#666\">"@;
            &&& text::contains(
                scales,
                attribute("y"@, 26) + style + numbers.max_value + " "@ + shown,
            )
            &&& text::contains(
                scales,
                half_text((height - 10) as nat) + "\" font-size=\"11\" fill=\"#666\">"@
                    + numbers.half_value + " "@ + shown,
            )
            &&& text::contains(
                scales,
                attribute("x"@, (width - 48) as nat) + attribute("y"@, (height - 12) as nat) + style
                    + numbers.max_time + "s</text>"@,
            )
        }),
{
    let shown = export::html_escaped(unit);
    let style = " font-size=\"11\" fill=\"#666\">"@;
    let bottom = plot_bottom(height);
    let right = plot_right(width);
    lemma_scales(
        "<text x=\"8\""@,
        attribute("y"@, 26),
        style,
        numbers.max_value,
        " "@,
        shown,
        "</text><text x=\"8\" y=\""@,
        half_text((PLOT_TOP + bottom) as nat),
        "\" font-size=\"11\" fill=\"#666\">"@,
        numbers.half_value,
        "</text><text x=\"8\""@,
        attribute("y"@, bottom),
        " font-size=\"11\" fill=\"#666\">0 "@,
        "</text><text"@,
        attribute("x"@, PLOT_LEFT as nat),
        attribute("y"@, bottom + 14),
        " font-size=\"11\" fill=\"#666\">0.0s</text><text"@,
        attribute("x"@, (right - 32) as nat),
        numbers.max_time,
        "s</text>"@,
    );
}

proof fn lemma_scales(
    a: Seq<char>,
    top: Seq<char>,
    style: Seq<char>,
    max: Seq<char>,
    blank: Seq<char>,
    unit: Seq<char>,
    b: Seq<char>,
    middle: Seq<char>,
    c: Seq<char>,
    half: Seq<char>,
    d: Seq<char>,
    e: Seq<char>,
    f: Seq<char>,
    g: Seq<char>,
    h: Seq<char>,
    low: Seq<char>,
    k: Seq<char>,
    edge: Seq<char>,
    time: Seq<char>,
    end: Seq<char>,
)
    ensures
        ({
            let all = a + top + style + max + blank + unit + b + middle + c + half + blank + unit
                + d + e + f + unit + g + h + low + k + edge + low + style + time + end;
            &&& text::contains(all, top + style + max + blank + unit)
            &&& text::contains(all, middle + c + half + blank + unit)
            &&& text::contains(all, edge + low + style + time + end)
        }),
{
    let all = a + top + style + max + blank + unit + b + middle + c + half + blank + unit + d + e
        + f + unit + g + h + low + k + edge + low + style + time + end;
    let p = top + style + max + blank + unit;
    let q = middle + c + half + blank + unit;
    let r = edge + low + style + time + end;
    let i = a.len() as int;
    let j = i + p.len() + b.len();
    let l = all.len() - r.len();
    assert(all =~= a + p + b + q + (d + e + f + unit + g + h + low + k) + r);
    assert((a + p + b + q + (d + e + f + unit + g + h + low + k) + r).subrange(i, i + p.len())
        =~= p);
    assert(text::occurs_at(all, p, i));
    assert((a + p + b + q + (d + e + f + unit + g + h + low + k) + r).subrange(j, j + q.len())
        =~= q);
    assert(text::occurs_at(all, q, j));
    assert((a + p + b + q + (d + e + f + unit + g + h + low + k) + r).subrange(l, l + r.len())
        =~= r);
    assert(text::occurs_at(all, r, l));
}

} // verus!
