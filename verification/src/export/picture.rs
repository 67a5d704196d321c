//! The report picture.

use vstd::prelude::*;

use crate::export;
use crate::export::page;
use crate::export::page::{
    push_attribute, render_line_chart_svg, write_stat, ChartNumbers, Numbers, STATS,
};
use crate::export::panel;
use crate::export::panel::{build_panels, Card, Legend, Panel, PanelView};
use crate::export::xml_escape;
use crate::number;
use crate::number::write_u128;
use crate::storage::SessionStore;
use crate::text;

verus! {

/// The cards of a panel.
pub open spec fn card_shapes(cards: Seq<(Seq<char>, Seq<char>)>) -> Seq<char>
    decreases cards.len(),
{
    if cards.len() == 0 {
        Seq::empty()
    } else {
        card_shapes(cards.drop_last()) + "<g transform=\"translate("@ + number::decimal(
            (16 + (cards.len() - 1) * 180) as nat,
        )
            + ",48)\"><rect x=\"0\" y=\"0\" width=\"170\" height=\"54\" rx=\"8\" fill=\"#F7EEE0\" stroke=\"#ddd\"/><text x=\"85\" y=\"21\" text-anchor=\"middle\" font-size=\"12\" fill=\"#222\">"@
            + export::html_escaped(cards.last().0)
            + "</text><text x=\"85\" y=\"40\" text-anchor=\"middle\" font-size=\"13\" fill=\"#222\">"@
            + export::html_escaped(cards.last().1) + "</text></g>"@
    }
}

/// The names of the lines of a panel.
pub open spec fn legend_shapes(legends: Seq<(Seq<char>, Seq<char>)>) -> Seq<char>
    decreases legends.len(),
{
    if legends.len() == 0 {
        Seq::empty()
    } else {
        let x = 16 + (legends.len() - 1) * 190;
        legend_shapes(legends.drop_last()) + "<line"@ + page::attribute("x1"@, x as nat)
            + " y1=\"340\""@ + page::attribute("x2"@, (x + 14) as nat)
            + " y2=\"340\" stroke=\""@ + legends.last().1 + "\" stroke-width=\"3\"/><text"@
            + page::attribute("x"@, (x + 20) as nat)
            + " y=\"344\" font-size=\"12\" fill=\"#222\">"@ + export::html_escaped(
            legends.last().0,
        ) + "</text>"@
    }
}

/// The left edge of a column of the table.
pub open spec fn column_left(column: int) -> nat {
    if column <= 0 {
        16
    } else {
        (146 + (column - 1) * 90) as nat
    }
}

/// The width of a column of the table.
pub open spec fn column_width(column: int) -> nat {
    if column == 0 {
        130
    } else {
        90
    }
}

/// A cell of the table.
pub open spec fn cell_shape(column: int, top: nat, content: Seq<char>) -> Seq<char> {
    "<rect"@ + page::attribute("x"@, column_left(column)) + page::attribute("y"@, top)
        + page::attribute("width"@, column_width(column))
        + " height=\"18\" fill=\"#fff\" stroke=\"#ddd\"/><text"@ + page::attribute(
        "x"@,
        column_left(column) + 4,
    ) + page::attribute("y"@, top + 13) + " font-size=\"11\" fill=\"#222\">"@ + content
        + "</text>"@
}

/// The heading of a column of the table.
pub open spec fn column_name(column: int) -> &'static str {
    if column == 0 {
        "series"
    } else if column == 1 {
        "avg"
    } else if column == 2 {
        "min"
    } else if column == 3 {
        "max"
    } else if column == 4 {
        "median"
    } else if column == 5 {
        "p95"
    } else if column == 6 {
        "p99"
    } else if column == 7 {
        "stddev"
    } else if column == 8 {
        "cv"
    } else {
        "range"
    }
}

/// The headings of the first columns of the table.
pub open spec fn heading_shapes(n: nat) -> Seq<char>
    decreases n,
{
    if n == 0 {
        Seq::empty()
    } else {
        heading_shapes((n - 1) as nat) + cell_shape(n - 1, 378, column_name(n - 1)@)
    }
}

/// The first statistics of a line, in the columns behind its name.
pub open spec fn stat_shapes(cells: Seq<Seq<char>>, top: nat, n: nat) -> Seq<char>
    decreases n,
{
    if n == 0 {
        Seq::empty()
    } else {
        stat_shapes(cells, top, (n - 1) as nat) + cell_shape(
            n as int,
            top,
            export::html_escaped(page::stat_text(cells, n - 1)),
        )
    }
}

/// The number of lines that have statistics.
pub open spec fn stat_count(stats: Seq<Option<Seq<Seq<char>>>>) -> nat
    decreases stats.len(),
{
    if stats.len() == 0 {
        0
    } else {
        stat_count(stats.drop_last()) + if stats.last() is Some {
            1nat
        } else {
            0nat
        }
    }
}

/// The statistics of the lines that have some, one below the other.
pub open spec fn table_rows(
    legends: Seq<(Seq<char>, Seq<char>)>,
    stats: Seq<Option<Seq<Seq<char>>>>,
) -> Seq<char>
    decreases legends.len(),
{
    if legends.len() == 0 {
        Seq::empty()
    } else {
        let before = table_rows(legends.drop_last(), stats);
        let line = legends.len() - 1;
        let top = (378 + 18 * (stat_count(stats.take(line)) + 1)) as nat;
        match stats[line] {
            Some(cells) => before + cell_shape(0, top, export::html_escaped(legends.last().0))
                + stat_shapes(cells, top, STATS as nat),
            None => before,
        }
    }
}

/// A panel of the picture.
pub open spec fn panel_shape(panel: PanelView, numbers: Numbers, place: nat) -> Seq<char> {
    "<g transform=\"translate(20,"@ + number::decimal((20 + place * 440) as nat)
        + ")\"><rect x=\"0\" y=\"0\" width=\"1160\" height=\"420\" rx=\"12\" fill=\"#FFF9F1\" stroke=\"#ddd\"/><text x=\"580\" y=\"30\" text-anchor=\"middle\" font-size=\"24\" fill=\"#222\">"@
        + export::html_escaped(panel.title) + "</text>"@ + card_shapes(panel.cards)
        + "<g transform=\"translate(16,112)\">"@ + page::chart(panel, numbers, 1128, 220) + "</g>"@
        + legend_shapes(panel.legends) + "<text x=\"16\" y=\"366\" font-size=\"12\" fill=\"#666\">"@
        + export::html_escaped(panel.footer) + "</text>"@ + heading_shapes(10) + table_rows(
        panel.legends,
        numbers.stats,
    ) + "</g>"@
}

/// The panels of the picture.
pub open spec fn panel_shapes(panels: Seq<PanelView>, numbers: Seq<Numbers>) -> Seq<char>
    decreases panels.len(),
{
    if panels.len() == 0 {
        Seq::empty()
    } else {
        let place = (panels.len() - 1) as nat;
        panel_shapes(panels.drop_last(), numbers) + panel_shape(
            panels.last(),
            numbers[place as int],
            place,
        )
    }
}

/// The height of a picture of panels.
pub open spec fn picture_height(count: nat) -> nat {
    20 + count * 440
}

/// The width of a picture of panels.
pub const PICTURE_WIDTH: u64 = 1200;

/// The tag that opens a picture of a size.
pub open spec fn root_tag(width: nat, height: nat) -> Seq<char> {
    "<svg xmlns=\"http://www.w3.org/2000/svg\" width=\""@ + number::decimal(width)
        + "\" height=\""@ + number::decimal(height) + "\" viewBox=\"0 0 "@ + number::decimal(
        width,
    ) + " "@ + number::decimal(height) + "\">"@
}

/// The picture.
pub open spec fn picture(panels: Seq<PanelView>, numbers: Seq<Numbers>) -> Seq<char> {
    root_tag(PICTURE_WIDTH as nat, picture_height(panels.len()))
        + "<style>text{font-family:Arial,Helvetica,sans-serif;}</style><rect width=\"100%\" height=\"100%\" fill=\"#F3EBDD\"/>"@
        + panel_shapes(panels, numbers) + "</svg>"@
}

/// Whether a text is a picture of panels whose texts are printable ASCII, whose colours are colours
/// and whose numbers are printed numbers. All its tags are those that `picture` writes: shapes,
/// letters and groups, none of them within more than four others, and no filters, images or links.
pub open spec fn is_plain_picture(svg: Seq<char>) -> bool {
    exists|panels: Seq<PanelView>, numbers: Seq<Numbers>|
        page::all_fit(numbers, panels) && are_plain(panels) && svg == #[trigger] picture(
            panels,
            numbers,
        )
}

/// Whether all panels are plain.
pub open spec fn are_plain(panels: Seq<PanelView>) -> bool {
    forall|i: int| 0 <= i < panels.len() ==> panel::is_plain(#[trigger] panels[i])
}

/// The cards of a panel.
pub fn render_cards_svg(cards: &Vec<Card>) -> (r: String)
    ensures
        r@ == card_shapes(text::views(cards@)),
{
    let ghost all = text::views(cards@);
    let mut s = String::new();
    let mut i: usize = 0;
    assert(all.take(0) =~= Seq::empty());
    assert(s@ =~= Seq::empty());
    while i < cards.len()
        invariant
            i <= cards@.len(),
            all == text::views(cards@),
            s@ == card_shapes(all.take(i as int)),
        decreases cards@.len() - i,
    {
        assert(all.take(i + 1).drop_last() =~= all.take(i as int));
        assert(all.take(i + 1).last() == cards@[i as int]@);
        s.append("<g transform=\"translate(");
        let x = write_u128(16 + (i as u128) * 180);
        s.append(x.as_str());
        s.append(
            ",48)\"><rect x=\"0\" y=\"0\" width=\"170\" height=\"54\" rx=\"8\" fill=\"#F7EEE0\" stroke=\"#ddd\"/><text x=\"85\" y=\"21\" text-anchor=\"middle\" font-size=\"12\" fill=\"#222\">",
        );
        let name = xml_escape(cards[i].name.as_str());
        s.append(name.as_str());
        s.append(
            "</text><text x=\"85\" y=\"40\" text-anchor=\"middle\" font-size=\"13\" fill=\"#222\">",
        );
        let value = xml_escape(cards[i].value.as_str());
        s.append(value.as_str());
        s.append("</text></g>");
        i = i + 1;
    }
    assert(all.take(i as int) =~= all);
    s
}

/// The names of the lines of a panel.
pub fn render_legend_svg(legends: &Vec<Legend>) -> (r: String)
    ensures
        r@ == legend_shapes(text::views(legends@)),
{
    let ghost all = text::views(legends@);
    let mut s = String::new();
    let mut i: usize = 0;
    assert(all.take(0) =~= Seq::empty());
    assert(s@ =~= Seq::empty());
    while i < legends.len()
        invariant
            i <= legends@.len(),
            all == text::views(legends@),
            s@ == legend_shapes(all.take(i as int)),
        decreases legends@.len() - i,
    {
        assert(all.take(i + 1).drop_last() =~= all.take(i as int));
        assert(all.take(i + 1).last() == legends@[i as int]@);
        let x: u128 = 16 + (i as u128) * 190;
        s.append("<line");
        push_attribute(&mut s, "x1", x);
        s.append(" y1=\"340\"");
        push_attribute(&mut s, "x2", x + 14);
        s.append(" y2=\"340\" stroke=\"");
        s.append(legends[i].color);
        s.append("\" stroke-width=\"3\"/><text");
        push_attribute(&mut s, "x", x + 20);
        s.append(" y=\"344\" font-size=\"12\" fill=\"#222\">");
        let label = xml_escape(legends[i].label.as_str());
        s.append(label.as_str());
        s.append("</text>");
        i = i + 1;
    }
    assert(all.take(i as int) =~= all);
    s
}

fn write_cell(column: usize, top: u128, content: &str) -> (r: String)
    requires
        column <= 9,
        top <= 0x1_0000_0000_0000_0000_0000_0000,
    ensures
        r@ == cell_shape(column as int, top as nat, content@),
{
    let left: u128 = if column == 0 {
        16
    } else {
        146 + (column as u128 - 1) * 90
    };
    let width: u128 = if column == 0 {
        130
    } else {
        90
    };
    let mut s = String::from_str("<rect");
    push_attribute(&mut s, "x", left);
    push_attribute(&mut s, "y", top);
    push_attribute(&mut s, "width", width);
    s.append(" height=\"18\" fill=\"#fff\" stroke=\"#ddd\"/><text");
    push_attribute(&mut s, "x", left + 4);
    push_attribute(&mut s, "y", top + 13);
    s.append(" font-size=\"11\" fill=\"#222\">");
    s.append(content);
    s.append("</text>");
    s
}

fn heading(column: usize) -> (r: &'static str)
    ensures
        r@ == column_name(column as int)@,
{
    if column == 0 {
        "series"
    } else if column == 1 {
        "avg"
    } else if column == 2 {
        "min"
    } else if column == 3 {
        "max"
    } else if column == 4 {
        "median"
    } else if column == 5 {
        "p95"
    } else if column == 6 {
        "p99"
    } else if column == 7 {
        "stddev"
    } else if column == 8 {
        "cv"
    } else {
        "range"
    }
}

fn write_headings() -> (r: String)
    ensures
        r@ == heading_shapes(10),
{
    let mut s = String::new();
    let mut column: usize = 0;
    assert(s@ =~= Seq::empty());
    while column < 10
        invariant
            column <= 10,
            s@ == heading_shapes(column as nat),
        decreases 10 - column,
    {
        let cell = write_cell(column, 378, heading(column));
        s.append(cell.as_str());
        column = column + 1;
    }
    s
}

fn write_stat_shapes(cells: &Vec<String>, top: u128) -> (r: String)
    requires
        cells@.len() == STATS,
        top <= 0x1_0000_0000_0000_0000_0000_0000,
    ensures
        r@ == stat_shapes(text::views(cells@), top as nat, STATS as nat),
{
    let mut s = String::new();
    let mut i: usize = 0;
    assert(s@ =~= Seq::empty());
    while i < STATS
        invariant
            i <= STATS,
            cells@.len() == STATS,
            top <= 0x1_0000_0000_0000_0000_0000_0000,
            s@ == stat_shapes(text::views(cells@), top as nat, i as nat),
        decreases STATS - i,
    {
        let content = write_stat(cells, i);
        let content = xml_escape(content.as_str());
        let cell = write_cell(i + 1, top, content.as_str());
        s.append(cell.as_str());
        i = i + 1;
    }
    s
}

/// The table of the statistics of a panel.
pub fn render_stats_table_svg(legends: &Vec<Legend>, stats: &Vec<Option<Vec<String>>>) -> (r: String)
    requires
        stats@.len() == legends@.len(),
        forall|i: int|
            0 <= i < stats@.len() ==> ((#[trigger] stats@[i]) matches Some(cells) ==> cells@.len()
                == STATS),
    ensures
        r@ == heading_shapes(10) + table_rows(
            text::views(legends@),
            stats@.map_values(|cells: Option<Vec<String>>| page::optional_texts(cells)),
        ),
{
    let ghost all = text::views(legends@);
    let ghost figures = stats@.map_values(
        |cells: Option<Vec<String>>| page::optional_texts(cells),
    );
    let mut headings = write_headings();
    let mut s = String::new();
    let mut count: u128 = 0;
    let mut i: usize = 0;
    assert(all.take(0) =~= Seq::empty());
    assert(figures.take(0) =~= Seq::empty());
    assert(s@ =~= Seq::empty());
    while i < legends.len()
        invariant
            i <= legends@.len(),
            stats@.len() == legends@.len(),
            all == text::views(legends@),
            figures == stats@.map_values(
                |cells: Option<Vec<String>>| page::optional_texts(cells),
            ),
            forall|i: int|
                0 <= i < stats@.len() ==> ((#[trigger] stats@[i]) matches Some(cells)
                    ==> cells@.len() == STATS),
            count == stat_count(figures.take(i as int)),
            count <= i,
            s@ == table_rows(all.take(i as int), figures),
        decreases legends@.len() - i,
    {
        assert(all.take(i + 1).drop_last() =~= all.take(i as int));
        assert(all.take(i + 1).last() == legends@[i as int]@);
        assert(figures.take(i + 1).drop_last() =~= figures.take(i as int));
        assert(figures[i as int] == page::optional_texts(stats@[i as int]));
        if let Some(cells) = &stats[i] {
            let top: u128 = 378 + 18 * (count + 1);
            let label = xml_escape(legends[i].label.as_str());
            let name = write_cell(0, top, label.as_str());
            s.append(name.as_str());
            let row = write_stat_shapes(cells, top);
            s.append(row.as_str());
            count = count + 1;
        }
        i = i + 1;
    }
    assert(all.take(i as int) =~= all);
    headings.append(s.as_str());
    headings
}

fn render_panel_shape(panel: &Panel, numbers: &ChartNumbers, place: usize) -> (r: String)
    requires
        page::fit(numbers@, panel@),
    ensures
        r@ == panel_shape(panel@, numbers@, place as nat),
{
    proof {
        page::lemma_fit(*numbers, *panel);
    }
    let mut s = String::from_str("<g transform=\"translate(20,");
    let y = write_u128(20 + (place as u128) * 440);
    s.append(y.as_str());
    s.append(
        ")\"><rect x=\"0\" y=\"0\" width=\"1160\" height=\"420\" rx=\"12\" fill=\"#FFF9F1\" stroke=\"#ddd\"/><text x=\"580\" y=\"30\" text-anchor=\"middle\" font-size=\"24\" fill=\"#222\">",
    );
    let title = xml_escape(panel.title);
    s.append(title.as_str());
    s.append("</text>");
    let cards = render_cards_svg(&panel.cards);
    s.append(cards.as_str());
    s.append("<g transform=\"translate(16,112)\">");
    let chart = render_line_chart_svg(panel, numbers, 1128, 220);
    s.append(chart.as_str());
    s.append("</g>");
    let legends = render_legend_svg(&panel.legends);
    s.append(legends.as_str());
    s.append("<text x=\"16\" y=\"366\" font-size=\"12\" fill=\"#666\">");
    let footer = xml_escape(panel.footer);
    s.append(footer.as_str());
    s.append("</text>");
    let ghost before = s@;
    let table = render_stats_table_svg(&panel.legends, &numbers.stats);
    s.append(table.as_str());
    assert(s@ =~= before + heading_shapes(10) + table_rows(panel@.legends, numbers@.stats));
    s.append("</g>");
    s
}

/// The picture of panels.
pub fn render_report_svg(panels: &Vec<Panel>, numbers: &Vec<ChartNumbers>) -> (r: String)
    requires
        page::all_fit(text::views(numbers@), text::views(panels@)),
    ensures
        r@ == picture(text::views(panels@), text::views(numbers@)),
{
    let ghost all = text::views(panels@);
    let ghost figures = text::views(numbers@);
    assert(all.len() == panels@.len());
    assert(figures.len() == numbers@.len());
    let width = write_u128(PICTURE_WIDTH as u128);
    let height = write_u128(20 + (panels.len() as u128) * 440);
    let mut s = String::from_str("<svg xmlns=\"http://www.w3.org/2000/svg\" width=\"");
    s.append(width.as_str());
    s.append("\" height=\"");
    s.append(height.as_str());
    s.append("\" viewBox=\"0 0 ");
    s.append(width.as_str());
    s.append(" ");
    s.append(height.as_str());
    s.append("\">");
    s.append(
        "<style>text{font-family:Arial,Helvetica,sans-serif;}</style><rect width=\"100%\" height=\"100%\" fill=\"#F3EBDD\"/>",
    );
    let mut shapes = String::new();
    let mut i: usize = 0;
    assert(all.take(0) =~= Seq::empty());
    assert(shapes@ =~= Seq::empty());
    while i < panels.len()
        invariant
            i <= panels@.len(),
            all == text::views(panels@),
            figures == text::views(numbers@),
            all.len() == panels@.len(),
            numbers@.len() == panels@.len(),
            page::all_fit(figures, all),
            shapes@ == panel_shapes(all.take(i as int), figures),
        decreases panels@.len() - i,
    {
        assert(all.take(i + 1).drop_last() =~= all.take(i as int));
        assert(all.take(i + 1).last() == panels@[i as int]@);
        assert(figures[i as int] == numbers@[i as int]@);
        assert(page::fit(figures[i as int], all[i as int]));
        let shape = render_panel_shape(&panels[i], &numbers[i], i);
        shapes.append(shape.as_str());
        i = i + 1;
    }
    assert(all.take(i as int) =~= all);
    s.append(shapes.as_str());
    s.append("</svg>");
    s
}

/// The report picture of a session. The latest temperature and the numbers of the panels are
/// given as they are to be printed.
pub fn session_picture(session: &SessionStore, temperature: String, numbers: &Vec<ChartNumbers>) -> (r: String)
    requires
        panel::fits_charts(*session),
        page::all_fit(text::views(numbers@), panel::panels(*session, temperature@)),
    ensures
        r@ == picture(panel::panels(*session, temperature@), text::views(numbers@)),
        panel::is_printable(temperature@) ==> is_plain_picture(r@),
{
    proof {
        if panel::is_printable(temperature@) {
            panel::lemma_panels_are_plain(*session, temperature@);
            assert(are_plain(panel::panels(*session, temperature@)));
        }
    }
    let panels = build_panels(session, temperature);
    render_report_svg(&panels, numbers)
}

// ---------------------------------------------------------------------------
// What the picture shows
// ---------------------------------------------------------------------------

/// The card at a place: its name above its value.
pub open spec fn card_at(card: (Seq<char>, Seq<char>), place: int) -> Seq<char> {
    "<g transform=\"translate("@ + number::decimal((16 + place * 180) as nat)
        + ",48)\"><rect x=\"0\" y=\"0\" width=\"170\" height=\"54\" rx=\"8\" fill=\"#F7EEE0\" stroke=\"#ddd\"/><text x=\"85\" y=\"21\" text-anchor=\"middle\" font-size=\"12\" fill=\"#222\">"@
        + export::html_escaped(card.0)
        + "</text><text x=\"85\" y=\"40\" text-anchor=\"middle\" font-size=\"13\" fill=\"#222\">"@
        + export::html_escaped(card.1) + "</text></g>"@
}

/// The name of a line at a place, beside a stroke of its colour.
pub open spec fn legend_at(legend: (Seq<char>, Seq<char>), place: int) -> Seq<char> {
    let x = 16 + place * 190;
    "<line"@ + page::attribute("x1"@, x as nat) + " y1=\"340\""@ + page::attribute(
        "x2"@,
        (x + 14) as nat,
    ) + " y2=\"340\" stroke=\""@ + legend.1 + "\" stroke-width=\"3\"/><text"@ + page::attribute(
        "x"@,
        (x + 20) as nat,
    ) + " y=\"344\" font-size=\"12\" fill=\"#222\">"@ + export::html_escaped(legend.0)
        + "</text>"@
}

/// Every card and every name of a line is shown, each at its own place.
pub proof fn law_cards_and_names_are_shown(
    cards: Seq<(Seq<char>, Seq<char>)>,
    legends: Seq<(Seq<char>, Seq<char>)>,
    i: int,
)
    ensures
        0 <= i < cards.len() ==> text::contains(card_shapes(cards), card_at(cards[i], i)),
        0 <= i < legends.len() ==> text::contains(legend_shapes(legends), legend_at(legends[i], i)),
{
    if 0 <= i < cards.len() {
        lemma_card_is_among(cards, i);
    }
    if 0 <= i < legends.len() {
        lemma_legend_is_among(legends, i);
    }
}

proof fn lemma_card_is_among(cards: Seq<(Seq<char>, Seq<char>)>, i: int)
    requires
        0 <= i < cards.len(),
    ensures
        text::contains(card_shapes(cards), card_at(cards[i], i)),
    decreases cards.len(),
{
    let before = cards.drop_last();
    let n = cards.len() - 1;
    if i < n {
        lemma_card_is_among(before, i);
        assert(before[i] == cards[i]);
    }
    lemma_six_parts(
        card_shapes(before),
        "<g transform=\"translate("@,
        number::decimal((16 + n * 180) as nat),
        ",48)\"><rect x=\"0\" y=\"0\" width=\"170\" height=\"54\" rx=\"8\" fill=\"#F7EEE0\" stroke=\"#ddd\"/><text x=\"85\" y=\"21\" text-anchor=\"middle\" font-size=\"12\" fill=\"#222\">"@,
        export::html_escaped(cards.last().0),
        "</text><text x=\"85\" y=\"40\" text-anchor=\"middle\" font-size=\"13\" fill=\"#222\">"@,
        export::html_escaped(cards.last().1),
        "</text></g>"@,
    );
    page::lemma_last_section(card_shapes(before), card_at(cards.last(), n), card_at(cards[i], i));
}

proof fn lemma_six_parts(
    before: Seq<char>,
    a: Seq<char>,
    b: Seq<char>,
    c: Seq<char>,
    d: Seq<char>,
    e: Seq<char>,
    f: Seq<char>,
    g: Seq<char>,
)
    ensures
        before + a + b + c + d + e + f + g == before + (a + b + c + d + e + f + g),
{
    assert(before + a + b + c + d + e + f + g =~= before + (a + b + c + d + e + f + g));
}

proof fn lemma_legend_is_among(legends: Seq<(Seq<char>, Seq<char>)>, i: int)
    requires
        0 <= i < legends.len(),
    ensures
        text::contains(legend_shapes(legends), legend_at(legends[i], i)),
    decreases legends.len(),
{
    let before = legends.drop_last();
    let n = legends.len() - 1;
    if i < n {
        lemma_legend_is_among(before, i);
        assert(before[i] == legends[i]);
    }
    let x = 16 + n * 190;
    let head = "<line"@ + page::attribute("x1"@, x as nat) + " y1=\"340\""@ + page::attribute(
        "x2"@,
        (x + 14) as nat,
    );
    let all = legend_shapes(before);
    lemma_six_parts(
        all,
        "<line"@,
        page::attribute("x1"@, x as nat),
        " y1=\"340\""@,
        page::attribute("x2"@, (x + 14) as nat),
        Seq::empty(),
        Seq::empty(),
        Seq::empty(),
    );
    lemma_six_parts(
        all + head,
        " y2=\"340\" stroke=\""@,
        legends.last().1,
        "\" stroke-width=\"3\"/><text"@,
        page::attribute("x"@, (x + 20) as nat),
        " y=\"344\" font-size=\"12\" fill=\"#222\">"@,
        export::html_escaped(legends.last().0),
        "</text>"@,
    );
    lemma_six_parts(
        head,
        " y2=\"340\" stroke=\""@,
        legends.last().1,
        "\" stroke-width=\"3\"/><text"@,
        page::attribute("x"@, (x + 20) as nat),
        " y=\"344\" font-size=\"12\" fill=\"#222\">"@,
        export::html_escaped(legends.last().0),
        "</text>"@,
    );
    let tail = " y2=\"340\" stroke=\""@ + legends.last().1 + "\" stroke-width=\"3\"/><text"@
        + page::attribute("x"@, (x + 20) as nat) + " y=\"344\" font-size=\"12\" fill=\"#222\">"@
        + export::html_escaped(legends.last().0) + "</text>"@;
    assert(legend_at(legends.last(), n) == head + tail);
    lemma_regrouped(all, head, tail);
    lemma_no_more(all, head);
    assert(legend_shapes(legends) == all + legend_at(legends.last(), n));
    page::lemma_last_section(all, legend_at(legends.last(), n), legend_at(legends[i], i));
}

proof fn lemma_regrouped(a: Seq<char>, b: Seq<char>, c: Seq<char>)
    ensures
        a + b + c == a + (b + c),
{
    assert(a + b + c =~= a + (b + c));
}

proof fn lemma_no_more(a: Seq<char>, b: Seq<char>)
    ensures
        a + Seq::<char>::empty() == a,
        b + Seq::<char>::empty() == b,
{
    assert(a + Seq::<char>::empty() =~= a);
    assert(b + Seq::<char>::empty() =~= b);
}

/// Every panel of the picture is drawn with its own numbers at its own place, below the one before
/// it and within the height of the picture.
pub proof fn law_panels_have_their_places(panels: Seq<PanelView>, numbers: Seq<Numbers>, i: int)
    requires
        0 <= i < panels.len(),
    ensures
        text::contains(picture(panels, numbers), panel_shape(panels[i], numbers[i], i as nat)),
        text::strip_prefix(
            panel_shape(panels[i], numbers[i], i as nat),
            "<g transform=\"translate(20,"@ + number::decimal((20 + i * 440) as nat) + ")\">"@,
        ) is Some,
        20 + i * 440 + 420 + 20 <= picture_height(panels.len()),
        picture_height(panels.len()) == 20 + panels.len() * 440,
        text::strip_prefix(
            picture(panels, numbers),
            root_tag(1200, picture_height(panels.len())),
        ) is Some,
{
    lemma_panel_is_among(panels, numbers, i);
    let p = panel_shape(panels[i], numbers[i], i as nat);
    let tag = root_tag(1200, picture_height(panels.len()));
    let style =
        "<style>text{font-family:Arial,Helvetica,sans-serif;}</style><rect width=\"100%\" height=\"100%\" fill=\"#F3EBDD\"/>"@;
    let shapes = panel_shapes(panels, numbers);
    text::lemma_contains_right(tag + style, shapes, p);
    text::lemma_contains_left(tag + style + shapes, "</svg>"@, p);
    lemma_begins(tag, style, shapes, "</svg>"@);
    lemma_panel_begins(panels[i], numbers[i], i as nat);
}

proof fn lemma_begins(a: Seq<char>, b: Seq<char>, c: Seq<char>, d: Seq<char>)
    ensures
        a.is_prefix_of(a + b + c + d),
{
    assert((a + b + c + d).take(a.len() as int) =~= a);
}

proof fn lemma_panel_begins(panel: PanelView, numbers: Numbers, place: nat)
    ensures
        ("<g transform=\"translate(20,"@ + number::decimal((20 + place * 440) as nat)
            + ")\">"@).is_prefix_of(panel_shape(panel, numbers, place)),
{
    let a = "<g transform=\"translate(20,"@ + number::decimal((20 + place * 440) as nat);
    let b =
        ")\"><rect x=\"0\" y=\"0\" width=\"1160\" height=\"420\" rx=\"12\" fill=\"#FFF9F1\" stroke=\"#ddd\"/><text x=\"580\" y=\"30\" text-anchor=\"middle\" font-size=\"24\" fill=\"#222\">"@;
    let c = export::html_escaped(panel.title);
    let d = card_shapes(panel.cards);
    let e = page::chart(panel, numbers, 1128, 220);
    let f = legend_shapes(panel.legends);
    let g = export::html_escaped(panel.footer);
    let h = heading_shapes(10);
    let k = table_rows(panel.legends, numbers.stats);
    lemma_panel_prefix(a, b, c, d, e, f, g, h, k);
}

proof fn lemma_panel_prefix(
    a: Seq<char>,
    b: Seq<char>,
    c: Seq<char>,
    d: Seq<char>,
    e: Seq<char>,
    f: Seq<char>,
    g: Seq<char>,
    h: Seq<char>,
    k: Seq<char>,
)
    requires
        b
            == ")\"><rect x=\"0\" y=\"0\" width=\"1160\" height=\"420\" rx=\"12\" fill=\"#FFF9F1\" stroke=\"#ddd\"/><text x=\"580\" y=\"30\" text-anchor=\"middle\" font-size=\"24\" fill=\"#222\">"@,
    ensures
        (a + ")\">"@).is_prefix_of(
            a + b + c + "</text>"@ + d + "<g transform=\"translate(16,112)\">"@ + e + "</g>"@ + f
                + "<text x=\"16\" y=\"366\" font-size=\"12\" fill=\"#666\">"@ + g + "</text>"@ + h
                + k + "</g>"@,
        ),
{
    reveal_strlit(")\">");
    reveal_strlit(
        ")\"><rect x=\"0\" y=\"0\" width=\"1160\" height=\"420\" rx=\"12\" fill=\"#FFF9F1\" stroke=\"#ddd\"/><text x=\"580\" y=\"30\" text-anchor=\"middle\" font-size=\"24\" fill=\"#222\">",
    );
    let whole = a + b + c + "</text>"@ + d + "<g transform=\"translate(16,112)\">"@ + e + "</g>"@
        + f + "<text x=\"16\" y=\"366\" font-size=\"12\" fill=\"#666\">"@ + g + "</text>"@ + h + k
        + "</g>"@;
    assert(whole.take(a.len() as int + 3) =~= a + ")\">"@);
}

proof fn lemma_panel_is_among(panels: Seq<PanelView>, numbers: Seq<Numbers>, i: int)
    requires
        0 <= i < panels.len(),
    ensures
        text::contains(panel_shapes(panels, numbers), panel_shape(panels[i], numbers[i], i as nat)),
{
    let f = |k: int| panel_shape(panels[k], numbers[k], k as nat);
    lemma_panels_in_a_row(panels, numbers, panels.len());
    assert(panels.take(panels.len() as int) =~= panels);
    text::lemma_in_a_row(f, panels.len(), i);
    assert(f(i) == panel_shape(panels[i], numbers[i], i as nat));
}

#[verifier::rlimit(40)]
proof fn lemma_panels_in_a_row(panels: Seq<PanelView>, numbers: Seq<Numbers>, n: nat)
    requires
        n <= panels.len(),
    ensures
        panel_shapes(panels.take(n as int), numbers) == text::in_a_row(
            |k: int| panel_shape(panels[k], numbers[k], k as nat),
            n,
        ),
    decreases n,
{
    if n > 0 {
        lemma_panels_in_a_row(panels, numbers, (n - 1) as nat);
        text::lemma_first_elements(panels, n as int);
    }
}

/// The columns of the table stand side by side: each begins where the one before it ends. Their
/// headings name what stands in them: the line, and its statistics in their order.
pub proof fn law_columns_stand_side_by_side(column: int)
    requires
        0 <= column < 9,
    ensures
        column_left(column + 1) == column_left(column) + column_width(column),
        column_left(0) == 16,
        column_name(0)@ == "series"@,
        column_name(1)@ == "avg"@,
        column_name(2)@ == "min"@,
        column_name(3)@ == "max"@,
        column_name(4)@ == "median"@,
        column_name(5)@ == "p95"@,
        column_name(6)@ == "p99"@,
        column_name(7)@ == "stddev"@,
        column_name(8)@ == "cv"@,
        column_name(9)@ == "range"@,
{
}

/// The lines with statistics have a row each in the table, in their order and one below the other:
/// the row begins with the name of the line, and each statistic stands in its column.
pub proof fn law_table_rows(
    legends: Seq<(Seq<char>, Seq<char>)>,
    legend: (Seq<char>, Seq<char>),
    stats: Seq<Option<Seq<Seq<char>>>>,
    n: nat,
)
    requires
        n < 9,
    ensures
        stats[legends.len() as int] is None ==> table_rows(legends.push(legend), stats)
            == table_rows(legends, stats),
        stats[legends.len() as int] is Some ==> table_rows(legends.push(legend), stats)
            == table_rows(legends, stats) + cell_shape(
            0,
            (378 + 18 * (stat_count(stats.take(legends.len() as int)) + 1)) as nat,
            export::html_escaped(legend.0),
        ) + stat_shapes(
            stats[legends.len() as int]->Some_0,
            (378 + 18 * (stat_count(stats.take(legends.len() as int)) + 1)) as nat,
            9,
        ),
        forall|cells: Seq<Seq<char>>, top: nat| #[trigger]
            stat_shapes(cells, top, n + 1) == stat_shapes(cells, top, n) + cell_shape(
                n as int + 1,
                top,
                export::html_escaped(
                    if n == 7 {
                        cells[n as int] + "%"@
                    } else {
                        cells[n as int]
                    },
                ),
            ),
        forall|s: Seq<Option<Seq<Seq<char>>>>, cells: Seq<Seq<char>>| #[trigger]
            stat_count(s.push(Some(cells))) == stat_count(s) + 1,
        forall|s: Seq<Option<Seq<Seq<char>>>>| #[trigger]
            stat_count(s.push(None)) == stat_count(s),
        stat_count(Seq::empty()) == 0,
{
    assert(legends.push(legend).drop_last() =~= legends);
    assert forall|s: Seq<Option<Seq<Seq<char>>>>, cells: Seq<Seq<char>>| #[trigger]
        stat_count(s.push(Some(cells))) == stat_count(s) + 1 by {
        assert(s.push(Some(cells)).drop_last() =~= s);
    }
    assert forall|s: Seq<Option<Seq<Seq<char>>>>| #[trigger]
        stat_count(s.push(None)) == stat_count(s) by {
        assert(s.push(None).drop_last() =~= s);
    }
}

} // verus!
