//! What can be read back from the exported files.

use vstd::prelude::*;

use crate::export;
use crate::export::Row;
use crate::number;
use crate::profiler::power_supply;
use crate::storage::SessionStore;
use crate::text;
use crate::text::CharClass;

verus! {

// ---------------------------------------------------------------------------
// A reader of tables
// ---------------------------------------------------------------------------

/// Where a reader of a table stands.
pub enum Place {
    /// Outside of quotes.
    Outside,
    /// Within quotes.
    Inside,
    /// Behind a quote that ends a quoted part, or is the first of a doubled one.
    Behind,
}

/// What a reader of a table has read.
pub struct Table {
    /// The lines that have ended, as cells.
    pub lines: Seq<Seq<Seq<char>>>,
    /// The cells of the line that has not ended.
    pub cells: Seq<Seq<char>>,
    /// The cell that has not ended.
    pub cell: Seq<char>,
    /// Where the reader stands.
    pub place: Place,
}

/// A reader that has read nothing but whole lines.
pub open spec fn at_line_start(lines: Seq<Seq<Seq<char>>>) -> Table {
    Table { lines, cells: Seq::empty(), cell: Seq::empty(), place: Place::Outside }
}

impl Table {
    /// The cells of the line that has not ended, with the one that has not ended.
    pub open spec fn all_cells(self) -> Seq<Seq<char>> {
        self.cells.push(self.cell)
    }

    /// One more character in the cell.
    pub open spec fn with_char(self, c: char, place: Place) -> Table {
        Table { cell: self.cell.push(c), place, ..self }
    }

    /// The same at another place.
    pub open spec fn moved(self, place: Place) -> Table {
        Table { place, ..self }
    }

    /// What is read of one more character: commas end cells and line feeds end lines, but not
    /// within quotes; a doubled quote within quotes is a quote.
    pub open spec fn next(self, c: char) -> Table {
        if self.place is Inside {
            if c == '"' {
                self.moved(Place::Behind)
            } else {
                self.with_char(c, Place::Inside)
            }
        } else if c == ',' {
            Table {
                cells: self.all_cells(),
                cell: Seq::empty(),
                place: Place::Outside,
                ..self
            }
        } else if c == '\n' {
            at_line_start(self.lines.push(self.all_cells()))
        } else if c == '"' {
            if self.place is Behind {
                self.with_char('"', Place::Inside)
            } else {
                self.moved(Place::Inside)
            }
        } else {
            self.with_char(c, Place::Outside)
        }
    }

    /// What is read of a text.
    pub open spec fn read(self, s: Seq<char>) -> Table
        decreases s.len(),
    {
        if s.len() == 0 {
            self
        } else {
            self.read(s.drop_last()).next(s.last())
        }
    }
}

/// What a table holds.
pub open spec fn read_table(s: Seq<char>) -> Table {
    at_line_start(Seq::empty()).read(s)
}

/// Whether a text needs no quotes in a table.
pub open spec fn is_unquoted(s: Seq<char>) -> bool {
    text::is_free_of(s, CharClass::One(',')) && text::is_free_of(s, CharClass::One('"'))
        && text::is_free_of(s, CharClass::One('\n'))
}

/// The cells of a row.
pub open spec fn row_cells(row: Row, label: Seq<char>) -> Seq<Seq<char>> {
    seq![label + seq!['s'], row.metric_key, row.unit] + row.values.map_values(
        |v: i64| number::decimal_int(v as int),
    )
}

proof fn lemma_read_append(t: Table, a: Seq<char>, b: Seq<char>)
    ensures
        t.read(a + b) == t.read(a).read(b),
    decreases b.len(),
{
    if b.len() == 0 {
        assert(a + b =~= a);
    } else {
        assert((a + b).drop_last() =~= a + b.drop_last());
        lemma_read_append(t, a, b.drop_last());
    }
}

proof fn lemma_read_char(t: Table, c: char)
    ensures
        t.read(seq![c]) == t.next(c),
{
    assert(seq![c].drop_last() =~= Seq::empty());
    assert(t.read(Seq::empty()) == t);
}

proof fn lemma_read_unquoted(t: Table, s: Seq<char>)
    requires
        t.place is Outside,
        is_unquoted(s),
    ensures
        t.read(s) == (Table { cell: t.cell + s, ..t }),
    decreases s.len(),
{
    if s.len() == 0 {
        assert(t.cell + s =~= t.cell);
    } else {
        let before = s.drop_last();
        assert forall|i: int, c: char|
            0 <= i < before.len() && !CharClass::One(c).holds(s[i]) implies !(
        #[trigger] CharClass::One(c).holds(#[trigger] before[i])) by {
            assert(before[i] == s[i]);
        }
        lemma_read_unquoted(t, before);
        assert(!CharClass::One(',').holds(s[s.len() - 1]));
        assert(!CharClass::One('"').holds(s[s.len() - 1]));
        assert(!CharClass::One('\n').holds(s[s.len() - 1]));
        assert((t.cell + before).push(s.last()) =~= t.cell + s);
    }
}

proof fn lemma_read_doubled(t: Table, s: Seq<char>)
    requires
        t.place is Inside,
    ensures
        t.read(text::replace(s, '"', "\"\""@)) == (Table { cell: t.cell + s, ..t }),
    decreases s.len(),
{
    reveal_strlit("\"\"");
    if s.len() == 0 {
        text::law_replace(s, 'a', '"', "\"\""@);
        assert(s =~= Seq::empty());
        assert(t.cell + s =~= t.cell);
    } else {
        let before = s.drop_last();
        let written = text::replace(before, '"', "\"\""@);
        let c = s.last();
        lemma_read_doubled(t, before);
        text::law_replace(before, c, '"', "\"\""@);
        assert(before.push(c) =~= s);
        assert((t.cell + before).push(c) =~= t.cell + s);
        if c == '"' {
            assert("\"\""@ =~= seq!['"'] + seq!['"']);
            lemma_read_append(t, written, "\"\""@);
            let r = t.read(written);
            lemma_read_append(r, seq!['"'], seq!['"']);
            lemma_read_char(r, '"');
            lemma_read_char(r.next('"'), '"');
        } else {
            assert(written.push(c).drop_last() =~= written);
        }
    }
}

/// A text is read back from its field, whatever characters it holds.
pub proof fn law_fields_read_back(t: Table, s: Seq<char>)
    requires
        t.place is Outside,
    ensures
        t.read(export::csv_field(s)) == (Table { cell: t.cell + s, place: Place::Behind, ..t }),
{
    reveal_strlit("\"");
    let inner = text::replace(s, '"', "\"\""@);
    assert("\""@ =~= seq!['"']);
    lemma_read_append(t, "\""@ + inner, "\""@);
    lemma_read_append(t, "\""@, inner);
    lemma_read_char(t, '"');
    lemma_read_doubled(t.moved(Place::Inside), s);
    lemma_read_char(Table { cell: t.cell + s, place: Place::Inside, ..t }, '"');
}

proof fn lemma_decimal_is_unquoted(n: int)
    ensures
        is_unquoted(number::decimal_int(n)),
{
    power_supply::lemma_decimal_has_no_white(n);
    let d = number::decimal_int(n);
    assert forall|i: int| 0 <= i < d.len() implies d[i] != ',' && d[i] != '"' && d[i] != '\n' by {
        assert(d[i] == '-' || text::is_digit(d[i]));
    }
}

proof fn lemma_read_values(t: Table, values: Seq<i64>)
    requires
        !(t.place is Inside),
    ensures
        !(t.read(export::csv_values(values)).place is Inside),
        t.read(export::csv_values(values)).lines == t.lines,
        t.read(export::csv_values(values)).all_cells() == t.all_cells() + values.map_values(
            |v: i64| number::decimal_int(v as int),
        ),
    decreases values.len(),
{
    let cells = values.map_values(|v: i64| number::decimal_int(v as int));
    if values.len() == 0 {
        assert(t.all_cells() + cells =~= t.all_cells());
    } else {
        reveal_strlit(",");
        let before = values.drop_last();
        let last = number::decimal_int(values.last() as int);
        lemma_read_values(t, before);
        let r = t.read(export::csv_values(before));
        assert(","@ =~= seq![',']);
        lemma_read_append(t, export::csv_values(before) + ","@, last);
        lemma_read_append(t, export::csv_values(before), ","@);
        lemma_read_char(r, ',');
        lemma_decimal_is_unquoted(values.last() as int);
        lemma_read_unquoted(r.next(','), last);
        assert(Seq::<char>::empty() + last =~= last);
        assert(t.all_cells() + cells =~= (t.all_cells() + before.map_values(
            |v: i64| number::decimal_int(v as int),
        )).push(last));
    }
}

/// A line of the table is read back as one line with the cells of its row: the time, the key, the
/// unit and each of the values.
pub proof fn law_rows_read_back(lines: Seq<Seq<Seq<char>>>, row: Row, label: Seq<char>)
    requires
        is_unquoted(label),
    ensures
        at_line_start(lines).read(export::csv_row(row, label)) == at_line_start(
            lines.push(row_cells(row, label)),
        ),
{
    reveal_strlit("s,");
    reveal_strlit(",");
    reveal_strlit("\n");
    let t = at_line_start(lines);
    let key = export::csv_field(row.metric_key);
    let unit = export::csv_field(row.unit);
    let values = export::csv_values(row.values);
    assert("s,"@ =~= seq!['s'] + seq![',']);
    assert(","@ =~= seq![',']);
    assert("\n"@ =~= seq!['\n']);
    lemma_read_append(t, label + "s,"@ + key + ","@ + unit + values, "\n"@);
    lemma_read_append(t, label + "s,"@ + key + ","@ + unit, values);
    lemma_read_append(t, label + "s,"@ + key + ","@, unit);
    lemma_read_append(t, label + "s,"@ + key, ","@);
    lemma_read_append(t, label + "s,"@, key);
    lemma_read_append(t, label, "s,"@);
    lemma_read_unquoted(t, label);
    assert(Seq::<char>::empty() + label =~= label);
    let a = Table { cell: label, ..t };
    lemma_read_append(a, seq!['s'], seq![',']);
    lemma_read_char(a, 's');
    lemma_read_char(a.next('s'), ',');
    let first = label + seq!['s'];
    assert(label.push('s') =~= first);
    let b = Table { cells: seq![first], ..t };
    assert(a.next('s').next(',').cells =~= b.cells);
    law_fields_read_back(b, row.metric_key);
    assert(Seq::<char>::empty() + row.metric_key =~= row.metric_key);
    let c = Table { cell: row.metric_key, place: Place::Behind, ..b };
    lemma_read_char(c, ',');
    let d = Table { cells: seq![first, row.metric_key], ..t };
    assert(c.next(',').cells =~= d.cells);
    law_fields_read_back(d, row.unit);
    assert(Seq::<char>::empty() + row.unit =~= row.unit);
    let e = Table { cell: row.unit, place: Place::Behind, ..d };
    lemma_read_values(e, row.values);
    let f = e.read(values);
    lemma_read_char(f, '\n');
    assert(e.all_cells() =~= seq![first, row.metric_key, row.unit]);
}

proof fn lemma_read_rows(lines: Seq<Seq<Seq<char>>>, rows: Seq<Row>, labels: Seq<Seq<char>>)
    requires
        rows.len() <= labels.len(),
        forall|i: int| 0 <= i < labels.len() ==> is_unquoted(#[trigger] labels[i]),
    ensures
        at_line_start(lines).read(export::csv_rows(rows, labels)) == at_line_start(
            lines + Seq::new(rows.len(), |i: int| row_cells(rows[i], labels[i])),
        ),
    decreases rows.len(),
{
    let all = Seq::new(rows.len(), |i: int| row_cells(rows[i], labels[i]));
    if rows.len() == 0 {
        assert(lines + all =~= lines);
    } else {
        let before = rows.drop_last();
        let n = rows.len() - 1;
        lemma_read_rows(lines, before, labels);
        let read = lines + Seq::new(before.len(), |i: int| row_cells(before[i], labels[i]));
        lemma_read_append(
            at_line_start(lines),
            export::csv_rows(before, labels),
            export::csv_row(rows.last(), labels[n]),
        );
        law_rows_read_back(read, rows.last(), labels[n]);
        assert(read.push(row_cells(rows.last(), labels[n])) =~= lines + all);
    }
}

proof fn lemma_read_heading(t: Table, s: Seq<char>)
    requires
        t.place is Outside,
        text::is_free_of(s, CharClass::One('"')),
        text::is_free_of(s, CharClass::One('\n')),
    ensures
        t.read(s).place is Outside,
        t.read(s).lines == t.lines,
    decreases s.len(),
{
    if s.len() > 0 {
        let before = s.drop_last();
        assert forall|i: int| 0 <= i < before.len() implies !CharClass::One('"').holds(
            #[trigger] before[i],
        ) && !CharClass::One('\n').holds(before[i]) by {
            assert(before[i] == s[i]);
        }
        lemma_read_heading(t, before);
        assert(!CharClass::One('"').holds(s[s.len() - 1]));
        assert(!CharClass::One('\n').holds(s[s.len() - 1]));
    }
}

proof fn lemma_read_header(hz: u64)
    ensures
        exists|heading: Seq<Seq<char>>|
            read_table(export::csv_header(hz)) == #[trigger] at_line_start(seq![heading]),
{
    let places = number::decimal(export::time_precision(hz));
    let rate = number::decimal(hz as nat);
    let header = export::csv_header(hz);
    reveal_strlit("time_s(dp=");
    reveal_strlit(",hz=");
    reveal_strlit(
        "),metric_key,unit,value_0,value_1,value_2,value_3,value_4,value_5,value_6,value_7,value_8,value_9\n",
    );
    lemma_decimal_is_unquoted(export::time_precision(hz) as int);
    lemma_decimal_is_unquoted(hz as int);
    let start = "time_s(dp="@ + places + ",hz="@ + rate;
    let tail =
        "),metric_key,unit,value_0,value_1,value_2,value_3,value_4,value_5,value_6,value_7,value_8,value_9\n"@;
    assert forall|i: int| 0 <= i < start.len() implies start[i] != '"' && start[i] != '\n' by {
        let p = "time_s(dp="@.len();
        if p <= i < p + places.len() {
            assert(start[i] == places[i - p]);
            assert(!CharClass::One('"').holds(places[i - p]));
            assert(!CharClass::One('\n').holds(places[i - p]));
        } else if i >= p + places.len() + ",hz="@.len() {
            let k = i - p - places.len() - ",hz="@.len();
            assert(start[i] == rate[k]);
            assert(!CharClass::One('"').holds(rate[k]));
            assert(!CharClass::One('\n').holds(rate[k]));
        }
    }
    let line = start + tail.drop_last();
    assert forall|i: int| 0 <= i < line.len() implies line[i] != '"' && line[i] != '\n' by {
        if i >= start.len() {
            assert(line[i] == tail[i - start.len()]);
        } else {
            assert(line[i] == start[i]);
        }
    }
    assert(header =~= line + seq!['\n']);
    let t = at_line_start(Seq::empty());
    lemma_read_append(t, line, seq!['\n']);
    lemma_read_heading(t, line);
    let r = t.read(line);
    lemma_read_char(r, '\n');
    assert(Seq::<Seq<Seq<char>>>::empty().push(r.all_cells()) =~= seq![r.all_cells()]);
}

/// The heading of the table is read back: the columns are the time, the key, the unit and ten
/// values, each with its number. The comma within the parentheses splits the first of them in two.
pub proof fn law_heading_reads_back(hz: u64)
    ensures
        read_table(export::csv_header(hz)) == at_line_start(
            seq![
                seq![
                    "time_s(dp="@ + number::decimal(export::time_precision(hz)),
                    "hz="@ + number::decimal(hz as nat) + ")"@,
                    "metric_key"@,
                    "unit"@,
                    "value_0"@,
                    "value_1"@,
                    "value_2"@,
                    "value_3"@,
                    "value_4"@,
                    "value_5"@,
                    "value_6"@,
                    "value_7"@,
                    "value_8"@,
                    "value_9"@,
                ],
            ],
        ),
{
    let places = number::decimal(export::time_precision(hz));
    let rate = number::decimal(hz as nat);
    let names = seq![
        "hz="@ + rate + ")"@,
        "metric_key"@,
        "unit"@,
        "value_0"@,
        "value_1"@,
        "value_2"@,
        "value_3"@,
        "value_4"@,
        "value_5"@,
        "value_6"@,
        "value_7"@,
        "value_8"@,
        "value_9"@,
    ];
    let first = "time_s(dp="@ + places;
    let t = at_line_start(Seq::empty());
    lemma_heading_text(places, rate);
    number::lemma_decimal(export::time_precision(hz));
    number::lemma_decimal(hz as nat);
    lemma_names_are_unquoted(places, rate);
    assert(is_unquoted(first));
    let cells = behind_commas(names);
    lemma_read_append(t, first + cells, seq!['\n']);
    lemma_read_append(t, first, cells);
    lemma_read_unquoted(t, first);
    assert(Seq::<char>::empty() + first =~= first);
    let r = Table { cell: first, ..t };
    assert forall|i: int| 0 <= i < names.len() implies is_unquoted(#[trigger] names[i]) by {}
    lemma_read_cells(r, names);
    let s = r.read(cells);
    lemma_read_char(s, '\n');
    assert(r.all_cells() + names =~= seq![first] + names);
    assert(Seq::<Seq<Seq<char>>>::empty().push(seq![first] + names) =~= seq![seq![first] + names]);
    assert(seq![first] + names =~= seq![
        first,
        "hz="@ + rate + ")"@,
        "metric_key"@,
        "unit"@,
        "value_0"@,
        "value_1"@,
        "value_2"@,
        "value_3"@,
        "value_4"@,
        "value_5"@,
        "value_6"@,
        "value_7"@,
        "value_8"@,
        "value_9"@,
    ]);
}

/// Cells, each behind a comma.
pub open spec fn behind_commas(cells: Seq<Seq<char>>) -> Seq<char>
    decreases cells.len(),
{
    if cells.len() == 0 {
        Seq::empty()
    } else {
        behind_commas(cells.drop_last()) + seq![','] + cells.last()
    }
}

proof fn lemma_read_cells(t: Table, cells: Seq<Seq<char>>)
    requires
        !(t.place is Inside),
        forall|i: int| 0 <= i < cells.len() ==> is_unquoted(#[trigger] cells[i]),
    ensures
        !(t.read(behind_commas(cells)).place is Inside),
        t.read(behind_commas(cells)).lines == t.lines,
        t.read(behind_commas(cells)).all_cells() == t.all_cells() + cells,
    decreases cells.len(),
{
    if cells.len() == 0 {
        assert(t.all_cells() + cells =~= t.all_cells());
    } else {
        let before = cells.drop_last();
        assert forall|i: int| 0 <= i < before.len() implies is_unquoted(#[trigger] before[i]) by {
            assert(before[i] == cells[i]);
        }
        lemma_read_cells(t, before);
        let r = t.read(behind_commas(before));
        lemma_read_append(t, behind_commas(before) + seq![','], cells.last());
        lemma_read_append(t, behind_commas(before), seq![',']);
        lemma_read_char(r, ',');
        assert(is_unquoted(cells[cells.len() - 1]));
        lemma_read_unquoted(r.next(','), cells.last());
        assert(Seq::<char>::empty() + cells.last() =~= cells.last());
        assert(t.all_cells() + cells =~= (t.all_cells() + before).push(cells.last()));
    }
}

proof fn lemma_names_are_unquoted(places: Seq<char>, rate: Seq<char>)
    requires
        is_unquoted(places) || number::all_digits(places),
        is_unquoted(rate) || number::all_digits(rate),
    ensures
        is_unquoted("time_s(dp="@ + places),
        is_unquoted("hz="@ + rate + ")"@),
        is_unquoted("metric_key"@),
        is_unquoted("unit"@),
        is_unquoted("value_0"@),
        is_unquoted("value_1"@),
        is_unquoted("value_2"@),
        is_unquoted("value_3"@),
        is_unquoted("value_4"@),
        is_unquoted("value_5"@),
        is_unquoted("value_6"@),
        is_unquoted("value_7"@),
        is_unquoted("value_8"@),
        is_unquoted("value_9"@),
{
    reveal_strlit("time_s(dp=");
    reveal_strlit("hz=");
    reveal_strlit(")");
    reveal_strlit("metric_key");
    reveal_strlit("unit");
    reveal_strlit("value_0");
    reveal_strlit("value_1");
    reveal_strlit("value_2");
    reveal_strlit("value_3");
    reveal_strlit("value_4");
    reveal_strlit("value_5");
    reveal_strlit("value_6");
    reveal_strlit("value_7");
    reveal_strlit("value_8");
    reveal_strlit("value_9");
    lemma_unquoted_parts("time_s(dp="@, places);
    lemma_unquoted_parts("hz="@, rate);
    lemma_unquoted_parts("hz="@ + rate, ")"@);
}

proof fn lemma_unquoted_parts(a: Seq<char>, b: Seq<char>)
    requires
        is_unquoted(a),
        is_unquoted(b) || number::all_digits(b),
    ensures
        is_unquoted(a + b),
{
    let s = a + b;
    assert forall|i: int| 0 <= i < s.len() implies s[i] != ',' && s[i] != '"' && s[i] != '\n' by {
        if i < a.len() {
            assert(!CharClass::One(',').holds(a[i]));
            assert(!CharClass::One('"').holds(a[i]));
            assert(!CharClass::One('\n').holds(a[i]));
        } else if number::all_digits(b) {
            assert(text::is_digit(b[i - a.len()]));
        } else {
            assert(!CharClass::One(',').holds(b[i - a.len()]));
            assert(!CharClass::One('"').holds(b[i - a.len()]));
            assert(!CharClass::One('\n').holds(b[i - a.len()]));
        }
    }
}

proof fn lemma_heading_text(places: Seq<char>, rate: Seq<char>)
    ensures
        "time_s(dp="@ + places + ",hz="@ + rate
            + "),metric_key,unit,value_0,value_1,value_2,value_3,value_4,value_5,value_6,value_7,value_8,value_9\n"@
            == "time_s(dp="@ + places + behind_commas(
            seq![
                "hz="@ + rate + ")"@,
                "metric_key"@,
                "unit"@,
                "value_0"@,
                "value_1"@,
                "value_2"@,
                "value_3"@,
                "value_4"@,
                "value_5"@,
                "value_6"@,
                "value_7"@,
                "value_8"@,
                "value_9"@,
            ],
        ) + seq!['\n'],
{
    let n0 = seq!["hz="@ + rate + ")"@];
    let n1 = n0.push("metric_key"@);
    let n2 = n1.push("unit"@);
    let n3 = n2.push("value_0"@);
    let n4 = n3.push("value_1"@);
    let n5 = n4.push("value_2"@);
    let n6 = n5.push("value_3"@);
    let n7 = n6.push("value_4"@);
    let n8 = n7.push("value_5"@);
    let n9 = n8.push("value_6"@);
    let n10 = n9.push("value_7"@);
    let n11 = n10.push("value_8"@);
    let n12 = n11.push("value_9"@);
    let c = seq![','];
    lemma_one_more(Seq::empty(), "hz="@ + rate + ")"@);
    assert(Seq::<Seq<char>>::empty().push("hz="@ + rate + ")"@) =~= n0);
    lemma_one_more(n0, "metric_key"@);
    lemma_one_more(n1, "unit"@);
    lemma_one_more(n2, "value_0"@);
    lemma_one_more(n3, "value_1"@);
    lemma_one_more(n4, "value_2"@);
    lemma_one_more(n5, "value_3"@);
    lemma_one_more(n6, "value_4"@);
    lemma_one_more(n7, "value_5"@);
    lemma_one_more(n8, "value_6"@);
    lemma_one_more(n9, "value_7"@);
    lemma_one_more(n10, "value_8"@);
    lemma_one_more(n11, "value_9"@);
    let tail = c + "metric_key"@ + c + "unit"@ + c + "value_0"@ + c + "value_1"@ + c + "value_2"@ + c
        + "value_3"@ + c + "value_4"@ + c + "value_5"@ + c + "value_6"@ + c + "value_7"@ + c
        + "value_8"@ + c + "value_9"@;
    assert(behind_commas(n12) =~= c + ("hz="@ + rate + ")"@) + tail);
    assert(n12 =~= seq![
        "hz="@ + rate + ")"@,
        "metric_key"@,
        "unit"@,
        "value_0"@,
        "value_1"@,
        "value_2"@,
        "value_3"@,
        "value_4"@,
        "value_5"@,
        "value_6"@,
        "value_7"@,
        "value_8"@,
        "value_9"@,
    ]);
    lemma_heading_literals();
    let lit =
        "),metric_key,unit,value_0,value_1,value_2,value_3,value_4,value_5,value_6,value_7,value_8,value_9\n"@;
    assert(lit == ")"@ + tail + seq!['\n']);
    assert(",hz="@ == c + "hz="@);
    assert("time_s(dp="@ + places + (c + "hz="@) + rate + (")"@ + tail + seq!['\n'])
        =~= "time_s(dp="@ + places + (c + ("hz="@ + rate + ")"@) + tail) + seq!['\n']);
}

proof fn lemma_one_more(cells: Seq<Seq<char>>, cell: Seq<char>)
    ensures
        behind_commas(cells.push(cell)) == behind_commas(cells) + seq![','] + cell,
        behind_commas(Seq::empty()) == Seq::<char>::empty(),
{
    assert(cells.push(cell).drop_last() =~= cells);
}

proof fn lemma_heading_literals()
    ensures
        ({
            let c = seq![','];
            &&& ",hz="@ == c + "hz="@
            &&& "),metric_key,unit,value_0,value_1,value_2,value_3,value_4,value_5,value_6,value_7,value_8,value_9\n"@
                == ")"@ + (c + "metric_key"@ + c + "unit"@ + c + "value_0"@ + c + "value_1"@ + c
                + "value_2"@ + c + "value_3"@ + c + "value_4"@ + c + "value_5"@ + c + "value_6"@ + c
                + "value_7"@ + c + "value_8"@ + c + "value_9"@) + seq!['\n']
        }),
{
    reveal_strlit(",hz=");
    reveal_strlit("hz=");
    reveal_strlit(")");
    reveal_strlit("metric_key");
    reveal_strlit("unit");
    reveal_strlit("value_0");
    reveal_strlit("value_1");
    reveal_strlit("value_2");
    reveal_strlit("value_3");
    reveal_strlit("value_4");
    reveal_strlit("value_5");
    reveal_strlit("value_6");
    reveal_strlit("value_7");
    reveal_strlit("value_8");
    reveal_strlit("value_9");
    reveal_strlit(
        "),metric_key,unit,value_0,value_1,value_2,value_3,value_4,value_5,value_6,value_7,value_8,value_9\n",
    );
    let c = seq![','];
    assert(",hz="@ =~= c + "hz="@);
    assert("),metric_key,unit,value_0,value_1,value_2,value_3,value_4,value_5,value_6,value_7,value_8,value_9\n"@
        =~= ")"@ + (c + "metric_key"@ + c + "unit"@ + c + "value_0"@ + c + "value_1"@ + c
        + "value_2"@ + c + "value_3"@ + c + "value_4"@ + c + "value_5"@ + c + "value_6"@ + c
        + "value_7"@ + c + "value_8"@ + c + "value_9"@) + seq!['\n']);
}

/// The table of a session has a heading and exactly one line behind it for every frame of the
/// session, in the order of the rows, be their times the same or not. The key, the unit, the time
/// and the values of every row are read back from its line, and nothing is left over.
pub proof fn law_table_reads_back(session: SessionStore, hz: u64, labels: Seq<Seq<char>>)
    requires
        export::all_frames(session).len() <= usize::MAX,
        labels.len() == export::session_rows(session).len(),
        forall|i: int| 0 <= i < labels.len() ==> is_unquoted(#[trigger] labels[i]),
    ensures
        ({
            let rows = export::session_rows(session);
            let table = read_table(export::csv_header(hz) + export::csv_rows(rows, labels));
            &&& table == at_line_start(table.lines)
            &&& table.lines.len() == 1 + export::all_frames(session).len()
            &&& forall|i: int|
                0 <= i < rows.len() ==> #[trigger] table.lines[i + 1] == row_cells(
                    rows[i],
                    labels[i],
                )
        }),
{
    let rows = export::session_rows(session);
    let header = export::csv_header(hz);
    export::law_session_rows(session);
    lemma_read_header(hz);
    let heading = choose|heading: Seq<Seq<char>>|
        read_table(header) == #[trigger] at_line_start(seq![heading]);
    lemma_read_append(
        at_line_start(Seq::empty()),
        header,
        export::csv_rows(rows, labels),
    );
    lemma_read_rows(seq![heading], rows, labels);
}

// ---------------------------------------------------------------------------
// A reader of data files
// ---------------------------------------------------------------------------

/// What a data file is made of.
pub enum Token {
    /// A bracket, a colon or a comma.
    Mark(char),
    /// A word that is not in quotes.
    Word(Seq<char>),
    /// A text that is in quotes.
    Text(Seq<char>),
}

/// Where a reader of a data file stands.
pub enum Spot {
    /// Outside of quotes.
    Between,
    /// Within quotes.
    InText,
    /// Within quotes, behind a backslash.
    Escaped,
}

/// What a reader of a data file has read.
pub struct Data {
    /// The tokens that have ended.
    pub tokens: Seq<Token>,
    /// The characters of the one that has not ended.
    pub word: Seq<char>,
    /// Where the reader stands.
    pub spot: Spot,
}

/// Whether a character is a bracket, a colon or a comma.
pub open spec fn is_mark(c: char) -> bool {
    c == '{' || c == '}' || c == '[' || c == ']' || c == ':' || c == ','
}

/// Whether a text can be a word that is not in quotes.
pub open spec fn is_bare(s: Seq<char>) -> bool {
    forall|i: int|
        0 <= i < s.len() ==> !is_mark(#[trigger] s[i]) && s[i] != '"' && s[i] != ' ' && s[i] != '\n'
}

/// A reader between two tokens.
pub open spec fn between(tokens: Seq<Token>) -> Data {
    Data { tokens, word: Seq::empty(), spot: Spot::Between }
}

impl Data {
    /// The tokens with the word that has not ended.
    pub open spec fn all_tokens(self) -> Seq<Token> {
        if self.word.len() > 0 {
            self.tokens.push(Token::Word(self.word))
        } else {
            self.tokens
        }
    }

    /// What is read of one more character: within quotes all characters stand for themselves, but
    /// for a quote, which ends the text, and a backslash, behind which a character stands for
    /// itself.
    pub open spec fn next(self, c: char) -> Data {
        if self.spot is InText {
            if c == '"' {
                between(self.tokens.push(Token::Text(self.word)))
            } else if c == '\\' {
                Data { spot: Spot::Escaped, ..self }
            } else {
                Data { word: self.word.push(c), ..self }
            }
        } else if self.spot is Escaped {
            Data { word: self.word.push(c), spot: Spot::InText, ..self }
        } else if c == '"' {
            Data { tokens: self.all_tokens(), word: Seq::empty(), spot: Spot::InText }
        } else if is_mark(c) {
            between(self.all_tokens().push(Token::Mark(c)))
        } else if c == ' ' || c == '\n' {
            between(self.all_tokens())
        } else {
            Data { word: self.word.push(c), ..self }
        }
    }

    /// What is read of a text.
    pub open spec fn read(self, s: Seq<char>) -> Data
        decreases s.len(),
    {
        if s.len() == 0 {
            self
        } else {
            self.read(s.drop_last()).next(s.last())
        }
    }
}

/// What a data file holds.
pub open spec fn read_data(s: Seq<char>) -> Data {
    between(Seq::empty()).read(s)
}

/// The tokens of values, with commas between them.
pub open spec fn value_tokens(values: Seq<i64>) -> Seq<Token>
    decreases values.len(),
{
    if values.len() == 0 {
        Seq::empty()
    } else {
        let before = value_tokens(values.drop_last());
        let last = Token::Word(number::decimal_int(values.last() as int));
        if values.len() == 1 {
            seq![last]
        } else {
            before.push(Token::Mark(',')).push(last)
        }
    }
}

/// The tokens of a field: its name and a colon.
pub open spec fn field_tokens(name: Seq<char>) -> Seq<Token> {
    seq![Token::Text(name), Token::Mark(':')]
}

/// The tokens of a row.
pub open spec fn row_tokens(row: Row, label: Seq<char>) -> Seq<Token> {
    seq![Token::Mark('{')] + field_tokens("time_s"@) + seq![Token::Word(label), Token::Mark(',')]
        + field_tokens("metric_key"@) + seq![Token::Text(row.metric_key), Token::Mark(',')]
        + field_tokens("unit"@) + seq![Token::Text(row.unit), Token::Mark(',')] + field_tokens(
        "values"@,
    ) + seq![Token::Mark('[')] + value_tokens(row.values) + seq![Token::Mark(']'), Token::Mark('}')]
}

/// The tokens of rows, with commas between them.
pub open spec fn rows_tokens(rows: Seq<Row>, labels: Seq<Seq<char>>) -> Seq<Token>
    decreases rows.len(),
{
    if rows.len() == 0 {
        Seq::empty()
    } else {
        let before = rows_tokens(rows.drop_last(), labels);
        let last = row_tokens(rows.last(), labels[rows.len() - 1]);
        if rows.len() == 1 {
            last
        } else {
            before.push(Token::Mark(',')) + last
        }
    }
}

proof fn lemma_data_append(t: Data, a: Seq<char>, b: Seq<char>)
    ensures
        t.read(a + b) == t.read(a).read(b),
    decreases b.len(),
{
    if b.len() == 0 {
        assert(a + b =~= a);
    } else {
        assert((a + b).drop_last() =~= a + b.drop_last());
        lemma_data_append(t, a, b.drop_last());
    }
}

proof fn lemma_data_char(t: Data, c: char)
    ensures
        t.read(seq![c]) == t.next(c),
{
    assert(seq![c].drop_last() =~= Seq::empty());
    assert(t.read(Seq::empty()) == t);
}

proof fn lemma_data_white(tokens: Seq<Token>, s: Seq<char>)
    requires
        forall|i: int| 0 <= i < s.len() ==> #[trigger] s[i] == ' ' || s[i] == '\n',
    ensures
        between(tokens).read(s) == between(tokens),
    decreases s.len(),
{
    if s.len() > 0 {
        let before = s.drop_last();
        assert forall|i: int| 0 <= i < before.len() implies #[trigger] before[i] == ' ' || before[i]
            == '\n' by {
            assert(before[i] == s[i]);
        }
        lemma_data_white(tokens, before);
        assert(s[s.len() - 1] == ' ' || s[s.len() - 1] == '\n');
    }
}

proof fn lemma_data_word(tokens: Seq<Token>, s: Seq<char>)
    requires
        is_bare(s),
    ensures
        between(tokens).read(s) == (Data { tokens, word: s, spot: Spot::Between }),
    decreases s.len(),
{
    if s.len() > 0 {
        let before = s.drop_last();
        assert forall|i: int| 0 <= i < before.len() implies !is_mark(#[trigger] before[i])
            && before[i] != '"' && before[i] != ' ' && before[i] != '\n' by {
            assert(before[i] == s[i]);
        }
        lemma_data_word(tokens, before);
        assert(!is_mark(s[s.len() - 1]));
        assert(before.push(s.last()) =~= s);
    } else {
        assert(s =~= Seq::empty());
    }
}

proof fn lemma_data_escaped(tokens: Seq<Token>, s: Seq<char>)
    ensures
        (Data { tokens, word: Seq::empty(), spot: Spot::InText }).read(export::json_escaped(s)) == (
        Data { tokens, word: s, spot: Spot::InText }),
    decreases s.len(),
{
    let t = Data { tokens, word: Seq::empty(), spot: Spot::InText };
    if s.len() == 0 {
        export::law_data_escapes(s, 'a');
        assert(s =~= Seq::empty());
    } else {
        let before = s.drop_last();
        let c = s.last();
        let written = export::json_escaped(before);
        lemma_data_escaped(tokens, before);
        export::law_data_escapes(before, c);
        assert(before.push(c) =~= s);
        let r = Data { tokens, word: before, spot: Spot::InText };
        if c == '\\' || c == '"' {
            reveal_strlit("\\\\");
            reveal_strlit("\\\"");
            let pair = seq!['\\'] + seq![c];
            assert("\\\\"@ =~= seq!['\\'] + seq!['\\']);
            assert("\\\""@ =~= seq!['\\'] + seq!['"']);
            lemma_data_append(t, written, pair);
            lemma_data_append(r, seq!['\\'], seq![c]);
            lemma_data_char(r, '\\');
            lemma_data_char(r.next('\\'), c);
        } else {
            assert(written.push(c).drop_last() =~= written);
        }
    }
}

/// A text is read back from its place between quotes, whatever characters it holds.
pub proof fn law_texts_read_back(tokens: Seq<Token>, s: Seq<char>)
    ensures
        between(tokens).read(seq!['"'] + export::json_escaped(s) + seq!['"']) == between(
            tokens.push(Token::Text(s)),
        ),
{
    let t = between(tokens);
    let inner = export::json_escaped(s);
    lemma_data_append(t, seq!['"'] + inner, seq!['"']);
    lemma_data_append(t, seq!['"'], inner);
    lemma_data_char(t, '"');
    lemma_data_escaped(tokens, s);
    lemma_data_char(Data { tokens, word: s, spot: Spot::InText }, '"');
}

proof fn lemma_data_name(tokens: Seq<Token>, name: Seq<char>)
    requires
        forall|i: int| 0 <= i < name.len() ==> name[i] != '"' && name[i] != '\\',
    ensures
        between(tokens).read(seq!['"'] + name + seq!['"']) == between(
            tokens.push(Token::Text(name)),
        ),
{
    lemma_unescaped(name);
    law_texts_read_back(tokens, name);
}

proof fn lemma_unescaped(s: Seq<char>)
    requires
        forall|i: int| 0 <= i < s.len() ==> s[i] != '"' && s[i] != '\\',
    ensures
        export::json_escaped(s) == s,
    decreases s.len(),
{
    if s.len() == 0 {
        export::law_data_escapes(s, 'a');
        assert(s =~= Seq::empty());
    } else {
        let before = s.drop_last();
        assert forall|i: int| 0 <= i < before.len() implies before[i] != '"' && before[i]
            != '\\' by {
            assert(before[i] == s[i]);
        }
        lemma_unescaped(before);
        export::law_data_escapes(before, s.last());
        assert(s[s.len() - 1] != '"');
        assert(before.push(s.last()) =~= s);
    }
}

/// A comma, white space, the name of a field in quotes, a colon and a space.
pub open spec fn field_text(white: Seq<char>, name: Seq<char>) -> Seq<char> {
    seq![','] + white + (seq!['"'] + name + seq!['"']) + seq![':'] + seq![' ']
}

proof fn lemma_data_field(t: Data, white: Seq<char>, name: Seq<char>)
    requires
        t.spot is Between,
        forall|i: int| 0 <= i < white.len() ==> #[trigger] white[i] == ' ' || white[i] == '\n',
        forall|i: int| 0 <= i < name.len() ==> name[i] != '"' && name[i] != '\\',
    ensures
        t.read(field_text(white, name)) == between(
            t.all_tokens().push(Token::Mark(',')) + field_tokens(name),
        ),
{
    let quoted = seq!['"'] + name + seq!['"'];
    let a = t.all_tokens().push(Token::Mark(','));
    lemma_data_append(t, seq![','] + white + quoted + seq![':'], seq![' ']);
    lemma_data_append(t, seq![','] + white + quoted, seq![':']);
    lemma_data_append(t, seq![','] + white, quoted);
    lemma_data_append(t, seq![','], white);
    lemma_data_char(t, ',');
    lemma_data_white(a, white);
    lemma_data_name(a, name);
    let b = a.push(Token::Text(name));
    lemma_data_char(between(b), ':');
    let c = b.push(Token::Mark(':'));
    lemma_data_char(between(c), ' ');
    assert(c =~= a + field_tokens(name));
}

proof fn lemma_data_first_field(tokens: Seq<Token>, white: Seq<char>, name: Seq<char>)
    requires
        forall|i: int| 0 <= i < white.len() ==> #[trigger] white[i] == ' ' || white[i] == '\n',
        forall|i: int| 0 <= i < name.len() ==> name[i] != '"' && name[i] != '\\',
    ensures
        between(tokens).read(
            seq!['{'] + white + (seq!['"'] + name + seq!['"']) + seq![':'] + seq![' '],
        ) == between(tokens.push(Token::Mark('{')) + field_tokens(name)),
{
    let t = between(tokens);
    let quoted = seq!['"'] + name + seq!['"'];
    let a = tokens.push(Token::Mark('{'));
    lemma_data_append(t, seq!['{'] + white + quoted + seq![':'], seq![' ']);
    lemma_data_append(t, seq!['{'] + white + quoted, seq![':']);
    lemma_data_append(t, seq!['{'] + white, quoted);
    lemma_data_append(t, seq!['{'], white);
    lemma_data_char(t, '{');
    lemma_data_white(a, white);
    lemma_data_name(a, name);
    let b = a.push(Token::Text(name));
    lemma_data_char(between(b), ':');
    let c = b.push(Token::Mark(':'));
    lemma_data_char(between(c), ' ');
    assert(c =~= a + field_tokens(name));
}

proof fn lemma_decimal_is_bare(n: int)
    ensures
        is_bare(number::decimal_int(n)),
        number::decimal_int(n).len() > 0,
{
    power_supply::lemma_decimal_has_no_white(n);
    let d = number::decimal_int(n);
    assert forall|i: int| 0 <= i < d.len() implies !is_mark(#[trigger] d[i]) && d[i] != '"' && d[i]
        != ' ' && d[i] != '\n' by {
        assert(d[i] == '-' || text::is_digit(d[i]));
    }
}

proof fn lemma_data_values(tokens: Seq<Token>, values: Seq<i64>)
    ensures
        between(tokens).read(export::json_values(values)).spot is Between,
        between(tokens).read(export::json_values(values)).all_tokens() == tokens + value_tokens(
            values,
        ),
    decreases values.len(),
{
    let f = |v: i64| number::decimal_int(v as int);
    let parts = values.map_values(f);
    let t = between(tokens);
    if values.len() == 0 {
        assert(export::json_values(values) =~= Seq::empty());
        assert(tokens + value_tokens(values) =~= tokens);
    } else {
        let before = values.drop_last();
        let d = number::decimal_int(values.last() as int);
        lemma_decimal_is_bare(values.last() as int);
        assert(parts.last() == d);
        assert(parts.drop_last() =~= before.map_values(f));
        if values.len() == 1 {
            assert(export::json_values(values) == d);
            lemma_data_word(tokens, d);
            assert(tokens.push(Token::Word(d)) =~= tokens + value_tokens(values));
        } else {
            reveal_strlit(", ");
            assert(", "@ =~= seq![','] + seq![' ']);
            lemma_data_values(tokens, before);
            let list = export::json_values(before);
            assert(export::json_values(values) == list + ", "@ + d);
            lemma_data_append(t, list + ", "@, d);
            lemma_data_append(t, list, ", "@);
            let r = t.read(list);
            lemma_data_append(r, seq![','], seq![' ']);
            lemma_data_char(r, ',');
            let a = r.all_tokens().push(Token::Mark(','));
            lemma_data_char(between(a), ' ');
            lemma_data_word(a, d);
            assert(a.push(Token::Word(d)) =~= tokens + value_tokens(values));
        }
    }
}

/// A row of the data file is read back: its time, its key, its unit and its values, each under its
/// name.
pub proof fn law_data_rows_read_back(tokens: Seq<Token>, row: Row, label: Seq<char>)
    requires
        is_bare(label),
        label.len() > 0,
    ensures
        between(tokens).read(export::json_row(row, label)) == between(
            tokens + row_tokens(row, label),
        ),
{
    let white = seq!['\n', ' ', ' ', ' ', ' ', ' ', ' '];
    let quote = seq!['"'];
    let key = quote + export::json_escaped(row.metric_key) + quote;
    let unit = quote + export::json_escaped(row.unit) + quote;
    let values = export::json_values(row.values);
    let start = seq!['{'] + white + (seq!['"'] + "time_s"@ + seq!['"']) + seq![':'] + seq![' '];
    let end = seq![']'] + "\n    "@ + seq!['}'];
    let first = "    "@ + start + label + field_text(white, "metric_key"@) + key;
    let second = field_text(white, "unit"@) + unit + field_text(white, "values"@);
    let third = seq!['['] + values + end;
    lemma_row_text(row, label);
    lemma_three_pieces(
        first,
        field_text(white, "unit"@),
        unit,
        field_text(white, "values"@),
        seq!['['],
        values,
        end,
    );
    let t = between(tokens);
    lemma_data_append(t, first + second, third);
    lemma_data_append(t, first, second);
    lemma_row_first(tokens, row.metric_key, label);
    let k1 = tokens + (seq![Token::Mark('{')] + field_tokens("time_s"@) + seq![
        Token::Word(label),
        Token::Mark(','),
    ] + field_tokens("metric_key"@) + seq![Token::Text(row.metric_key)]);
    lemma_row_second(k1, row.unit);
    let k2 = k1 + (seq![Token::Mark(',')] + field_tokens("unit"@) + seq![
        Token::Text(row.unit),
        Token::Mark(','),
    ] + field_tokens("values"@));
    lemma_row_third(k2, row.values);
    lemma_row_order(
        tokens,
        seq![Token::Mark('{')] + field_tokens("time_s"@) + seq![
            Token::Word(label),
            Token::Mark(','),
        ] + field_tokens("metric_key"@),
        Token::Text(row.metric_key),
        Token::Mark(','),
        field_tokens("unit"@),
        Token::Text(row.unit),
        field_tokens("values"@),
        seq![Token::Mark('[')],
        value_tokens(row.values),
        seq![Token::Mark(']'), Token::Mark('}')],
    );
}

proof fn lemma_three_pieces(
    a: Seq<char>,
    b: Seq<char>,
    c: Seq<char>,
    d: Seq<char>,
    e: Seq<char>,
    f: Seq<char>,
    g: Seq<char>,
)
    ensures
        a + b + c + d + e + f + g == a + (b + c + d) + (e + f + g),
{
    assert(a + b + c + d + e + f + g =~= a + (b + c + d) + (e + f + g));
}

proof fn lemma_row_order(
    tokens: Seq<Token>,
    a: Seq<Token>,
    key: Token,
    comma: Token,
    b: Seq<Token>,
    unit: Token,
    c: Seq<Token>,
    d: Seq<Token>,
    e: Seq<Token>,
    f: Seq<Token>,
)
    ensures
        tokens + (a + seq![key]) + (seq![comma] + b + seq![unit, comma] + c) + (d + e + f) == tokens
            + (a + seq![key, comma] + b + seq![unit, comma] + c + d + e + f),
{
    assert(tokens + (a + seq![key]) + (seq![comma] + b + seq![unit, comma] + c) + (d + e + f)
        =~= tokens + (a + seq![key, comma] + b + seq![unit, comma] + c + d + e + f));
}

proof fn lemma_row_first(tokens: Seq<Token>, metric_key: Seq<char>, label: Seq<char>)
    requires
        is_bare(label),
        label.len() > 0,
    ensures
        ({
            let white = seq!['\n', ' ', ' ', ' ', ' ', ' ', ' '];
            let quote = seq!['"'];
            let start = seq!['{'] + white + (seq!['"'] + "time_s"@ + seq!['"']) + seq![':']
                + seq![' '];
            between(tokens).read(
                "    "@ + start + label + field_text(white, "metric_key"@) + (quote
                    + export::json_escaped(metric_key) + quote),
            ) == between(
                tokens + (seq![Token::Mark('{')] + field_tokens("time_s"@) + seq![
                    Token::Word(label),
                    Token::Mark(','),
                ] + field_tokens("metric_key"@) + seq![Token::Text(metric_key)]),
            )
        }),
{
    let white = seq!['\n', ' ', ' ', ' ', ' ', ' ', ' '];
    let quote = seq!['"'];
    let start = seq!['{'] + white + (seq!['"'] + "time_s"@ + seq!['"']) + seq![':'] + seq![' '];
    let b = field_text(white, "metric_key"@);
    let c = quote + export::json_escaped(metric_key) + quote;
    let t = between(tokens);
    lemma_data_append(t, "    "@ + start + label + b, c);
    lemma_data_append(t, "    "@ + start + label, b);
    lemma_data_append(t, "    "@ + start, label);
    lemma_data_append(t, "    "@, start);
    lemma_names();
    lemma_data_white(tokens, "    "@);
    lemma_data_first_field(tokens, white, "time_s"@);
    let k1 = tokens.push(Token::Mark('{')) + field_tokens("time_s"@);
    lemma_data_word(k1, label);
    let r1 = Data { tokens: k1, word: label, spot: Spot::Between };
    lemma_data_field(r1, white, "metric_key"@);
    let k2 = r1.all_tokens().push(Token::Mark(',')) + field_tokens("metric_key"@);
    law_texts_read_back(k2, metric_key);
    assert(k2.push(Token::Text(metric_key)) =~= tokens + (seq![Token::Mark('{')] + field_tokens(
        "time_s"@,
    ) + seq![Token::Word(label), Token::Mark(',')] + field_tokens("metric_key"@) + seq![
        Token::Text(metric_key),
    ]));
}

proof fn lemma_row_second(tokens: Seq<Token>, unit: Seq<char>)
    ensures
        ({
            let white = seq!['\n', ' ', ' ', ' ', ' ', ' ', ' '];
            let quote = seq!['"'];
            between(tokens).read(
                field_text(white, "unit"@) + (quote + export::json_escaped(unit) + quote)
                    + field_text(white, "values"@),
            ) == between(
                tokens + (seq![Token::Mark(',')] + field_tokens("unit"@) + seq![
                    Token::Text(unit),
                    Token::Mark(','),
                ] + field_tokens("values"@)),
            )
        }),
{
    let white = seq!['\n', ' ', ' ', ' ', ' ', ' ', ' '];
    let quote = seq!['"'];
    let a = field_text(white, "unit"@);
    let b = quote + export::json_escaped(unit) + quote;
    let c = field_text(white, "values"@);
    let t = between(tokens);
    lemma_data_append(t, a + b, c);
    lemma_data_append(t, a, b);
    lemma_names();
    lemma_data_field(t, white, "unit"@);
    let k4 = tokens.push(Token::Mark(',')) + field_tokens("unit"@);
    law_texts_read_back(k4, unit);
    let k5 = k4.push(Token::Text(unit));
    lemma_data_field(between(k5), white, "values"@);
    assert(k5.push(Token::Mark(',')) + field_tokens("values"@) =~= tokens + (seq![Token::Mark(',')]
        + field_tokens("unit"@) + seq![Token::Text(unit), Token::Mark(',')] + field_tokens(
        "values"@,
    )));
}

proof fn lemma_row_third(tokens: Seq<Token>, values: Seq<i64>)
    ensures
        between(tokens).read(
            seq!['['] + export::json_values(values) + (seq![']'] + "\n    "@ + seq!['}']),
        ) == between(
            tokens + (seq![Token::Mark('[')] + value_tokens(values) + seq![
                Token::Mark(']'),
                Token::Mark('}'),
            ]),
        ),
{
    let list = export::json_values(values);
    let end = seq![']'] + "\n    "@ + seq!['}'];
    let t = between(tokens);
    lemma_data_append(t, seq!['['] + list, end);
    lemma_data_append(t, seq!['['], list);
    lemma_names();
    lemma_data_char(t, '[');
    let k7 = tokens.push(Token::Mark('['));
    lemma_data_values(k7, values);
    let r8 = between(k7).read(list);
    lemma_data_append(r8, seq![']'] + "\n    "@, seq!['}']);
    lemma_data_append(r8, seq![']'], "\n    "@);
    lemma_data_char(r8, ']');
    let k9 = r8.all_tokens().push(Token::Mark(']'));
    lemma_data_white(k9, "\n    "@);
    lemma_data_char(between(k9), '}');
    assert(k9.push(Token::Mark('}')) =~= tokens + (seq![Token::Mark('[')] + value_tokens(values)
        + seq![Token::Mark(']'), Token::Mark('}')]));
}

proof fn lemma_names()
    ensures
        forall|i: int| 0 <= i < "time_s"@.len() ==> "time_s"@[i] != '"' && "time_s"@[i] != '\\',
        forall|i: int|
            0 <= i < "metric_key"@.len() ==> "metric_key"@[i] != '"' && "metric_key"@[i] != '\\',
        forall|i: int| 0 <= i < "unit"@.len() ==> "unit"@[i] != '"' && "unit"@[i] != '\\',
        forall|i: int| 0 <= i < "values"@.len() ==> "values"@[i] != '"' && "values"@[i] != '\\',
        forall|i: int| 0 <= i < "    "@.len() ==> #[trigger] "    "@[i] == ' ' || "    "@[i] == '\n',
        forall|i: int|
            0 <= i < "\n    "@.len() ==> #[trigger] "\n    "@[i] == ' ' || "\n    "@[i] == '\n',
{
    reveal_strlit("time_s");
    reveal_strlit("metric_key");
    reveal_strlit("unit");
    reveal_strlit("values");
    reveal_strlit("    ");
    reveal_strlit("\n    ");
}

proof fn lemma_row_text(row: Row, label: Seq<char>)
    ensures
        ({
            let white = seq!['\n', ' ', ' ', ' ', ' ', ' ', ' '];
            let quote = seq!['"'];
            let key = export::json_escaped(row.metric_key);
            let unit = export::json_escaped(row.unit);
            let values = export::json_values(row.values);
            let start = seq!['{'] + white + (seq!['"'] + "time_s"@ + seq!['"']) + seq![':']
                + seq![' '];
            export::json_row(row, label) == "    "@ + start + label + field_text(
                white,
                "metric_key"@,
            ) + (quote + key + quote) + field_text(white, "unit"@) + (quote + unit + quote)
                + field_text(white, "values"@) + seq!['['] + values + (seq![']'] + "\n    "@
                + seq!['}'])
        }),
{
    lemma_row_pieces(
        label,
        export::json_escaped(row.metric_key),
        export::json_escaped(row.unit),
        export::json_values(row.values),
    );
}

proof fn lemma_row_pieces(label: Seq<char>, key: Seq<char>, unit: Seq<char>, values: Seq<char>)
    ensures
        ({
            let white = seq!['\n', ' ', ' ', ' ', ' ', ' ', ' '];
            let quote = seq!['"'];
            let start = seq!['{'] + white + (seq!['"'] + "time_s"@ + seq!['"']) + seq![':']
                + seq![' '];
            "    {\n      \"time_s\": "@ + label + ",\n      \"metric_key\": \""@ + key
                + "\",\n      \"unit\": \""@ + unit + "\",\n      \"values\": ["@ + values
                + "]\n    }"@ == "    "@ + start + label + field_text(white, "metric_key"@) + (quote
                + key + quote) + field_text(white, "unit"@) + (quote + unit + quote) + field_text(
                white,
                "values"@,
            ) + seq!['['] + values + (seq![']'] + "\n    "@ + seq!['}'])
        }),
{
    let white = seq!['\n', ' ', ' ', ' ', ' ', ' ', ' '];
    let quote = seq!['"'];
    let start = seq!['{'] + white + (seq!['"'] + "time_s"@ + seq!['"']) + seq![':'] + seq![' '];
    assert("    {\n      \"time_s\": "@ =~= "    "@ + start) by {
        reveal_strlit("    {\n      \"time_s\": ");
        reveal_strlit("    ");
        reveal_strlit("time_s");
    }
    assert(",\n      \"metric_key\": \""@ =~= field_text(white, "metric_key"@) + quote) by {
        reveal_strlit(",\n      \"metric_key\": \"");
        reveal_strlit("metric_key");
    }
    assert("\",\n      \"unit\": \""@ =~= quote + field_text(white, "unit"@) + quote) by {
        reveal_strlit("\",\n      \"unit\": \"");
        reveal_strlit("unit");
    }
    assert("\",\n      \"values\": ["@ =~= quote + field_text(white, "values"@) + seq!['[']) by {
        reveal_strlit("\",\n      \"values\": [");
        reveal_strlit("values");
    }
    assert("]\n    }"@ =~= seq![']'] + "\n    "@ + seq!['}']) by {
        reveal_strlit("]\n    }");
        reveal_strlit("\n    ");
    }
    lemma_regrouped(
        "    "@ + start + label,
        field_text(white, "metric_key"@),
        quote,
        key,
        field_text(white, "unit"@),
        unit,
        field_text(white, "values"@),
        seq!['['],
        values,
        seq![']'] + "\n    "@ + seq!['}'],
    );
}

proof fn lemma_regrouped(
    a: Seq<char>,
    b: Seq<char>,
    q: Seq<char>,
    c: Seq<char>,
    d: Seq<char>,
    e: Seq<char>,
    f: Seq<char>,
    g: Seq<char>,
    h: Seq<char>,
    i: Seq<char>,
)
    ensures
        a + (b + q) + c + (q + d + q) + e + (q + f + g) + h + i == a + b + (q + c + q) + d + (q + e
            + q) + f + g + h + i,
{
    assert(a + (b + q) + c + (q + d + q) + e + (q + f + g) + h + i =~= a + b + (q + c + q) + d + (q
        + e + q) + f + g + h + i);
}

proof fn lemma_data_rows(tokens: Seq<Token>, rows: Seq<Row>, labels: Seq<Seq<char>>)
    requires
        rows.len() <= labels.len(),
        forall|i: int| 0 <= i < labels.len() ==> is_bare(#[trigger] labels[i]) && labels[i].len() > 0,
    ensures
        between(tokens).read(text::join(export::json_rows(rows, labels), ",\n"@)) == between(
            tokens + rows_tokens(rows, labels),
        ),
    decreases rows.len(),
{
    let parts = export::json_rows(rows, labels);
    let t = between(tokens);
    if rows.len() == 0 {
        assert(text::join(parts, ",\n"@) =~= Seq::empty());
        assert(tokens + rows_tokens(rows, labels) =~= tokens);
    } else {
        let before = rows.drop_last();
        let n = rows.len() - 1;
        let last = export::json_row(rows.last(), labels[n]);
        assert(parts.last() == last);
        assert(parts.drop_last() =~= export::json_rows(before, labels));
        if rows.len() == 1 {
            assert(text::join(parts, ",\n"@) == last);
            law_data_rows_read_back(tokens, rows.last(), labels[n]);
        } else {
            reveal_strlit(",\n");
            assert(",\n"@ =~= seq![','] + seq!['\n']);
            lemma_data_rows(tokens, before, labels);
            let list = text::join(export::json_rows(before, labels), ",\n"@);
            assert(text::join(parts, ",\n"@) == list + ",\n"@ + last);
            lemma_data_append(t, list + ",\n"@, last);
            lemma_data_append(t, list, ",\n"@);
            let a = tokens + rows_tokens(before, labels);
            lemma_data_append(between(a), seq![','], seq!['\n']);
            lemma_data_char(between(a), ',');
            let b = a.push(Token::Mark(','));
            lemma_data_char(between(b), '\n');
            law_data_rows_read_back(b, rows.last(), labels[n]);
            assert(b + row_tokens(rows.last(), labels[n]) =~= tokens + rows_tokens(rows, labels));
        }
    }
}

/// The tokens of a data file.
pub open spec fn file_tokens(rows: Seq<Row>, labels: Seq<Seq<char>>, hz: u64) -> Seq<Token> {
    seq![Token::Mark('{')] + field_tokens("sampling_hz"@) + seq![
        Token::Word(number::decimal(hz as nat)),
        Token::Mark(','),
    ] + field_tokens("time_precision"@) + seq![
        Token::Word(number::decimal(export::time_precision(hz))),
        Token::Mark(','),
    ] + field_tokens("rows"@) + seq![Token::Mark('[')] + rows_tokens(rows, labels) + seq![
        Token::Mark(']'),
        Token::Mark('}'),
    ]
}

/// The data file of rows is read back: the sampling rate, the number of decimal places and every
/// row, one for each, in their order, and nothing else.
#[verifier::rlimit(60)]
pub proof fn law_data_reads_back(rows: Seq<Row>, labels: Seq<Seq<char>>, hz: u64)
    requires
        rows.len() == labels.len(),
        forall|i: int| 0 <= i < labels.len() ==> is_bare(#[trigger] labels[i]) && labels[i].len() > 0,
    ensures
        read_data(export::json_text(rows, labels, hz)) == between(file_tokens(rows, labels, hz)),
{
    let white = seq!['\n', ' ', ' '];
    let rate = number::decimal(hz as nat);
    let places = number::decimal(export::time_precision(hz));
    let list = text::join(export::json_rows(rows, labels), ",\n"@);
    let tail = export::json_end(rows.len())@;
    let none = Seq::<Token>::empty();
    let t = between(none);
    lemma_decimal_is_bare(hz as int);
    lemma_decimal_is_bare(export::time_precision(hz) as int);
    lemma_file_pieces();
    let start = seq!['{'] + white + (seq!['"'] + "sampling_hz"@ + seq!['"']) + seq![':'] + seq![' '];
    let b = field_text(white, "time_precision"@);
    let c = field_text(white, "rows"@) + seq!['['] + seq!['\n'];
    let end = "  "@ + seq![']'] + seq!['\n'] + seq!['}'];
    let s1 = start + rate;
    let s2 = s1 + b;
    let s3 = s2 + places;
    let s4 = s3 + c;
    let s5 = s4 + list;
    let s6 = s5 + tail;
    assert(export::json_text(rows, labels, hz) == s6 + end);
    lemma_data_append(t, s6, end);
    lemma_data_append(t, s5, tail);
    lemma_data_append(t, s4, list);
    lemma_data_append(t, s3, c);
    lemma_data_append(t, s2, places);
    lemma_data_append(t, s1, b);
    lemma_data_append(t, start, rate);
    lemma_data_first_field(none, white, "sampling_hz"@);
    let k1 = none.push(Token::Mark('{')) + field_tokens("sampling_hz"@);
    lemma_data_word(k1, rate);
    let r1 = Data { tokens: k1, word: rate, spot: Spot::Between };
    lemma_data_field(r1, white, "time_precision"@);
    let k2 = r1.all_tokens().push(Token::Mark(',')) + field_tokens("time_precision"@);
    lemma_data_word(k2, places);
    let r2 = Data { tokens: k2, word: places, spot: Spot::Between };
    lemma_data_append(r2, field_text(white, "rows"@) + seq!['['], seq!['\n']);
    lemma_data_append(r2, field_text(white, "rows"@), seq!['[']);
    lemma_data_field(r2, white, "rows"@);
    let k3 = r2.all_tokens().push(Token::Mark(',')) + field_tokens("rows"@);
    lemma_data_char(between(k3), '[');
    let k4 = k3.push(Token::Mark('['));
    lemma_data_char(between(k4), '\n');
    lemma_data_rows(k4, rows, labels);
    let k5 = k4 + rows_tokens(rows, labels);
    lemma_data_white(k5, tail);
    lemma_data_append(between(k5), "  "@ + seq![']'] + seq!['\n'], seq!['}']);
    lemma_data_append(between(k5), "  "@ + seq![']'], seq!['\n']);
    lemma_data_append(between(k5), "  "@, seq![']']);
    lemma_data_white(k5, "  "@);
    lemma_data_char(between(k5), ']');
    let k6 = k5.push(Token::Mark(']'));
    lemma_data_char(between(k6), '\n');
    lemma_data_char(between(k6), '}');
    assert(k6.push(Token::Mark('}')) =~= file_tokens(rows, labels, hz));
}

proof fn lemma_file_pieces()
    ensures
        ({
            let white = seq!['\n', ' ', ' '];
            &&& "{\n  \"sampling_hz\": "@ == seq!['{'] + white + (seq!['"'] + "sampling_hz"@
                + seq!['"']) + seq![':'] + seq![' ']
            &&& ",\n  \"time_precision\": "@ == field_text(white, "time_precision"@)
            &&& ",\n  \"rows\": [\n"@ == field_text(white, "rows"@) + seq!['['] + seq!['\n']
            &&& "  ]\n}"@ == "  "@ + seq![']'] + seq!['\n'] + seq!['}']
        }),
        forall|i: int|
            0 <= i < "sampling_hz"@.len() ==> "sampling_hz"@[i] != '"' && "sampling_hz"@[i] != '\\',
        forall|i: int|
            0 <= i < "time_precision"@.len() ==> "time_precision"@[i] != '"'
                && "time_precision"@[i] != '\\',
        forall|i: int| 0 <= i < "rows"@.len() ==> "rows"@[i] != '"' && "rows"@[i] != '\\',
        forall|i: int| 0 <= i < "  "@.len() ==> #[trigger] "  "@[i] == ' ' || "  "@[i] == '\n',
        forall|i: int| 0 <= i < "\n"@.len() ==> #[trigger] "\n"@[i] == ' ' || "\n"@[i] == '\n',
        ""@.len() == 0,
{
    let white = seq!['\n', ' ', ' '];
    reveal_strlit("sampling_hz");
    reveal_strlit("time_precision");
    reveal_strlit("rows");
    reveal_strlit("  ");
    reveal_strlit("\n");
    reveal_strlit("");
    assert("{\n  \"sampling_hz\": "@ =~= seq!['{'] + white + (seq!['"'] + "sampling_hz"@
        + seq!['"']) + seq![':'] + seq![' ']) by {
        reveal_strlit("{\n  \"sampling_hz\": ");
    }
    assert(",\n  \"time_precision\": "@ =~= field_text(white, "time_precision"@)) by {
        reveal_strlit(",\n  \"time_precision\": ");
    }
    assert(",\n  \"rows\": [\n"@ =~= field_text(white, "rows"@) + seq!['['] + seq!['\n']) by {
        reveal_strlit(",\n  \"rows\": [\n");
    }
    assert("  ]\n}"@ =~= "  "@ + seq![']'] + seq!['\n'] + seq!['}']) by {
        reveal_strlit("  ]\n}");
    }
}

} // verus!
