//! The profiler of the frame rate, from the frame statistics of the compositor.

use vstd::prelude::*;

use crate::constants::INVALID_METRIC_VALUE;
use crate::errors;
use crate::errors::CoreError;
use crate::profiler::sampler;
use crate::profiler::sampler::{Link, SamplerState};
use crate::text;
use crate::text::{
    after_prefix, chars_of, cut, has_text, reads, lowered, split_lines, string_of, trim_chars, trimmed,
    CharClass,
};
use crate::types::{CollectorMetadata, ProfilerMetadata};

verus! {

/// The key of the profiler.
pub const PROFILER_KEY: &'static str = "FPS";

/// The key of its collector.
pub const COLLECTOR_KEY: &'static str = "main";

/// The unit of its value.
pub const UNIT_FPS: &'static str = "FPS";

/// The command that clears the frame statistics and turns them on.
pub const TIMESTATS_ENABLE_COMMAND: &'static str = "dumpsys SurfaceFlinger --timestats -clear -enable";

/// The command that prints the frame statistics.
pub const TIMESTATS_DUMP_COMMAND: &'static str = "dumpsys SurfaceFlinger --timestats -dump";

// ---------------------------------------------------------------------------
// The frame statistics
// ---------------------------------------------------------------------------

/// What a line gives as the value of a key: what stands behind the key and an equals sign or a
/// colon, white space around the key aside.
pub open spec fn field_value(line: Seq<char>, key: Seq<char>) -> Option<Seq<char>> {
    if text::strip_prefix(line, key + "="@) is Some {
        text::strip_prefix(line, key + "="@)
    } else if text::strip_prefix(line, key + ":"@) is Some {
        text::strip_prefix(line, key + ":"@)
    } else {
        match behind_key(line, "="@, key) {
            Some(rest) => Some(rest),
            None => behind_key(line, ":"@, key),
        }
    }
}

/// What stands behind the first separator of a line, if the key stands before it, white space
/// around the key aside.
pub open spec fn behind_key(line: Seq<char>, separator: Seq<char>, key: Seq<char>) -> Option<
    Seq<char>,
> {
    match text::split_once(line, separator) {
        Some(parts) => if text::trim(parts.0) == key {
            Some(parts.1)
        } else {
            None
        },
        None => None,
    }
}

/// The layer that a line names, without quotes and white space around it.
pub open spec fn layer_field(line: Seq<char>) -> Option<Seq<char>> {
    match field_value(text::trim(line), "layerName"@) {
        Some(rest) => Some(text::trim(text::trim_of(rest, CharClass::One('"')))),
        None => None,
    }
}

/// The average frame rate that a line gives, as it is written.
pub open spec fn rate_field(line: Seq<char>) -> Option<Seq<char>> {
    if layer_field(line) is Some {
        None
    } else {
        match field_value(text::trim(line), "averageFPS"@) {
            Some(rest) => Some(text::trim(rest)),
            None => None,
        }
    }
}

/// The average frame rates in the lines, as they are written.
pub open spec fn rate_fields(lines: Seq<Seq<char>>) -> Seq<Seq<char>> {
    lines.filter_map(|line: Seq<char>| rate_field(line))
}

/// The layer that the line behind the given ones belongs to: the last one named.
pub open spec fn layer_after(lines: Seq<Seq<char>>) -> Option<Seq<char>> {
    text::last_some(lines, |line: Seq<char>| layer_field(line))
}

/// Whether a layer shows the package: its name contains that of the package, and it is not one
/// of the system's own.
pub open spec fn is_shown_by(layer: Option<Seq<char>>, package: Seq<char>) -> bool {
    match layer {
        Some(layer) => {
            let name = text::lower(layer);
            &&& text::contains(name, text::lower(text::trim(package)))
            &&& !text::contains(name, "statusbar"@)
            &&& !text::contains(name, "navigationbar"@)
            &&& !text::contains(name, "systemui"@)
            &&& !text::contains(name, "splash"@)
        },
        None => false,
    }
}

/// The larger of an optional value and a value.
pub open spec fn larger(best: Option<i64>, value: i64) -> i64 {
    match best {
        Some(b) if b >= value => b,
        _ => value,
    }
}

/// The highest positive frame rate among the layers that show the package. The readings are the
/// rates of the rate fields, in their order.
pub open spec fn best_rate(lines: Seq<Seq<char>>, package: Seq<char>, readings: Seq<Option<i64>>) -> Option<
    i64,
>
    decreases lines.len(),
{
    if lines.len() == 0 {
        None
    } else {
        let before = best_rate(lines.drop_last(), package, readings);
        if rate_field(lines.last()) is Some {
            let value = readings[rate_fields(lines.drop_last()).len() as int]->0;
            if is_shown_by(layer_after(lines.drop_last()), package) && value > 0 {
                Some(larger(before, value))
            } else {
                before
            }
        } else {
            before
        }
    }
}

/// The frame rate of a package in a dump of the frame statistics. A package without a name has
/// none, and neither has a dump with a rate that cannot be read.
pub open spec fn dumped_rate(output: Seq<char>, package: Seq<char>, readings: Seq<Option<i64>>) -> Option<
    i64,
> {
    if text::trim(package).len() == 0 || exists|i: int|
        0 <= i < readings.len() && (#[trigger] readings[i]) is None {
        None
    } else {
        best_rate(text::lines(output), package, readings)
    }
}

/// What a line gives as the value of a key.
pub fn extract_field_value<'a>(line: &'a [char], key: &str) -> (r: Option<&'a [char]>)
    ensures
        match r {
            Some(value) => field_value(line@, key@) == Some(value@),
            None => field_value(line@, key@) is None,
        },
{
    let mut with_equals = String::from_str(key);
    with_equals.append("=");
    if let Some(rest) = after_prefix(line, with_equals.as_str()) {
        return Some(rest);
    }
    let mut with_colon = String::from_str(key);
    with_colon.append(":");
    if let Some(rest) = after_prefix(line, with_colon.as_str()) {
        return Some(rest);
    }
    if let Some(parts) = cut(line, "=") {
        if reads(trimmed(parts.0), key) {
            return Some(parts.1);
        }
    }
    if let Some(parts) = cut(line, ":") {
        if reads(trimmed(parts.0), key) {
            return Some(parts.1);
        }
    }
    None
}

fn find_layer(line: &[char]) -> (r: Option<String>)
    ensures
        text::optional(r) == layer_field(line@),
{
    match extract_field_value(trimmed(line), "layerName") {
        Some(rest) => Some(string_of(trimmed(trim_chars(rest, CharClass::One('"'))))),
        None => None,
    }
}

fn find_rate(line: &[char]) -> (r: Option<String>)
    requires
        layer_field(line@) is None,
    ensures
        text::optional(r) == rate_field(line@),
{
    match extract_field_value(trimmed(line), "averageFPS") {
        Some(rest) => Some(string_of(trimmed(rest))),
        None => None,
    }
}

/// Tests whether a layer shows the package.
pub fn is_interesting_layer(layer_name: &Option<String>, package_name: &str) -> (r: bool)
    ensures
        r == is_shown_by(text::optional(*layer_name), package_name@),
{
    match layer_name {
        None => false,
        Some(layer_name) => {
            let layer = chars_of(layer_name.as_str());
            let layer = lowered(layer.as_slice());
            let package = chars_of(package_name);
            let package = lowered(trimmed(package.as_slice()));
            let package = string_of(package.as_slice());
            let name = layer.as_slice();
            has_text(name, package.as_str()) && !has_text(name, "statusbar") && !has_text(
                name,
                "navigationbar",
            ) && !has_text(name, "systemui") && !has_text(name, "splash")
        },
    }
}

/// The average frame rates in a dump, as they are written.
pub fn average_fps_fields(output: &str) -> (r: Vec<String>)
    ensures
        text::views(r@) == rate_fields(text::lines(output@)),
{
    broadcast use text::lemma_views_push;

    let chars = chars_of(output);
    let lines = split_lines(chars.as_slice());
    let ghost all = text::lines(output@);
    let ghost f = |line: Seq<char>| rate_field(line);
    let mut out: Vec<String> = Vec::new();
    let mut i: usize = 0;
    assert(all.take(0) =~= Seq::empty());
    assert(text::views(out@) =~= rate_fields(all.take(0)));
    while i < lines.len()
        invariant
            i <= lines@.len(),
            all == text::views(lines@),
            f == (|line: Seq<char>| rate_field(line)),
            text::views(out@) == rate_fields(all.take(i as int)),
        decreases lines@.len() - i,
    {
        proof {
            all.lemma_filter_map_take_succ(f, i as int);
        }
        let line = lines[i];
        if find_layer(line).is_none() {
            if let Some(field) = find_rate(line) {
                out.push(field);
            }
        }
        i = i + 1;
    }
    assert(all.take(i as int) =~= all);
    out
}

/// Reads the frame rate of a package from a dump. The readings are the frame rates that
/// `average_fps_fields` lists, rounded to whole frames, each where it can be read as a number.
pub fn parse_fps_dump(output: &str, package_name: &str, readings: &[Option<i64>]) -> (r: Option<i64>)
    requires
        readings@.len() == rate_fields(text::lines(output@)).len(),
    ensures
        r == dumped_rate(output@, package_name@, readings@),
{
    let package = chars_of(package_name);
    if trimmed(package.as_slice()).len() == 0 {
        return None;
    }
    let chars = chars_of(output);
    let lines = split_lines(chars.as_slice());
    let ghost all = text::lines(output@);
    let ghost f = |line: Seq<char>| rate_field(line);
    let ghost g = |line: Seq<char>| layer_field(line);
    let mut current_layer: Option<String> = None;
    let mut best: Option<i64> = None;
    let mut used: usize = 0;
    let mut i: usize = 0;
    assert(all.take(0) =~= Seq::empty());
    while i < lines.len()
        invariant
            i <= lines@.len(),
            text::trim(package_name@).len() > 0,
            all == text::lines(output@),
            all == text::views(lines@),
            f == (|line: Seq<char>| rate_field(line)),
            g == (|line: Seq<char>| layer_field(line)),
            readings@.len() == rate_fields(all).len(),
            used == rate_fields(all.take(i as int)).len(),
            used <= readings@.len(),
            forall|j: int| 0 <= j < used ==> (#[trigger] readings@[j]) is Some,
            text::optional(current_layer) == layer_after(all.take(i as int)),
            best == best_rate(all.take(i as int), package_name@, readings@),
        decreases lines@.len() - i,
    {
        let line = lines[i];
        proof {
            all.lemma_filter_map_take_succ(f, i as int);
            text::lemma_last_some_at(all, g, i + 1);
            assert(all.take(i + 1).drop_last() =~= all.take(i as int));
            lemma_rate_fields_grow(all, i + 1);
        }
        let layer = find_layer(line);
        if layer.is_some() {
            current_layer = layer;
        } else if find_rate(line).is_some() {
            match readings[used] {
                None => {
                    return None;
                },
                Some(value) => {
                    if is_interesting_layer(&current_layer, package_name) && value > 0 {
                        best = match best {
                            Some(b) => if b >= value {
                                Some(b)
                            } else {
                                Some(value)
                            },
                            None => Some(value),
                        };
                    }
                },
            }
            used = used + 1;
        }
        i = i + 1;
    }
    assert(all.take(i as int) =~= all);
    best
}

/// More lines give no fewer rates.
proof fn lemma_rate_fields_grow(lines: Seq<Seq<char>>, n: int)
    requires
        0 <= n <= lines.len(),
    ensures
        rate_fields(lines.take(n)).len() <= rate_fields(lines).len(),
    decreases lines.len() - n,
{
    if n < lines.len() {
        lines.lemma_filter_map_take_succ(|line: Seq<char>| rate_field(line), n);
        lemma_rate_fields_grow(lines, n + 1);
    } else {
        assert(lines.take(n) =~= lines);
    }
}

/// A frame rate that is found is positive and was read from one of the fields.
pub proof fn law_rate_is_one_of_the_readings(
    lines: Seq<Seq<char>>,
    package: Seq<char>,
    readings: Seq<Option<i64>>,
)
    requires
        readings.len() >= rate_fields(lines).len(),
        forall|i: int| 0 <= i < readings.len() ==> (#[trigger] readings[i]) is Some,
    ensures
        best_rate(lines, package, readings) matches Some(value) ==> value > 0 && readings.contains(
            Some(value),
        ),
    decreases lines.len(),
{
    if lines.len() > 0 {
        let n = lines.len() - 1;
        lines.lemma_filter_map_take_succ(|line: Seq<char>| rate_field(line), n);
        assert(lines.take(n) =~= lines.drop_last());
        assert(lines.take(n + 1) =~= lines);
        law_rate_is_one_of_the_readings(lines.drop_last(), package, readings);
        if rate_field(lines.last()) is Some {
            let k = rate_fields(lines.drop_last()).len() as int;
            assert(readings[k] is Some);
            assert(readings.contains(readings[k]));
        }
    }
}

/// The frame rate of a package in a dump, or the invalid value.
pub open spec fn rate_or_invalid(output: Seq<char>, package: Seq<char>, readings: Seq<Option<i64>>) -> i64 {
    match dumped_rate(output, package, readings) {
        Some(value) => value,
        None => INVALID_METRIC_VALUE,
    }
}

/// Whether a line gives a rate of the package: it has a rate field, and the layer that was named
/// last before it shows the package.
pub open spec fn is_rate_of(lines: Seq<Seq<char>>, package: Seq<char>, i: int) -> bool {
    &&& 0 <= i < lines.len()
    &&& rate_field(lines[i]) is Some
    &&& is_shown_by(layer_after(lines.take(i)), package)
}

/// The reading of the rate field in a line: as many rate fields stand before it as readings before
/// its own.
pub open spec fn reading_at(lines: Seq<Seq<char>>, readings: Seq<Option<i64>>, i: int) -> Option<
    i64,
> {
    readings[rate_fields(lines.take(i)).len() as int]
}

/// The rate that is found is a positive reading of the package, and the highest of them: none is
/// above it. None is found only where the package has no positive reading.
pub proof fn law_rate_is_the_highest(
    lines: Seq<Seq<char>>,
    package: Seq<char>,
    readings: Seq<Option<i64>>,
)
    requires
        readings.len() >= rate_fields(lines).len(),
        forall|i: int| 0 <= i < readings.len() ==> (#[trigger] readings[i]) is Some,
    ensures
        forall|i: int|
            #[trigger] is_rate_of(lines, package, i) && reading_at(lines, readings, i)->0 > 0 ==> (
            best_rate(lines, package, readings) matches Some(best) && best >= reading_at(
                lines,
                readings,
                i,
            )->0),
        best_rate(lines, package, readings) matches Some(best) ==> best > 0 && exists|i: int| #[trigger]
            is_rate_of(lines, package, i) && reading_at(lines, readings, i) == Some(best),
    decreases lines.len(),
{
    if lines.len() > 0 {
        let n = lines.len() - 1;
        let before = lines.drop_last();
        lines.lemma_filter_map_take_succ(|line: Seq<char>| rate_field(line), n);
        assert(lines.take(n) =~= before);
        assert(lines.take(n + 1) =~= lines);
        law_rate_is_the_highest(before, package, readings);
        assert forall|i: int| 0 <= i < n implies is_rate_of(before, package, i) == is_rate_of(
            lines,
            package,
            i,
        ) && #[trigger] reading_at(before, readings, i) == reading_at(lines, readings, i) by {
            assert(before.take(i) =~= lines.take(i));
        }
        let best = best_rate(lines, package, readings);
        assert forall|i: int|
            #[trigger] is_rate_of(lines, package, i) && reading_at(lines, readings, i)->0
                > 0 implies (best matches Some(best) && best >= reading_at(
            lines,
            readings,
            i,
        )->0) by {
            if i < n {
                assert(reading_at(before, readings, i) == reading_at(lines, readings, i));
                assert(is_rate_of(before, package, i));
            }
        }
        if let Some(best) = best {
            if best_rate(before, package, readings) == Some(best) {
                let i = choose|i: int| #[trigger]
                    is_rate_of(before, package, i) && reading_at(before, readings, i) == Some(best);
                assert(reading_at(before, readings, i) == reading_at(lines, readings, i));
                assert(is_rate_of(lines, package, i));
            } else {
                assert(is_rate_of(lines, package, n));
                assert(reading_at(lines, readings, n) == Some(best));
            }
        }
    }
}

/// The frame rate of a package in a dump is the highest positive reading among its layers.
pub proof fn law_dumped_rate_is_the_highest(
    output: Seq<char>,
    package: Seq<char>,
    readings: Seq<Option<i64>>,
    i: int,
    v: i64,
)
    requires
        readings.len() == rate_fields(text::lines(output)).len(),
        forall|i: int| 0 <= i < readings.len() ==> (#[trigger] readings[i]) is Some,
        text::trim(package).len() > 0,
        is_rate_of(text::lines(output), package, i),
        reading_at(text::lines(output), readings, i) == Some(v),
        v > 0,
    ensures
        dumped_rate(output, package, readings) matches Some(best) && best >= v,
        rate_or_invalid(output, package, readings) >= v,
{
    law_rate_is_the_highest(text::lines(output), package, readings);
}

/// A line that names a layer changes the layer of the lines behind it to that one; every other
/// line leaves it. Before the first such line there is none.
pub proof fn law_layer_is_the_last_named(lines: Seq<Seq<char>>, line: Seq<char>)
    ensures
        layer_after(Seq::<Seq<char>>::empty()) is None,
        layer_field(line) is Some ==> layer_after(lines.push(line)) == layer_field(line),
        layer_field(line) is None ==> layer_after(lines.push(line)) == layer_after(lines),
{
    assert(lines.push(line).drop_last() =~= lines);
}

/// Layers and rates are read as they are written: behind their names and an equals sign or a
/// colon, and a layer with or without quotes.
pub proof fn law_written_fields(value: Seq<char>, separator: char)
    requires
        separator == '=' || separator == ':',
        value.len() > 0,
        !text::is_white(value[0]) && value[0] != '"',
        !text::is_white(value.last()) && value.last() != '"',
    ensures
        layer_field("layerName"@ + seq![separator] + value) == Some(value),
        layer_field("layerName"@ + seq![separator] + (seq!['"'] + value + seq!['"'])) == Some(
            value,
        ),
        layer_field("averageFPS"@ + seq![separator] + value) is None,
        rate_field("averageFPS"@ + seq![separator] + value) == Some(value),
        rate_field("layerName"@ + seq![separator] + value) is None,
        field_value("layerName "@ + seq!['='] + value, "layerName"@) == Some(value),
{
    let layer = "layerName"@;
    let rate = "averageFPS"@;
    reveal_strlit("layerName");
    reveal_strlit("averageFPS");
    reveal_strlit("=");
    reveal_strlit(":");
    let quoted = seq!['"'] + value + seq!['"'];
    let none = Seq::<char>::empty();
    lemma_field(layer, separator, value);
    lemma_field(layer, separator, quoted);
    lemma_field(rate, separator, value);
    lemma_spaced_field(value);
    text::lemma_trim_nothing(value);
    text::lemma_trim_nothing(layer + seq![separator] + value);
    text::lemma_trim_nothing(layer + seq![separator] + quoted);
    text::lemma_trim_nothing(rate + seq![separator] + value);
    text::law_trim(none, value, none, CharClass::One('"'));
    assert(none + value + none =~= value);
    text::law_trim(seq!['"'], value, seq!['"'], CharClass::One('"'));
    lemma_other_key(rate + seq![separator] + value, layer);
}

proof fn lemma_field(key: Seq<char>, separator: char, value: Seq<char>)
    requires
        separator == '=' || separator == ':',
    ensures
        field_value(key + seq![separator] + value, key) == Some(value),
{
    reveal_strlit("=");
    reveal_strlit(":");
    let line = key + seq![separator] + value;
    text::law_strip(value, key + seq![separator]);
    assert("="@ =~= seq!['=']);
    assert(":"@ =~= seq![':']);
    if separator == ':' {
        assert(line[key.len() as int] == ':');
        assert((key + "="@)[key.len() as int] == '=');
        assert(!(key + "="@).is_prefix_of(line)) by {
            if (key + "="@).is_prefix_of(line) {
                assert(line.take((key + "="@).len() as int)[key.len() as int] == '=');
            }
        }
    }
}

proof fn lemma_spaced_field(value: Seq<char>)
    ensures
        field_value("layerName "@ + seq!['='] + value, "layerName"@) == Some(value),
{
    reveal_strlit("layerName");
    reveal_strlit("layerName ");
    reveal_strlit("=");
    reveal_strlit(":");
    let key = "layerName"@;
    let spaced = "layerName "@;
    let line = spaced + seq!['='] + value;
    assert("="@ =~= seq!['=']);
    assert(line[9] == ' ');
    assert((key + "="@)[9] == '=');
    assert((key + ":"@)[9] == ':');
    let none = Seq::<char>::empty();
    text::law_trim(none, key, seq![' '], CharClass::White);
    assert(none + key + seq![' '] =~= spaced);
    text::law_split_once(spaced, '=', value);
}

/// A line that begins otherwise than a key and not in white space does not give its value.
proof fn lemma_other_key(line: Seq<char>, key: Seq<char>)
    requires
        line.len() > 0,
        key.len() > 0,
        line[0] != key[0],
        !text::is_white(line[0]),
    ensures
        field_value(line, key) is None,
{
    reveal_strlit("=");
    reveal_strlit(":");
    assert((key + "="@)[0] == key[0]);
    assert((key + ":"@)[0] == key[0]);
    lemma_not_behind_key(line, "="@, key);
    lemma_not_behind_key(line, ":"@, key);
}

proof fn lemma_not_behind_key(line: Seq<char>, separator: Seq<char>, key: Seq<char>)
    requires
        line.len() > 0,
        key.len() > 0,
        line[0] != key[0],
        !text::is_white(line[0]),
    ensures
        behind_key(line, separator, key) is None,
{
    if let Some(parts) = text::split_once(line, separator) {
        text::lemma_first_occurs(line, separator);
        let i = choose|i: int| text::first_occurs_at(line, separator, i);
        let before = line.take(i);
        if before.len() > 0 {
            text::lemma_trim_keeps_first(before);
        }
    }
}

/// Whether a layer shows a package goes by its name, whatever the case of the letters: it holds
/// the package's name, and none of the names of the system's own layers.
pub proof fn law_shown_layers(before: Seq<char>, package: Seq<char>, behind: Seq<char>)
    requires
        package.len() > 0,
        !text::is_white(package[0]),
        !text::is_white(package.last()),
    ensures
        ({
            let layer = before + package + behind;
            let name = text::lower(layer);
            is_shown_by(Some(layer), package) == (!text::contains(name, "statusbar"@)
                && !text::contains(name, "navigationbar"@) && !text::contains(name, "systemui"@)
                && !text::contains(name, "splash"@))
        }),
        is_shown_by(Some(before + package + behind), package) == is_shown_by(
            Some(text::lower(before + package + behind)),
            package,
        ),
        !is_shown_by(Some(before + "StatusBar"@ + behind), package),
        !is_shown_by(Some(before + "NavigationBar"@ + behind), package),
        !is_shown_by(Some(before + "systemui"@ + behind), package),
        !is_shown_by(Some(before + "Splash"@ + behind), package),
        !is_shown_by(None, package),
{
    text::lemma_trim_nothing(package);
    lemma_lowered_contains(before, package, behind);
    lemma_lowered_contains(before, "StatusBar"@, behind);
    lemma_lowered_contains(before, "NavigationBar"@, behind);
    lemma_lowered_contains(before, "systemui"@, behind);
    lemma_lowered_contains(before, "Splash"@, behind);
    let layer = before + package + behind;
    assert(text::lower(text::lower(layer)) =~= text::lower(layer));
    reveal_strlit("StatusBar");
    reveal_strlit("NavigationBar");
    reveal_strlit("Splash");
    reveal_strlit("statusbar");
    reveal_strlit("navigationbar");
    reveal_strlit("systemui");
    reveal_strlit("splash");
    assert(text::lower("StatusBar"@) =~= "statusbar"@);
    assert(text::lower("NavigationBar"@) =~= "navigationbar"@);
    assert(text::lower("systemui"@) =~= "systemui"@);
    assert(text::lower("Splash"@) =~= "splash"@);
}

proof fn lemma_lowered_contains(before: Seq<char>, s: Seq<char>, behind: Seq<char>)
    ensures
        text::contains(text::lower(before + s + behind), text::lower(s)),
{
    let whole = text::lower(before + s + behind);
    let at = before.len() as int;
    assert(whole.subrange(at, at + text::lower(s).len()) =~= text::lower(s));
    assert(text::occurs_at(whole, text::lower(s), at));
}

// ---------------------------------------------------------------------------
// The profiler
// ---------------------------------------------------------------------------

/// The collector of the profiler: what it is and its latest value.
#[derive(Debug)]
pub struct FpsCollector {
    metadata: CollectorMetadata,
    value_fps: i64,
}

/// The profiler of the frame rate.
#[derive(Debug)]
pub struct FpsProfiler {
    serial: Option<String>,
    sample_interval_ns: u64,
    metadata: ProfilerMetadata,
    collector: FpsCollector,
    package_name: String,
    link: Link,
}

/// What the profiler holds, abstractly.
pub struct FpsState {
    /// The serial number of the device, where one is chosen.
    pub serial: Option<Seq<char>>,
    /// The interval between samples, in nanoseconds.
    pub sample_interval_ns: u64,
    /// The latest value.
    pub value: i64,
    /// The package whose frame rate is read.
    pub package: Seq<char>,
    /// The connection and the sampler.
    pub link: Link,
}

/// What the registry is told of the profiler.
pub open spec fn description() -> (Seq<char>, Seq<(Seq<char>, Seq<char>, nat)>) {
    (PROFILER_KEY@, seq![(COLLECTOR_KEY@, UNIT_FPS@, 0nat)])
}

impl View for FpsProfiler {
    type V = FpsState;

    closed spec fn view(&self) -> FpsState {
        FpsState {
            serial: text::optional(self.serial),
            sample_interval_ns: self.sample_interval_ns,
            value: self.collector.value_fps,
            package: self.package_name@,
            link: self.link,
        }
    }
}

impl FpsCollector {
    /// The collector, without a value.
    fn new() -> (r: Result<FpsCollector, CoreError>)
        ensures
            r matches Ok(c) && c.metadata@ == (COLLECTOR_KEY@, UNIT_FPS@, 0nat)
                && c.value_fps == INVALID_METRIC_VALUE,
    {
        proof {
            reveal_strlit("main");
            reveal_strlit("FPS");
        }
        match CollectorMetadata::new(String::from_str(COLLECTOR_KEY), UNIT_FPS, 0) {
            Ok(metadata) => Ok(
                FpsCollector { metadata, value_fps: INVALID_METRIC_VALUE },
            ),
            Err(e) => Err(e),
        }
    }
}

impl FpsProfiler {
    /// What always holds of the profiler: its description is fixed, and a sampler is there only
    /// on a connection.
    pub closed spec fn wf(self) -> bool {
        self.metadata@ == description() && self.link.wf()
    }

    /// The profiler, not yet connected.
    pub fn new(serial: Option<String>, sample_interval_ns: u64, package_name: String) -> (r: Result<
        FpsProfiler,
        CoreError,
    >)
        ensures
            r matches Ok(p) && p.wf() && p@ == (FpsState {
                serial: text::optional(serial),
                sample_interval_ns,
                value: INVALID_METRIC_VALUE,
                package: package_name@,
                link: Link::idle(),
            }),
    {
        proof {
            reveal_strlit("FPS");
        }
        match FpsCollector::new() {
            Ok(collector) => {
                let mut collectors: Vec<CollectorMetadata> = Vec::new();
                collectors.push(collector.metadata.clone());
                assert(text::views(collectors@) =~= description().1);
                match ProfilerMetadata::new(PROFILER_KEY, collectors) {
                    Ok(metadata) => Ok(
                        FpsProfiler {
                            serial,
                            sample_interval_ns,
                            metadata,
                            collector,
                            package_name,
                            link: Link::new(),
                        },
                    ),
                    Err(e) => Err(e),
                }
            },
            Err(e) => Err(e),
        }
    }

    /// What the registry is told of the profiler.
    pub fn metadata_clone(&self) -> (r: ProfilerMetadata)
        requires
            self.wf(),
        ensures
            r@ == description(),
    {
        self.metadata.clone()
    }

    /// The latest value.
    pub fn snapshot_value(&self) -> (r: i64)
        ensures
            r == self@.value,
    {
        self.collector.value_fps
    }

    /// The interval between samples, in nanoseconds.
    pub fn sample_interval_ns(&self) -> (r: u64)
        ensures
            r == self@.sample_interval_ns,
    {
        self.sample_interval_ns
    }

    /// The connection and the sampler.
    pub fn link(&self) -> (r: Link)
        ensures
            r == self@.link,
    {
        self.link
    }

    /// Whether the sampler pauses.
    pub fn is_paused(&self) -> (r: bool)
        ensures
            r == (self@.link.sampler is Paused),
    {
        matches!(self.link.sampler, SamplerState::Paused)
    }

    /// The package whose frame rate is read.
    pub fn package_name(&self) -> (r: String)
        ensures
            r@ == self@.package,
    {
        self.package_name.clone()
    }

    /// Chooses the package whose frame rate is read.
    pub fn set_package_name(&mut self, package_name: String)
        requires
            old(self).wf(),
        ensures
            final(self).wf(),
            final(self)@ == (FpsState { package: package_name@, ..old(self)@ }),
    {
        self.package_name = package_name;
    }

    /// Takes up the reply to the dump command, with the rates in it as numbers, and then the
    /// reply to the command that clears the statistics for the next sample. An error of either
    /// command is passed on; the rate counts also where only the second command failed.
    pub fn sample_once(
        &mut self,
        dump: Result<String, CoreError>,
        readings: &[Option<i64>],
        cleared: Result<String, CoreError>,
    ) -> (r: Result<(), CoreError>)
        requires
            old(self).wf(),
            dump matches Ok(output) ==> readings@.len() == rate_fields(
                text::lines(output@),
            ).len(),
        ensures
            final(self).wf(),
            match dump {
                Err(e) => r == Err::<(), CoreError>(e) && final(self)@ == old(self)@,
                Ok(output) => {
                    &&& final(self)@ == (FpsState {
                        value: rate_or_invalid(output@, old(self)@.package, readings@),
                        ..old(self)@
                    })
                    &&& match cleared {
                        Ok(_) => r is Ok,
                        Err(e) => r == Err::<(), CoreError>(e),
                    }
                },
            },
    {
        match dump {
            Err(e) => Err(e),
            Ok(output) => {
                self.collector.value_fps = match parse_fps_dump(
                    output.as_str(),
                    self.package_name.as_str(),
                    readings,
                ) {
                    Some(value) => value,
                    None => INVALID_METRIC_VALUE,
                };
                match cleared {
                    Ok(_) => Ok(()),
                    Err(e) => Err(e),
                }
            },
        }
    }

    /// Takes up the replies in the loop of the sampler: an error makes the value invalid.
    pub fn tick(
        &mut self,
        dump: Result<String, CoreError>,
        readings: &[Option<i64>],
        cleared: Result<String, CoreError>,
    )
        requires
            old(self).wf(),
            dump matches Ok(output) ==> readings@.len() == rate_fields(
                text::lines(output@),
            ).len(),
        ensures
            final(self).wf(),
            final(self)@ == (FpsState {
                value: match (dump, cleared) {
                    (Ok(output), Ok(_)) => rate_or_invalid(
                        output@,
                        old(self)@.package,
                        readings@,
                    ),
                    _ => INVALID_METRIC_VALUE,
                },
                ..old(self)@
            }),
    {
        if self.sample_once(dump, readings, cleared).is_err() {
            self.collector.value_fps = INVALID_METRIC_VALUE;
        }
    }

    /// Connects with the reply to the command that turns the statistics on.
    pub fn connect(&mut self, enabled: Result<String, CoreError>) -> (r: Result<(), CoreError>)
        requires
            old(self).wf(),
        ensures
            final(self).wf(),
            match enabled {
                Err(e) => r == Err::<(), CoreError>(e) && final(self)@ == old(self)@,
                Ok(_) => r is Ok && final(self)@ == (FpsState {
                    link: Link { connected: true, ..old(self)@.link },
                    ..old(self)@
                }),
            },
    {
        match enabled {
            Err(e) => Err(e),
            Ok(_) => {
                self.link.connected = true;
                Ok(())
            },
        }
    }

    /// Begins a start. A sampler that is there goes on sampling. Where the result is `Ok(true)`,
    /// there is none and one has to be started.
    pub fn begin_start(&mut self) -> (r: Result<bool, CoreError>)
        requires
            old(self).wf(),
        ensures
            final(self).wf(),
            match r {
                Err(e) => {
                    &&& !old(self)@.link.connected
                    &&& errors::is_runtime(
                        e,
                        sampler::not_connected_text(PROFILER_KEY@, "start"@),
                    )
                    &&& final(self)@ == old(self)@
                },
                Ok(needed) => {
                    &&& old(self)@.link.connected
                    &&& needed == (old(self)@.link.sampler is Absent)
                    &&& final(self)@ == if needed {
                        old(self)@
                    } else {
                        (FpsState {
                            link: Link { sampler: SamplerState::Sampling, ..old(self)@.link },
                            ..old(self)@
                        })
                    }
                },
            },
    {
        self.link.begin_start(PROFILER_KEY)
    }

    /// Notes that a sampler has been started.
    pub fn finish_start(&mut self)
        requires
            old(self).wf(),
            old(self)@.link.connected,
        ensures
            final(self).wf(),
            final(self)@ == (FpsState {
                link: Link { sampler: SamplerState::Sampling, ..old(self)@.link },
                ..old(self)@
            }),
    {
        self.link.sampler = SamplerState::Sampling;
    }

    /// Pauses the sampler.
    pub fn pause(&mut self) -> (r: Result<(), CoreError>)
        requires
            old(self).wf(),
        ensures
            final(self).wf(),
            final(self)@ == (FpsState { link: final(self)@.link, ..old(self)@ }),
            Link::switched(
                old(self)@.link,
                final(self)@.link,
                r,
                PROFILER_KEY@,
                "pause"@,
                SamplerState::Paused,
            ),
    {
        self.link.pause(PROFILER_KEY)
    }

    /// Resumes the sampler.
    pub fn restart(&mut self) -> (r: Result<(), CoreError>)
        requires
            old(self).wf(),
        ensures
            final(self).wf(),
            final(self)@ == (FpsState { link: final(self)@.link, ..old(self)@ }),
            Link::switched(
                old(self)@.link,
                final(self)@.link,
                r,
                PROFILER_KEY@,
                "restart"@,
                SamplerState::Sampling,
            ),
    {
        self.link.restart(PROFILER_KEY)
    }

    /// Ends sampling and the connection.
    pub fn stop(&mut self) -> (r: Result<(), CoreError>)
        requires
            old(self).wf(),
        ensures
            r is Ok,
            final(self).wf(),
            final(self)@ == (FpsState {
                value: INVALID_METRIC_VALUE,
                link: Link::idle(),
                ..old(self)@
            }),
    {
        self.link.sampler = SamplerState::Absent;
        self.collector.value_fps = INVALID_METRIC_VALUE;
        self.link.connected = false;
        Ok(())
    }
}

} // verus!
