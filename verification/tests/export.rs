use std::sync::Arc;

use perfdroid::export::page::{
    all_numbers_fit, chart_peak, export_session_to_html, numbers_fit, series_samples, ChartNumbers,
};
use perfdroid::export::panel::{
    build_latest_cards, build_metric_rows, build_panels, detect_line_count, reads_as_printable,
    session_fits_charts, Legend, Panel,
};
use perfdroid::export::picture::{render_report_svg, session_picture};
use perfdroid::export::raster::{
    export_session_to_png, pack_tree, png_write_failure, rasterize_svg_to_png,
};
use perfdroid::export::{
    build_rows, elapsed_times, export_session_to_csv, export_session_to_json, html_escape,
    json_escape, time_precision_for_hz, write_csv_field, xml_escape,
};
use perfdroid::storage::{SessionStore, TimestampedBatch};
use perfdroid::types::MetricBatch;
use resvg::tiny_skia::Pixmap;
use resvg::usvg::fontdb::Database;
use resvg::usvg::{Options, Tree};

fn frame(timestamp_ms: u64, key: &str, unit: &str, values: Vec<i64>) -> TimestampedBatch {
    TimestampedBatch {
        timestamp_ms,
        batch: MetricBatch { metric_key: key.to_string(), unit: unit.to_string(), values },
    }
}

fn labels(session: &SessionStore, hz: u64) -> Vec<String> {
    let precision = time_precision_for_hz(hz);
    elapsed_times(session)
        .iter()
        .map(|ms| format!("{:.precision$}", *ms as f64 / 1000.0))
        .collect()
}

fn numbers_of(panel: &Panel) -> ChartNumbers {
    let peak = (chart_peak(panel) as f64 / panel.scale as f64).max(1.0);
    let mut points: Vec<Vec<String>> = Vec::new();
    let mut stats: Vec<Option<Vec<String>>> = Vec::new();
    for place in &panel.series_indexes {
        points.push(
            panel
                .rows
                .iter()
                .map(|row| format!("{:.2},{:.2}", row.elapsed_ms as f64, row.values[*place] as f64))
                .collect(),
        );
        let samples = series_samples(&panel.rows, *place);
        stats.push(if samples.is_empty() { None } else { Some(vec!["1.00".to_string(); 9]) });
    }
    ChartNumbers {
        max_value: format!("{peak:.1}"),
        half_value: format!("{:.1}", peak / 2.0),
        max_time: "1.0".to_string(),
        points,
        stats,
    }
}

fn numbers(session: &SessionStore) -> Vec<ChartNumbers> {
    build_panels(session, "--".to_string()).iter().map(numbers_of).collect()
}

fn fonts() -> Arc<Database> {
    Arc::new(Database::new())
}

#[test]
fn export_generates_csv_with_header_and_rows() {
    let mut store = SessionStore::default();
    store.push(frame(2000, "FPS", "FPS", vec![119]));
    store.push(frame(1000, "CPU_CLOCK", "MHz", vec![1400, 1700]));

    let (text, rows) = export_session_to_csv(&store, 4, &labels(&store, 4));
    assert_eq!(rows, 2);
    assert!(text.starts_with("time_s(dp=2,hz=4),metric_key,unit,value_0"));
    assert!(text.contains("0.00s,\"CPU_CLOCK\",\"MHz\",1400,1700"));
    assert!(text.contains("1.00s,\"FPS\",\"FPS\",119,-1,-1"));
    assert_eq!(
        text,
        "time_s(dp=2,hz=4),metric_key,unit,value_0,value_1,value_2,value_3,value_4,value_5,value_6,value_7,value_8,value_9\n\
         0.00s,\"CPU_CLOCK\",\"MHz\",1400,1700,-1,-1,-1,-1,-1,-1,-1,-1\n\
         1.00s,\"FPS\",\"FPS\",119,-1,-1,-1,-1,-1,-1,-1,-1,-1\n"
    );
}

#[test]
fn export_generates_json_and_html() {
    let mut store = SessionStore::default();
    store.push(frame(1000, "FPS", "FPS", vec![90]));

    let (json_text, json_rows) = export_session_to_json(&store, 5, &labels(&store, 5));
    assert_eq!(json_rows, 1);
    assert!(json_text.contains("\"rows\": ["));
    assert_eq!(
        json_text,
        "{\n  \"sampling_hz\": 5,\n  \"time_precision\": 1,\n  \"rows\": [\n    {\n      \"time_s\": 0.0,\n      \"metric_key\": \"FPS\",\n      \"unit\": \"FPS\",\n      \"values\": [90, -1, -1, -1, -1, -1, -1, -1, -1, -1]\n    }\n  ]\n}"
    );

    let figures = numbers(&store);
    let (html_text, html_rows) = export_session_to_html(&store, 5, "--".to_string(), &figures);
    assert_eq!(html_rows, 1);
    assert!(html_text.contains("CPU Clock"));
    assert!(html_text.contains("<th>median</th>"));
    assert!(html_text.ends_with("</body></html>"));

    let (png_bytes, png_rows) =
        export_session_to_png("x.png", &store, "--".to_string(), &figures, &fonts())
            .expect("png export");
    assert_eq!(png_rows, 1);
    assert!(png_bytes.starts_with(&[137, 80, 78, 71, 13, 10, 26, 10]));
}

#[test]
fn an_empty_session_exports_no_rows() {
    let store = SessionStore::default();
    let (text, rows) = export_session_to_json(&store, 7, &labels(&store, 7));
    assert_eq!(rows, 0);
    assert_eq!(
        text,
        "{\n  \"sampling_hz\": 7,\n  \"time_precision\": 3,\n  \"rows\": [\n  ]\n}"
    );
    let (text, rows) = export_session_to_csv(&store, 1, &labels(&store, 1));
    assert_eq!(rows, 0);
    assert!(text.ends_with("value_9\n"));
}

#[test]
fn rows_are_sorted_by_time_and_keep_the_order_of_channels() {
    let mut store = SessionStore::default();
    store.push(frame(500, "POWER", "mW", vec![3]));
    store.push(frame(500, "CPU_CLOCK", "MHz", vec![1]));
    store.push(frame(400, "FPS", "FPS", vec![2]));
    let rows = build_rows(&store);
    let keys: Vec<&str> = rows.iter().map(|r| r.metric_key.as_str()).collect();
    assert_eq!(keys, vec!["FPS", "CPU_CLOCK", "POWER"]);
    assert_eq!(elapsed_times(&store), vec![0, 100, 100]);
    assert_eq!(rows[0].values, vec![2, -1, -1, -1, -1, -1, -1, -1, -1, -1]);
}

#[test]
fn the_time_precision_follows_the_sampling_rate() {
    let expected = [1, 1, 1, 3, 2, 1, 3, 3, 3, 3, 1, 1];
    for hz in 0..expected.len() {
        assert_eq!(time_precision_for_hz(hz as u64), expected[hz], "hz {hz}");
    }
}

#[test]
fn texts_are_escaped() {
    assert_eq!(write_csv_field("a\"b"), "\"a\"\"b\"");
    assert_eq!(json_escape("a\\\"b"), "a\\\\\\\"b");
    assert_eq!(html_escape("<a & b>"), "&lt;a &amp; b&gt;");
    assert_eq!(xml_escape("<a & b>"), "&lt;a &amp; b&gt;");
}

#[test]
fn charts_show_what_the_frames_hold() {
    let mut store = SessionStore::default();
    store.push(frame(1000, "CPU_CLOCK", "MHz", vec![1400, 1700, -1, 900]));
    store.push(frame(1250, "CPU_CLOCK", "MHz", vec![1500, 1800, -1, -1]));
    assert_eq!(detect_line_count(store.cpu_clock_frames()), 2);
    assert_eq!(detect_line_count(store.fps_frames()), 1);
    let rows = build_metric_rows(store.cpu_clock_frames());
    assert_eq!(rows[1].elapsed_ms, 250);
    assert_eq!(rows[0].values, vec![1400, 1700, 0, 900, 0, 0, 0, 0, 0, 0]);
    assert_eq!(series_samples(&rows, 3), vec![900]);
    let panels = build_panels(&store, "--".to_string());
    assert_eq!(panels.len(), 5);
    assert_eq!(chart_peak(&panels[0]), 1800);
    assert_eq!(panels[0].legends[1].label, "policy1");
    assert_eq!(panels[0].legends[1].color, "#F97316");
    assert_eq!(panels[2].cards[0].value, "--");
    assert!(session_fits_charts(&store));
}

#[test]
fn a_frame_with_too_many_values_does_not_fit_the_charts() {
    let mut store = SessionStore::default();
    store.push(frame(1, "CPU_USAGE", "%", vec![1; 11]));
    assert!(!session_fits_charts(&store));
}

#[test]
fn cards_name_the_values_that_are_there() {
    let cards = build_latest_cards(&vec![Some(3), None, Some(5)], "MHz", "policy");
    assert_eq!(cards.len(), 2);
    assert_eq!(cards[1].name, "policy2");
    assert_eq!(cards[1].value, "5 MHz");
    let cards = build_latest_cards(&vec![None], "MHz", "policy");
    assert_eq!(cards[0].name, "--");
}

#[test]
fn the_picture_of_a_session_can_be_drawn() {
    let mut store = SessionStore::default();
    store.push(frame(1000, "VOLTAGE", "mV", vec![4300]));
    store.push(frame(2000, "VOLTAGE", "mV", vec![4310]));
    store.push(frame(2000, "BATTERY_TEMP", "0.1C", vec![301]));
    let figures = numbers(&store);
    let svg = session_picture(&store, "30.1 C".to_string(), &figures);
    assert!(svg.starts_with("<svg xmlns=\"http://www.w3.org/2000/svg\" width=\"1200\" height=\"2220\""));
    assert!(svg.contains("30.1 C"));
    assert!(svg.ends_with("</svg>"));
    let drawn = rasterize_svg_to_png("x.png", &svg, &fonts()).expect("drawing");
    // The width and height of a PNG file stand behind its signature and the name of its header.
    assert_eq!(drawn[16..24], [0, 0, 4, 176, 0, 0, 8, 172]);
    assert_ne!(drawn, svg.as_bytes());
}

/// A panel with many lines and no rows.
fn wide_panel(lines: usize) -> (Panel, ChartNumbers) {
    let panel = Panel {
        title: "",
        footer: "",
        rows: Vec::new(),
        scale: 1,
        legends: (0..lines)
            .map(|_| Legend { label: "x".to_string(), color: "#2563EB" })
            .collect(),
        unit: "",
        cards: Vec::new(),
        series_indexes: vec![0; lines],
    };
    let numbers = ChartNumbers {
        max_value: "1.0".to_string(),
        half_value: "0.5".to_string(),
        max_time: "1.0".to_string(),
        points: vec![Vec::new(); lines],
        stats: vec![None; lines],
    };
    (panel, numbers)
}

#[test]
fn a_picture_with_too_many_shapes_is_refused() {
    let (panel, numbers) = wide_panel(400_000);
    let (panels, numbers) = (vec![panel], vec![numbers]);
    assert!(all_numbers_fit(&numbers, &panels));
    let svg = render_report_svg(&panels, &numbers);
    let message = rasterize_svg_to_png("x.png", &svg, &fonts()).unwrap_err();
    assert!(message.starts_with("failed to parse report svg: "));
    assert!(message.len() > "failed to parse report svg: ".len());
    assert_eq!(png_write_failure("x.png", "full"), "failed to write png `x.png`: full");
}

#[test]
fn a_parsed_picture_is_packed_in_a_given_size() {
    let svg = render_report_svg(&Vec::new(), &Vec::new());
    let tree = Tree::from_str(&svg, &Options::default()).unwrap();
    for (width, height) in [(0, 2), (3, 0), (4_000_000_000, 4_000_000_000), (1, 2_147_483_648)] {
        assert_eq!(
            pack_tree("x.png", &tree, width, height).unwrap_err(),
            "failed to allocate pixmap"
        );
    }
    let drawn = pack_tree("x.png", &tree, 7, 5).unwrap();
    assert_eq!(drawn[16..24], [0, 0, 0, 7, 0, 0, 0, 5]);
    let drawn = rasterize_svg_to_png("x.png", &svg, &fonts()).unwrap();
    assert_eq!(drawn[16..24], [0, 0, 4, 176, 0, 0, 0, 20]);
}

#[test]
fn a_picture_is_drawn_and_not_only_packed() {
    let svg = render_report_svg(&Vec::new(), &Vec::new());
    let drawn = rasterize_svg_to_png("x.png", &svg, &fonts()).unwrap();
    let drawn = Pixmap::decode_png(&drawn).unwrap();
    assert_eq!(drawn.data(), [243, 235, 221, 255].repeat(1200 * 20));
}

#[test]
fn only_printed_numbers_fit_a_panel() {
    let mut store = SessionStore::default();
    store.push(frame(1000, "FPS", "FPS", vec![90]));
    let panels = build_panels(&store, "--".to_string());
    let figures = numbers(&store);
    assert!(all_numbers_fit(&figures, &panels));
    assert!(!all_numbers_fit(&Vec::new(), &panels));
    let fps = &panels[4];
    let mut figure = numbers_of(fps);
    assert!(numbers_fit(&figure, fps));
    figure.max_value = "<b>".to_string();
    assert!(!numbers_fit(&figure, fps));
    figure.max_value = "9".repeat(33);
    assert!(!numbers_fit(&figure, fps));
    let mut figure = numbers_of(fps);
    figure.points[0][0] = "1e39,0".to_string();
    assert!(!numbers_fit(&figure, fps));
    let mut figure = numbers_of(fps);
    figure.stats[0] = None;
    assert!(!numbers_fit(&figure, fps));
    figure.stats[0] = Some(vec!["1.00".to_string(); 8]);
    assert!(!numbers_fit(&figure, fps));
    assert!(reads_as_printable("30.1 C"));
    assert!(!reads_as_printable("30.1\u{b0}"));
}

#[test]
fn every_known_frame_that_is_pushed_is_exported() {
    let mut store = SessionStore::default();
    store.push(frame(700, "FPS", "FPS", vec![60]));
    store.push(frame(500, "VOLTAGE", "mV", vec![4300]));
    store.push(frame(500, "SPEED", "m/s", vec![1]));
    let rows = build_rows(&store);
    assert_eq!(rows.len(), 2);
    assert_eq!(rows[0].unit, "mV");
    assert_eq!(rows[1].metric_key, "FPS");
    assert_eq!(rows[1].elapsed_ms, 200);
    assert_eq!(rows[1].values[..2], [60, -1]);
}

#[test]
fn escaped_texts_hold_no_tags() {
    let text = html_escape("<b>&<i>");
    assert_eq!(text, "&lt;b&gt;&amp;&lt;i&gt;");
    assert!(!text.contains('<') && !text.contains('>'));
}
