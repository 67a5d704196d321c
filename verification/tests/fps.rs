use perfdroid::errors::CoreError;
use perfdroid::profiler::fps::{
    average_fps_fields, extract_field_value, is_interesting_layer, parse_fps_dump, FpsProfiler,
};

fn readings(output: &str) -> Vec<Option<i64>> {
    average_fps_fields(output)
        .iter()
        .map(|field| field.parse::<f64>().ok().map(|raw| raw.round() as i64))
        .collect()
}

fn fps_in(output: &str, package: &str) -> Option<i64> {
    parse_fps_dump(output, package, &readings(output))
}

#[test]
fn parses_average_fps_from_dump() {
    let output = "layerName=com.demo.game/MainActivity#0\naverageFPS=58.6\n";
    assert_eq!(fps_in(output, "com.demo.game"), Some(59));
}

#[test]
fn parses_average_fps_with_spaces_and_colons() {
    let output = "layerName = com.demo.game/MainActivity#0\naverageFPS : 60.0\n";
    assert_eq!(fps_in(output, "com.demo.game"), Some(60));
}

#[test]
fn ignores_system_layers() {
    let output = "layerName=com.android.systemui.statusbar\naverageFPS=120.0\nlayerName=com.demo.game\naverageFPS=59.2\n";
    assert_eq!(fps_in(output, "com.demo.game"), Some(59));
}

#[test]
fn empty_package_name_disables_matching() {
    let output = "layerName=com.demo.game\naverageFPS=59.2\n";
    assert_eq!(fps_in(output, ""), None);
}

#[test]
fn the_highest_rate_of_the_package_counts() {
    let output = "layerName=com.demo.game#1\naverageFPS=30.2\nlayerName=com.demo.game#2\naverageFPS=59.7\nlayerName=other\naverageFPS=90\n";
    assert_eq!(fps_in(output, "com.demo.game"), Some(60));
}

#[test]
fn a_rate_that_is_no_number_ends_the_reading() {
    let output = "layerName=com.demo.game\naverageFPS=59.2\naverageFPS=fast\n";
    assert_eq!(average_fps_fields(output), vec!["59.2", "fast"]);
    assert_eq!(fps_in(output, "com.demo.game"), None);
}

#[test]
fn fields_are_found_behind_their_keys() {
    let line: Vec<char> = "layerName = demo".chars().collect();
    let value: Option<String> =
        extract_field_value(&line, "layerName").map(|v| v.iter().collect());
    assert_eq!(value.map(|v| v.trim().to_string()), Some("demo".to_string()));
    assert!(extract_field_value(&line, "averageFPS").is_none());
    assert!(is_interesting_layer(&Some("com.demo.game#0".to_string()), "com.demo.game"));
    assert!(!is_interesting_layer(&None, "com.demo.game"));
}

#[test]
fn the_profiler_reads_the_rate_of_its_package() {
    let mut profiler = FpsProfiler::new(None, 1, "com.demo.game".to_string()).unwrap();
    assert_eq!(
        profiler.connect(Err(CoreError::runtime("closed"))).unwrap_err().message(),
        "closed"
    );
    profiler.connect(Ok(String::new())).unwrap();
    assert!(profiler.begin_start().unwrap());
    profiler.finish_start();
    let dump = "layerName=com.demo.game\naverageFPS=59.2\n";
    profiler.sample_once(Ok(dump.to_string()), &readings(dump), Ok(String::new())).unwrap();
    assert_eq!(profiler.snapshot_value(), 59);
    profiler.set_package_name("com.other".to_string());
    assert_eq!(profiler.package_name(), "com.other");
    profiler.tick(Ok(dump.to_string()), &readings(dump), Ok(String::new()));
    assert_eq!(profiler.snapshot_value(), -1);
    profiler.set_package_name("com.demo.game".to_string());
    let cleared = Err(CoreError::runtime("closed"));
    assert!(profiler.sample_once(Ok(dump.to_string()), &readings(dump), cleared).is_err());
    assert_eq!(profiler.snapshot_value(), 59);
    profiler.tick(Err(CoreError::runtime("closed")), &[], Ok(String::new()));
    assert_eq!(profiler.snapshot_value(), -1);
}
