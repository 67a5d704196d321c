use perfdroid::errors::CoreError;
use perfdroid::number::{read_i32, read_i64, read_unsigned, write_i64, write_u128, write_u64};
use perfdroid::registry::ProfilerRegistry;
use perfdroid::session::SessionState;
use perfdroid::sort::order_by_key;
use perfdroid::text::{
    after_prefix, chars_of, cut, joined, replaced, split_lines, split_words, string_of, trimmed,
};
use perfdroid::types::{CollectorMetadata, ControlCommand, MetricBatch, ProfilerMetadata};

fn chars(s: &str) -> Vec<char> {
    chars_of(s)
}

#[test]
fn batches_are_filled_up_with_the_invalid_value() {
    let batch = MetricBatch::new("FPS".to_string(), "FPS", vec![60]).unwrap();
    assert_eq!(batch.values, vec![60, -1, -1, -1, -1, -1, -1, -1, -1, -1]);
    assert!(matches!(
        MetricBatch::new("FPS".to_string(), "FPS", vec![0; 11]),
        Err(CoreError::TooManyValues(11))
    ));
    assert!(matches!(
        MetricBatch::new(String::new(), "FPS", vec![]),
        Err(CoreError::EmptyField(field)) if field == "metric_key"
    ));
    assert!(matches!(
        MetricBatch::new("FPS".to_string(), "", vec![]),
        Err(CoreError::EmptyField(field)) if field == "unit"
    ));
}

#[test]
fn descriptions_need_their_fields() {
    assert!(CollectorMetadata::new(String::new(), "MHz", 0).is_err());
    assert!(CollectorMetadata::new("a".to_string(), "", 0).is_err());
    assert!(ProfilerMetadata::new("", vec![]).is_err());
    let a = CollectorMetadata::new("a".to_string(), "MHz", 2).unwrap();
    let b = CollectorMetadata::new("b".to_string(), "MHz", 0).unwrap();
    let c = CollectorMetadata::new("c".to_string(), "MHz", 2).unwrap();
    let metadata = ProfilerMetadata::new("X", vec![a, b, c]).unwrap();
    let keys: Vec<&str> =
        metadata.ordered_collectors().iter().map(|c| c.collector_key.as_str()).collect();
    assert_eq!(keys, vec!["b", "a", "c"]);
    let mut registry = ProfilerRegistry::default();
    registry.register(metadata);
    assert_eq!(registry.profilers().len(), 1);
    registry.clear();
    assert_eq!(registry.profilers().len(), 0);
}

#[test]
fn errors_have_messages() {
    assert_eq!(CoreError::EmptyField("unit".to_string()).message(), "unit must not be empty");
    assert_eq!(
        CoreError::TooManyValues(12).message(),
        "12 values exceed the capacity of a metric batch"
    );
    assert_eq!(
        CoreError::InvalidStateTransition {
            state: "Paused".to_string(),
            operation: "Pause".to_string()
        }
        .message(),
        "cannot Pause while Paused"
    );
    assert_eq!(CoreError::runtime("x").message(), "x");
}

#[test]
fn every_state_accepts_its_commands() {
    let commands = [
        ControlCommand::Connect,
        ControlCommand::Start,
        ControlCommand::Pause,
        ControlCommand::Restart,
        ControlCommand::Stop,
    ];
    let table = [
        (SessionState::Disconnected, [true, false, false, false, false]),
        (SessionState::Connected, [false, true, false, false, true]),
        (SessionState::Running, [false, false, true, false, true]),
        (SessionState::Paused, [false, false, false, true, true]),
        (SessionState::Stopped, [true, false, false, false, false]),
    ];
    for (state, accepted) in table {
        for (i, command) in commands.iter().enumerate() {
            assert_eq!(state.allows(*command), accepted[i], "{:?} {:?}", state, command);
        }
    }
    assert_eq!(SessionState::Running.as_str(), "Running");
    assert_eq!(ControlCommand::Restart.as_str(), "Restart");
}

#[test]
fn numbers_are_read_and_written() {
    assert_eq!(read_i64(&chars("-12")), Some(-12));
    assert_eq!(read_i64(&chars("+7")), Some(7));
    assert_eq!(read_i64(&chars("9223372036854775807")), Some(i64::MAX));
    assert_eq!(read_i64(&chars("9223372036854775808")), None);
    assert_eq!(read_i64(&chars("-9223372036854775808")), Some(i64::MIN));
    assert_eq!(read_i64(&chars("")), None);
    assert_eq!(read_i64(&chars("1 ")), None);
    assert_eq!(read_i32(&chars("2147483648")), None);
    assert_eq!(read_unsigned(&chars("255"), 255), Some(255));
    assert_eq!(read_unsigned(&chars("256"), 255), None);
    assert_eq!(read_unsigned(&chars("-1"), 255), None);
    assert_eq!(write_i64(i64::MIN), "-9223372036854775808");
    assert_eq!(write_u64(0), "0");
    assert_eq!(write_u128(u128::MAX), u128::MAX.to_string());
}

#[test]
fn texts_are_taken_apart() {
    let text = chars("a b\r\n\n c");
    let lines: Vec<String> = split_lines(&text).iter().map(|l| string_of(l)).collect();
    assert_eq!(lines, vec!["a b", "", " c"]);
    let words: Vec<String> = split_words(&text).iter().map(|w| string_of(w)).collect();
    assert_eq!(words, vec!["a", "b", "c"]);
    assert_eq!(string_of(trimmed(&chars("\u{3000} x \t"))), "x");
    assert_eq!(after_prefix(&chars("model:X"), "model:").map(string_of), Some("X".to_string()));
    assert_eq!(
        cut(&chars("policy0:0 1:2"), ":").map(|(a, b)| (string_of(a), string_of(b))),
        Some(("policy0".to_string(), "0 1:2".to_string()))
    );
    assert_eq!(replaced(&chars("a_b_c"), '_', " "), "a b c");
    assert_eq!(joined(&vec!["a".to_string(), "b".to_string()], ", "), "a, b");
}

#[test]
fn keys_are_sorted_stably() {
    assert_eq!(order_by_key(&[3, 1, 2, 1]), vec![1, 3, 2, 0]);
}
