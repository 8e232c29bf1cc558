use tarangam::messages::{process_buffer, process_line, should_display, Message, MsgKind};
use tarangam::numeric::is_float_text_check;
use tarangam::parse::{parse_line, ParsedLine};

fn data(line: &[u8]) -> (Vec<(Vec<u8>, Vec<u8>)>, Vec<usize>) {
    match parse_line(&line.to_vec()) {
        ParsedLine::Data { samples, errors } => {
            (samples.into_iter().map(|s| (s.name, s.value)).collect(), errors)
        },
        ParsedLine::Log => panic!("expected a data line"),
    }
}

fn pair(name: &[u8], value: &[u8]) -> (Vec<u8>, Vec<u8>) {
    (name.to_vec(), value.to_vec())
}

#[test]
fn data_line_yields_samples_in_token_order() {
    let (samples, errors) = data(b"#a=1 b=2.5 3.0");
    assert_eq!(samples, vec![pair(b"a", b"1"), pair(b"b", b"2.5"), pair(b"2", b"3.0")]);
    assert!(errors.is_empty());
    let values: Vec<f64> = samples
        .iter()
        .map(|(_, v)| std::str::from_utf8(v).unwrap().parse::<f64>().unwrap())
        .collect();
    assert_eq!(values, vec![1.0, 2.5, 3.0]);
}

#[test]
fn non_sentinel_line_is_log_with_no_samples() {
    assert!(matches!(parse_line(&b"hello world".to_vec()), ParsedLine::Log));
    assert!(matches!(parse_line(&b"a=1 b=2".to_vec()), ParsedLine::Log));
    assert!(matches!(parse_line(&b"".to_vec()), ParsedLine::Log));
}

#[test]
fn bad_keyed_value_does_not_abort_rest_of_line() {
    let (samples, errors) = data(b"#x=abc y=2");
    assert_eq!(samples, vec![pair(b"y", b"2")]);
    assert_eq!(errors, vec![0]);
}

#[test]
fn bad_bare_value_is_dropped_silently() {
    let (samples, errors) = data(b"#abc 2");
    assert_eq!(samples, vec![pair(b"1", b"2")]);
    assert!(errors.is_empty());
}

#[test]
fn multi_equals_token_is_dropped_silently() {
    let (samples, errors) = data(b"#a=b=c d=4");
    assert_eq!(samples, vec![pair(b"d", b"4")]);
    assert!(errors.is_empty());
}

#[test]
fn keyed_name_is_trimmed_value_is_not() {
    let (samples, errors) = data(b"#\ta=1");
    assert_eq!(samples, vec![pair(b"a", b"1")]);
    assert!(errors.is_empty());
    // a space inside the value splits the token instead
    let (samples, errors) = data(b"#a= 1");
    assert_eq!(samples, vec![pair(b"1", b"1")]);
    assert_eq!(errors, vec![0]);
}

#[test]
fn bare_token_is_trimmed_and_named_by_position() {
    let (samples, errors) = data(b"#\t3.5");
    assert_eq!(samples, vec![pair(b"0", b"3.5")]);
    assert!(errors.is_empty());
}

#[test]
fn bare_names_reach_two_digits() {
    let (samples, _) = data(b"#1 1 1 1 1 1 1 1 1 1 1");
    assert_eq!(samples.len(), 11);
    assert_eq!(samples[9].0, b"9".to_vec());
    assert_eq!(samples[10].0, b"10".to_vec());
}

#[test]
fn float_recognizer_matches_std_parse() {
    let cases: [&str; 30] = [
        "1", "2.5", "3.0", ".5", "5.", "+1", "-2.5", "1e5", "1E-5", "1e+5", "inf", "Infinity",
        "NAN", "nan", "-inf", "", ".", "e5", "1e", "1e5.5", "abc", "+", "-", "1.2.3", "--1", "1 ",
        " 1", "0x10", "1_000", "12e03",
    ];
    for c in cases {
        assert_eq!(
            is_float_text_check(&c.as_bytes().to_vec()),
            c.parse::<f64>().is_ok(),
            "disagreement on {:?}",
            c
        );
    }
}

#[test]
fn data_line_emits_batch_then_point_echo() {
    let msgs = process_line(&b"#a=1".to_vec());
    assert_eq!(msgs.len(), 2);
    match &msgs[0] {
        Message::Batch { samples } => {
            assert_eq!(samples.len(), 1);
            assert_eq!(samples[0].name, b"a".to_vec());
            assert_eq!(samples[0].value, b"1".to_vec());
        },
        _ => panic!("expected a batch first"),
    }
    match &msgs[1] {
        Message::LogOrEcho { text, kind } => {
            assert_eq!(text, &b"#a=1".to_vec());
            assert_eq!(*kind, MsgKind::Point);
        },
        _ => panic!("expected the echo second"),
    }
}

#[test]
fn log_line_emits_single_log_message() {
    let msgs = process_line(&b"booting".to_vec());
    assert_eq!(msgs.len(), 1);
    match &msgs[0] {
        Message::LogOrEcho { text, kind } => {
            assert_eq!(text, &b"booting".to_vec());
            assert_eq!(*kind, MsgKind::Log);
        },
        _ => panic!("expected a log line"),
    }
}

#[test]
fn buffer_processes_every_line_and_skips_empty_ones() {
    let msgs = process_buffer(&b"log1\n#a=1\r\n\npartial".to_vec());
    assert_eq!(msgs.len(), 4);
    assert!(matches!(&msgs[0], Message::LogOrEcho { kind: MsgKind::Log, .. }));
    assert!(matches!(&msgs[1], Message::Batch { .. }));
    match &msgs[2] {
        Message::LogOrEcho { text, kind } => {
            assert_eq!(text, &b"#a=1".to_vec());
            assert_eq!(*kind, MsgKind::Point);
        },
        _ => panic!("expected the echo"),
    }
    match &msgs[3] {
        Message::LogOrEcho { text, kind } => {
            assert_eq!(text, &b"partial".to_vec());
            assert_eq!(*kind, MsgKind::Log);
        },
        _ => panic!("expected the trailing fragment"),
    }
    assert!(process_buffer(&b"\n\n".to_vec()).is_empty());
}

#[test]
fn display_filter_hides_echoes_unless_full_log() {
    assert!(!should_display(MsgKind::Point, false));
    assert!(should_display(MsgKind::Point, true));
    assert!(should_display(MsgKind::Log, false));
    assert!(should_display(MsgKind::Log, true));
}
