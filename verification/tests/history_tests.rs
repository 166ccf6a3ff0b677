use prophesy::charge::ChargeState;
use prophesy::history::{
    history_by_timestamp, history_csv, history_is_readable, is_history_file_path, parse_history,
    CsvRow, HistoryRecord,
};
use prophesy::text::{parse_i64, split_bytes};

#[test]
fn parses_upower_history_lines() {
    let data = b"1700000000\t85.000\tdischarging\n1700000120\t84.000\tcharging\n1700000240\t84.500\tfully-charged\n";
    assert!(history_is_readable(data));
    let records = parse_history(data);
    assert_eq!(records.len(), 3);
    assert_eq!(records[0].timestamp, 1700000000);
    assert_eq!(records[0].value, b"85.000".to_vec());
    assert_eq!(records[0].charge_state, ChargeState::Discharging);
    assert_eq!(records[1].timestamp, 1700000120);
    assert_eq!(records[1].charge_state, ChargeState::Charging);
    assert_eq!(records[2].value, b"84.500".to_vec());
    assert_eq!(records[2].charge_state, ChargeState::Unknown);
}

#[test]
fn skips_lines_with_fewer_than_three_columns() {
    let data = b"\n1700000000\t85.0\n garbage\n1700000060\t80.0\tcharging\n";
    assert!(history_is_readable(data));
    let records = parse_history(data);
    assert_eq!(records.len(), 1);
    assert_eq!(records[0].timestamp, 1700000060);
}

#[test]
fn extra_columns_are_ignored_and_state_must_match_exactly() {
    let data = b"-5\t1\tcharging\textra\n+7\t2\tcharging\r";
    let records = parse_history(data);
    assert_eq!(records.len(), 2);
    assert_eq!(records[0].timestamp, -5);
    assert_eq!(records[0].charge_state, ChargeState::Charging);
    assert_eq!(records[1].timestamp, 7);
    assert_eq!(records[1].charge_state, ChargeState::Unknown);
}

#[test]
fn truncated_buffer_tail_is_skipped() {
    let mut data = b"1700000000\t85.0\tcharging\n".to_vec();
    data.extend(std::iter::repeat(0u8).take(20));
    let records = parse_history(&data);
    assert_eq!(records.len(), 1);
}

#[test]
fn unreadable_timestamp_is_detected() {
    assert!(!history_is_readable(b"12ab\t85.0\tcharging\n"));
    assert!(!history_is_readable(b"\t85.0\tcharging"));
    assert!(history_is_readable(b"12ab\t85.0\n"));
    assert!(history_is_readable(b""));
}

#[test]
fn parse_i64_follows_integer_parsing() {
    assert_eq!(parse_i64(b"0"), Some(0));
    assert_eq!(parse_i64(b"-0"), Some(0));
    assert_eq!(parse_i64(b"+15"), Some(15));
    assert_eq!(parse_i64(b"9223372036854775807"), Some(i64::MAX));
    assert_eq!(parse_i64(b"-9223372036854775808"), Some(i64::MIN));
    assert_eq!(parse_i64(b"9223372036854775808"), None);
    assert_eq!(parse_i64(b"-9223372036854775809"), None);
    assert_eq!(parse_i64(b"99999999999999999999999"), None);
    assert_eq!(parse_i64(b""), None);
    assert_eq!(parse_i64(b"-"), None);
    assert_eq!(parse_i64(b"+"), None);
    assert_eq!(parse_i64(b" 1"), None);
    assert_eq!(parse_i64(b"1.5"), None);
    for v in [0i64, 1, -1, 42, -4242, i64::MAX, i64::MIN] {
        assert_eq!(parse_i64(v.to_string().as_bytes()), Some(v));
    }
}

#[test]
fn split_follows_str_split() {
    for text in ["", "a", "a\tb", "\t", "a\t\tb\t", "\t\t"] {
        let pieces = split_bytes(text.as_bytes(), b'\t');
        let expected: Vec<Vec<u8>> = text.split('\t').map(|p| p.as_bytes().to_vec()).collect();
        assert_eq!(pieces, expected);
    }
}

#[test]
fn later_record_replaces_earlier_one_with_same_timestamp() {
    let data = b"100\t1.0\tcharging\n200\t2.0\tdischarging\n100\t3.0\tdischarging\n";
    let history = history_by_timestamp(parse_history(data));
    assert_eq!(history.len(), 2);
    let first: &HistoryRecord = &history[&100];
    assert_eq!(first.value, b"3.0".to_vec());
    assert_eq!(first.charge_state, ChargeState::Discharging);
    assert_eq!(history[&200].value, b"2.0".to_vec());
    for (key, record) in history.iter() {
        assert_eq!(*key, record.timestamp);
    }
}

#[test]
fn generic_data_files_are_not_history() {
    assert!(is_history_file_path(b"/var/lib/upower/history-charge-BAT0.dat"));
    assert!(!is_history_file_path(b"/var/lib/upower/history-rate-generic_id.dat"));
    assert!(!is_history_file_path(b"generic"));
    assert!(is_history_file_path(b"generi"));
    assert!(is_history_file_path(b""));
}

#[test]
fn csv_export_lines() {
    let rows = vec![
        CsvRow { unix_time: 1700000000, value: "85".to_string(), charge_state: ChargeState::Charging },
        CsvRow { unix_time: -3, value: "84.5".to_string(), charge_state: ChargeState::Discharging },
        CsvRow { unix_time: 0, value: "0".to_string(), charge_state: ChargeState::Unknown },
    ];
    assert_eq!(
        history_csv(&rows),
        "date_time,capacity,state\n1700000000,85,Charging\n-3,84.5,Discharging\n0,0,Unknown\n"
    );
    assert_eq!(history_csv(&[]), "date_time,capacity,state\n");
}

#[test]
fn csv_time_column_reads_back() {
    let rows = vec![CsvRow { unix_time: i64::MIN, value: "1".to_string(), charge_state: ChargeState::Unknown }];
    let csv = history_csv(&rows);
    let line = csv.lines().nth(1).unwrap();
    let first = line.split(',').next().unwrap();
    assert_eq!(parse_i64(first.as_bytes()), Some(i64::MIN));
}

#[test]
fn charge_state_names_and_labels() {
    assert_eq!(ChargeState::from_name(b"charging"), ChargeState::Charging);
    assert_eq!(ChargeState::from_name(b"discharging"), ChargeState::Discharging);
    assert_eq!(ChargeState::from_name(b"Charging"), ChargeState::Unknown);
    assert_eq!(ChargeState::from_name(b""), ChargeState::Unknown);
    assert_eq!(ChargeState::Charging.label(), "Charging");
    assert_eq!(ChargeState::Discharging.label(), "Discharging");
    assert_eq!(ChargeState::Unknown.label(), "Unknown");
}
