use bead_rs::error::Error;
use bead_rs::migrate::{migration_output, read_migration_input, tally_records, RecordVerdict};
use sha2::{Digest, Sha256};

fn hex_sha256(bytes: &[u8]) -> String {
    Sha256::digest(bytes).iter().map(|b| format!("{:02x}", b)).collect()
}

const INPUT: &[u8] = b"{\"id\":\"bd-1\"}\n\n  \r\n{\"id\":\"bd-2\"}\r\n";

#[test]
fn reading_counts_lines_blank_lines_and_records() {
    let read = read_migration_input(INPUT);
    assert_eq!(read.input_sha256, hex_sha256(INPUT));
    assert_eq!(read.records, vec!["{\"id\":\"bd-1\"}".to_string(), "{\"id\":\"bd-2\"}".to_string()]);
    assert_eq!(read.record_lines, vec![1, 4]);
    assert_eq!(read.total_lines, 4);
    assert_eq!(read.blank_lines, 2);
    assert_eq!(read.failure, None);
}

#[test]
fn a_last_line_without_newline_is_still_read() {
    let read = read_migration_input(b"{\"a\":1}\n{\"b\":2}");
    assert_eq!(read.total_lines, 2);
    assert_eq!(read.record_lines, vec![1, 2]);
    let empty = read_migration_input(b"");
    assert_eq!(empty.total_lines, 0);
    assert!(empty.records.is_empty());
}

#[test]
fn reading_stops_at_the_first_bad_line() {
    let read = read_migration_input(b"{\"a\":1}\n[1, 2]\n{bad\n");
    assert_eq!(read.failure.as_deref(), Some("Line 2 is not a JSON object"));
    assert_eq!(read.records.len(), 1);
    let read = read_migration_input(b"\n{bad\n");
    assert_eq!(read.failure.as_deref(), Some("Failed to parse JSON on line 2"));
    let read = read_migration_input(b"{\"a\":1}\n\xff\xfe\n");
    assert_eq!(read.failure.as_deref(), Some("Failed to read line"));
}

#[test]
fn record_counts_follow_the_adapter_verdicts() {
    let read = read_migration_input(INPUT);
    let counts = tally_records(&read, &vec![RecordVerdict::Issue, RecordVerdict::Malformed]).unwrap();
    assert_eq!(counts.total_issues, 1);
    assert_eq!(counts.input_issues, 1);
    assert_eq!(counts.output_issues, 0);
    assert_eq!(counts.total_lines, 4);
    assert_eq!(counts.blank_lines, 2);
    assert_eq!(counts.malformed_lines, 1);
    match tally_records(&read, &vec![RecordVerdict::Issue, RecordVerdict::Unreadable]) {
        Err(Error::Validation(m)) => assert_eq!(m, "Failed to parse issue on line 4"),
        other => panic!("unexpected {:?}", other),
    }
    match tally_records(&read, &vec![RecordVerdict::AdapterFailed("no id".to_string()), RecordVerdict::Unreadable]) {
        Err(Error::Validation(m)) => assert_eq!(m, "no id"),
        other => panic!("unexpected {:?}", other),
    }
}

#[test]
fn an_earlier_record_failure_comes_before_the_reading_failure() {
    let read = read_migration_input(b"{\"a\":1}\n7\n");
    assert_eq!(read.failure.as_deref(), Some("Line 2 is not a JSON object"));
    match tally_records(&read, &vec![RecordVerdict::Unreadable]) {
        Err(Error::Validation(m)) => assert_eq!(m, "Failed to parse issue on line 1"),
        other => panic!("unexpected {:?}", other),
    }
    match tally_records(&read, &vec![RecordVerdict::Issue]) {
        Err(Error::Validation(m)) => assert_eq!(m, "Line 2 is not a JSON object"),
        other => panic!("unexpected {:?}", other),
    }
}

#[test]
fn output_is_one_line_per_record_with_its_digest() {
    let (bytes, digest) = migration_output(&vec!["{\"a\":1}".to_string(), "{\"b\":2}".to_string()]);
    assert_eq!(bytes, b"{\"a\":1}\n{\"b\":2}\n".to_vec());
    assert_eq!(digest, hex_sha256(&bytes));
}
