use split_rush::{parse_records, parse_si, parse_si_error, read_split_info, RawRecord, RecordField, SplitError};

fn row(fields: &[&str], line: Option<u64>) -> RawRecord {
    RawRecord { fields: fields.iter().map(|f| f.to_string()).collect(), line }
}

#[test]
fn one_field_misses_end() {
    let r = parse_si(&row(&["00:00:01"], Some(2)), 1);
    assert_eq!(r.unwrap_err(), SplitError::MissingField { field: RecordField::End, line: Some(2) });
}

#[test]
fn zero_fields_miss_start() {
    let r = parse_si(&row(&[], None), 1);
    assert_eq!(r.unwrap_err(), SplitError::MissingField { field: RecordField::Start, line: None });
}

#[test]
fn extra_fields_are_ignored() {
    let si = parse_si(&row(&["1", "2", "3"], Some(5)), 4).unwrap();
    assert_eq!(si.number, 4);
    assert_eq!(si.start, "1");
    assert_eq!(si.end, "2");
}

#[test]
fn error_names_field_and_line() {
    let e = parse_si_error(&row(&["a"], Some(9)), RecordField::End);
    assert_eq!(e, SplitError::MissingField { field: RecordField::End, line: Some(9) });
}

#[test]
fn records_are_numbered_from_one() {
    let rows = vec![row(&["a", "b"], Some(2)), row(&["c", "d"], Some(3)), row(&["e", "f"], Some(4))];
    let infos = parse_records(&rows).unwrap();
    let numbers: Vec<u64> = infos.iter().map(|s| s.number).collect();
    assert_eq!(numbers, vec![1, 2, 3]);
    assert_eq!(infos[2].start, "e");
    assert_eq!(infos[2].end, "f");
}

#[test]
fn first_incomplete_row_is_reported() {
    let rows = vec![row(&["a", "b"], Some(2)), row(&["c"], Some(3)), row(&[], Some(4))];
    let e = parse_records(&rows).unwrap_err();
    assert_eq!(e, SplitError::MissingField { field: RecordField::End, line: Some(3) });
}

#[test]
fn table_rows_in_order() {
    let data = b"start,end\n00:00:00,00:01:00\n00:01:00,00:02:30\n00:02:30,00:03:00\n";
    let infos = read_split_info(data).unwrap();
    assert_eq!(infos.len(), 3);
    let numbers: Vec<u64> = infos.iter().map(|s| s.number).collect();
    assert_eq!(numbers, vec![1, 2, 3]);
    assert_eq!(infos[1].start, "00:01:00");
    assert_eq!(infos[1].end, "00:02:30");
}

#[test]
fn header_only_gives_no_rows() {
    let infos = read_split_info(b"start,end\n").unwrap();
    assert!(infos.is_empty());
}

#[test]
fn single_column_table_misses_end() {
    let e = read_split_info(b"start\n00:00:01\n").unwrap_err();
    assert_eq!(e, SplitError::MissingField { field: RecordField::End, line: Some(2) });
}

#[test]
fn unequal_rows_are_malformed() {
    let e = read_split_info(b"start,end\n1,2\n1,2,3\n").unwrap_err();
    assert_eq!(e, SplitError::MalformedRecord);
}

#[test]
fn invalid_text_is_malformed() {
    let e = read_split_info(b"start,end\n\xff,2\n").unwrap_err();
    assert_eq!(e, SplitError::MalformedRecord);
}

#[test]
fn missing_field_precedes_later_reader_error() {
    let e = read_split_info(b"start\n1\n1,2\n").unwrap_err();
    assert_eq!(e, SplitError::MissingField { field: RecordField::End, line: Some(2) });
}
