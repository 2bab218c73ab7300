use fqlib::fastq::{parse_fastq, ParseErrorKind};
use fqlib::filter::{copy_filtered, read_names, NameSet};

#[test]
fn test_copy_filtered() {
    let names = NameSet::new().insert("@fqlib:2/1".as_bytes().to_vec());

    let data = "\
@fqlib:1/1\nAGCT\n+\nabcd
@fqlib:2/1\nTCGA\n+\ndcba
@fqlib:3/1\nGCCA\n+\ngcca
";

    let buf = copy_filtered(data.as_bytes(), &names).unwrap();

    let expected = b"@fqlib:2/1\nTCGA\n+\ndcba\n";
    assert_eq!(buf, expected);
}

#[test]
fn test_read_names() {
    let data = "@fqlib:1/1\n@fqlib:2/1\n@fqlib:3/1\n";

    let names = read_names(data.as_bytes());

    assert_eq!(names.len(), 3);
    assert!(names.contains("@fqlib:1/1".as_bytes()));
    assert!(names.contains("@fqlib:2/1".as_bytes()));
    assert!(names.contains("@fqlib:3/1".as_bytes()));
}

#[test]
fn test_read_names_deduplicates() {
    let data = "@a\n@b\n@a\n";
    let names = read_names(data.as_bytes());
    assert_eq!(names.len(), 2);
    assert!(names.contains("@a".as_bytes()));
    assert!(names.contains("@b".as_bytes()));
}

#[test]
fn test_read_names_final_line_without_newline() {
    let data = "@a\n@b";
    let names = read_names(data.as_bytes());
    assert_eq!(names.len(), 2);
    assert!(names.contains("@b".as_bytes()));
}

#[test]
fn test_read_names_empty_input() {
    let names = read_names("".as_bytes());
    assert_eq!(names.len(), 0);
}

#[test]
fn test_copy_filtered_keeps_source_order() {
    let names = NameSet::new()
        .insert("@r1".as_bytes().to_vec())
        .insert("@r3".as_bytes().to_vec());
    let data = "@r1\nAC\n+\nII\n@r2\nGT\n+\nII\n@r3\nTT\n+\nII\n";
    let buf = copy_filtered(data.as_bytes(), &names).unwrap();
    assert_eq!(buf, b"@r1\nAC\n+\nII\n@r3\nTT\n+\nII\n");
}

#[test]
fn test_copy_filtered_propagates_parse_failure() {
    let names = NameSet::new();
    let data = "@r1\nAC\n+\nII\n@r2\nGT\n+";
    let e = copy_filtered(data.as_bytes(), &names).unwrap_err();
    assert_eq!(e.record, 1);
    assert_eq!(e.kind, ParseErrorKind::Truncated);
}

#[test]
fn test_parse_fastq_strips_carriage_returns() {
    let data = "@a\r\nACGT\r\n+\r\nIIII\r\n";
    let records = parse_fastq(data.as_bytes()).unwrap();
    assert_eq!(records.len(), 1);
    assert_eq!(records[0].name(), b"@a");
    assert_eq!(records[0].sequence(), b"ACGT");
    assert_eq!(records[0].plus_line(), b"");
    assert_eq!(records[0].quality(), b"IIII");
}

#[test]
fn test_parse_fastq_missing_plus() {
    let data = "@a\nACGT\nIIII\nIIII\n";
    let e = parse_fastq(data.as_bytes()).unwrap_err();
    assert_eq!(e.record, 0);
    assert_eq!(e.kind, ParseErrorKind::MissingPlus);
}

#[test]
fn test_parse_fastq_plus_line_content_kept() {
    let data = "@a\nACGT\n+a\nIIII\n";
    let records = parse_fastq(data.as_bytes()).unwrap();
    assert_eq!(records[0].plus_line(), b"a");
}
