use std::io::Write;

use fqlib::fastq::{ParseError, ParseErrorKind};
use fqlib::gzip::decode_source;
use fqlib::runner::{run, RunConfig, RunError};
use fqlib::validators::ValidationLevel;

fn clean_mates() -> (&'static str, &'static str) {
    let data = "@A1\nACGT\n+\nIIII\n@A2\nTGCA\n+\nIIII\n@A3\nGGCC\n+\nIIII\n";
    (data, data)
}

#[test]
fn test_clean_pair_passes_at_every_threshold() {
    let (d1, d2) = clean_mates();
    let thresholds = vec![ValidationLevel::Low, ValidationLevel::Medium, ValidationLevel::High];
    for threshold in thresholds {
        let cfg = RunConfig { threshold, lenient: false, cap: 100 };
        let summary = run(&cfg, d1.as_bytes(), d2.as_bytes()).unwrap();
        assert_eq!(summary.pairs, 3);
        assert_eq!(summary.errors.len(), 0);
        assert_eq!(summary.low_count, 0);
        assert_eq!(summary.medium_count, 0);
        assert_eq!(summary.high_count, 0);
        assert!(summary.pass);
    }
}

#[test]
fn test_mate_count_mismatch_reports_one_structural_error() {
    let d1 = "@A1\nACGT\n+\nIIII\n@A2\nTGCA\n+\nIIII\n@A3\nGGCC\n+\nIIII\n";
    let d2 = "@A1\nACGT\n+\nIIII\n@A2\nTGCA\n+\nIIII\n";
    let cfg = RunConfig { threshold: ValidationLevel::High, lenient: true, cap: 100 };
    let summary = run(&cfg, d1.as_bytes(), d2.as_bytes()).unwrap();
    assert_eq!(summary.pairs, 2);
    assert_eq!(summary.errors.len(), 1);
    assert_eq!(summary.errors[0].code, "P002");
    assert_eq!(summary.high_count, 1);
    assert!(!summary.pass);
}

#[test]
fn test_two_runs_report_identical_error_lists() {
    let d1 = "@A1\nACGT\n+\nIIII\n@A2\nTGCA\n+\nIIII\n";
    let d2 = "@B1\nACXT\n+\nII I\n@A2\nTGCA\n+\nIII\n";
    let cfg = RunConfig { threshold: ValidationLevel::High, lenient: true, cap: 100 };
    let s1 = run(&cfg, d1.as_bytes(), d2.as_bytes()).unwrap();
    let s2 = run(&cfg, d1.as_bytes(), d2.as_bytes()).unwrap();
    assert_eq!(s1.errors, s2.errors);
    assert_eq!(s1.pairs, s2.pairs);
    assert_eq!(s1.pass, s2.pass);
    assert!(!s1.errors.is_empty());
}

#[test]
fn test_error_cap_bounds_report() {
    // Every pair produces several errors; the report must stop at the cap.
    let d1 = "@A1\nACXT\n+\nII\n@A2\nTGXA\n+\nII\n@A3\nGGXC\n+\nII\n";
    let d2 = "@B1\nACXT\n+\nII\n@B2\nTGXA\n+\nII\n@B3\nGGXC\n+\nII\n";
    let cfg = RunConfig { threshold: ValidationLevel::High, lenient: true, cap: 3 };
    let summary = run(&cfg, d1.as_bytes(), d2.as_bytes()).unwrap();
    assert_eq!(summary.errors.len(), 3);
    let again = run(&cfg, d1.as_bytes(), d2.as_bytes()).unwrap();
    assert_eq!(summary.errors, again.errors);
}

#[test]
fn test_cap_reached_fails_strict_but_not_lenient() {
    let d1 = "@A1\nACXT\n+\nIIII\n@A2\nTGXA\n+\nIIII\n";
    let d2 = d1;
    let strict = RunConfig { threshold: ValidationLevel::Low, lenient: false, cap: 2 };
    let summary = run(&strict, d1.as_bytes(), d2.as_bytes()).unwrap();
    assert!(!summary.pass);
    let lenient = RunConfig { threshold: ValidationLevel::Low, lenient: true, cap: 2 };
    let summary = run(&lenient, d1.as_bytes(), d2.as_bytes()).unwrap();
    assert!(summary.pass);
}

#[test]
fn test_strict_run_stops_after_high_severity_pair() {
    // The first pair's length mismatch is high-severity: a strict run stops
    // after that pair, a lenient run sees both pairs.
    let d1 = "@A1\nACGT\n+\nIII\n@A2\nTGCA\n+\nIIII\n@A3\nGGCC\n+\nIIII\n";
    let d2 = "@A1\nACGT\n+\nIIII\n@A2\nTGCA\n+\nIIII\n@A3\nGGCC\n+\nIIII\n";
    let strict = RunConfig { threshold: ValidationLevel::High, lenient: false, cap: 100 };
    let summary = run(&strict, d1.as_bytes(), d2.as_bytes()).unwrap();
    assert_eq!(summary.pairs, 1);
    assert!(!summary.pass);
    let lenient = RunConfig { threshold: ValidationLevel::High, lenient: true, cap: 100 };
    let summary = run(&lenient, d1.as_bytes(), d2.as_bytes()).unwrap();
    assert_eq!(summary.pairs, 3);
}

#[test]
fn test_threshold_skips_medium_name_check() {
    let d1 = "@left/1\nACGT\n+\nIIII\n";
    let d2 = "@other/2\nACGT\n+\nIIII\n";
    let low = RunConfig { threshold: ValidationLevel::Low, lenient: true, cap: 100 };
    let summary = run(&low, d1.as_bytes(), d2.as_bytes()).unwrap();
    assert_eq!(summary.errors.len(), 0);
    assert!(summary.pass);
    let medium = RunConfig { threshold: ValidationLevel::Medium, lenient: true, cap: 100 };
    let summary = run(&medium, d1.as_bytes(), d2.as_bytes()).unwrap();
    assert_eq!(summary.errors.len(), 1);
    assert_eq!(summary.errors[0].code, "P001");
    assert_eq!(summary.medium_count, 1);
}

#[test]
fn test_parse_failure_aborts_run() {
    let good = "@A1\nACGT\n+\nIIII\n";
    let truncated = "@A1\nACGT\n+";
    let cfg = RunConfig { threshold: ValidationLevel::High, lenient: true, cap: 100 };
    let e = run(&cfg, truncated.as_bytes(), good.as_bytes()).unwrap_err();
    assert_eq!(e, RunError::FirstMate(ParseError { record: 0, kind: ParseErrorKind::Truncated }));
    let e = run(&cfg, good.as_bytes(), truncated.as_bytes()).unwrap_err();
    assert_eq!(e, RunError::SecondMate(ParseError { record: 0, kind: ParseErrorKind::Truncated }));
}

#[test]
fn test_gzip_source_round_trip() {
    let (d1, _) = clean_mates();
    let mut encoder = flate2::write::GzEncoder::new(Vec::new(), flate2::Compression::default());
    encoder.write_all(d1.as_bytes()).unwrap();
    let compressed = encoder.finish().unwrap();
    assert_ne!(compressed, d1.as_bytes());

    let decoded = decode_source(b"mate_one.fastq.gz", compressed).unwrap();
    assert_eq!(decoded, d1.as_bytes());

    let cfg = RunConfig { threshold: ValidationLevel::High, lenient: false, cap: 100 };
    let summary = run(&cfg, &decoded, d1.as_bytes()).unwrap();
    assert!(summary.pass);
}

#[test]
fn test_plain_source_passes_through_unchanged() {
    let data = b"@A1\nACGT\n+\nIIII\n".to_vec();
    let decoded = decode_source(b"mate_one.fastq", data.clone()).unwrap();
    assert_eq!(decoded, data);
}

#[test]
fn test_corrupt_gzip_is_an_error() {
    let data = b"not a gzip stream".to_vec();
    assert!(decode_source(b"reads.gz", data).is_err());
}
