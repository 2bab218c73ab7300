use fqlib::block::Block;
use fqlib::paired::{MateQualitiesValidator, NamesValidator};
use fqlib::single::{AlphabetValidator, LengthsValidator, NameMarkerValidator, PlusLineValidator,
    QualityRangeValidator};
use fqlib::validators::{LineType, ValidationLevel};

#[test]
fn test_code() {
    let validator = NamesValidator;
    assert_eq!(validator.code(), "P001");
}

#[test]
fn test_name() {
    let validator = NamesValidator;
    assert_eq!(validator.name(), "NamesValidator");
}

#[test]
fn test_level() {
    let validator = NamesValidator;
    assert_eq!(validator.level(), ValidationLevel::Medium);
}

#[test]
fn test_validate() {
    let validator = NamesValidator;

    let b = Block::new("@fqlib/1", "", "", "");

    let d = Block::new("@fqlib/1", "", "", "");
    assert!(validator.validate(&b, &d).is_ok());

    let d = Block::new("@fqlib/2", "", "", "");
    assert!(validator.validate(&b, &d).is_ok());

    let d = Block::new("@/20180523", "", "", "");
    assert!(validator.validate(&b, &d).is_err());
}

#[test]
fn test_names_error_quotes_both_names() {
    let validator = NamesValidator;
    let b = Block::new("@left/1", "", "", "");
    let d = Block::new("@other/2", "", "", "");
    let e = validator.validate(&b, &d).unwrap_err();
    assert_eq!(e.code, "P001");
    assert_eq!(e.line_type, LineType::Name);
    assert_eq!(e.line_offset, Some(1));
    assert_eq!(e.level, ValidationLevel::Medium);
    let text = String::from_utf8_lossy(&e.message).into_owned();
    assert!(text.contains("@left/1"));
    assert!(text.contains("@other/2"));
}

#[test]
fn test_name_marker() {
    let validator = NameMarkerValidator;
    assert_eq!(validator.code(), "S001");
    assert_eq!(validator.level(), ValidationLevel::Low);
    let good = Block::new("@read", "ACGT", "", "IIII");
    assert!(validator.validate(&good).is_ok());
    let bad = Block::new("read", "ACGT", "", "IIII");
    let e = validator.validate(&bad).unwrap_err();
    assert_eq!(e.code, "S001");
    assert_eq!(e.line_type, LineType::Name);
    assert_eq!(e.line_offset, Some(1));
    assert!(String::from_utf8_lossy(&e.message).contains("read"));
}

#[test]
fn test_alphabet() {
    let validator = AlphabetValidator;
    assert_eq!(validator.code(), "S002");
    assert_eq!(validator.level(), ValidationLevel::Low);
    let good = Block::new("@read", "ACGTNacgtn", "", "IIIIIIIIII");
    assert!(validator.validate(&good).is_ok());
    let bad = Block::new("@read", "ACXT", "", "IIII");
    let e = validator.validate(&bad).unwrap_err();
    assert_eq!(e.code, "S002");
    assert_eq!(e.line_type, LineType::Sequence);
    assert_eq!(e.line_offset, Some(2));
}

#[test]
fn test_lengths() {
    let validator = LengthsValidator;
    assert_eq!(validator.code(), "S003");
    assert_eq!(validator.level(), ValidationLevel::High);
    let good = Block::new("@read", "ACGT", "", "IIII");
    assert!(validator.validate(&good).is_ok());
    let bad = Block::new("@read", "ACGT", "", "III");
    let e = validator.validate(&bad).unwrap_err();
    assert_eq!(e.code, "S003");
    assert_eq!(e.line_type, LineType::Quality);
    assert_eq!(e.line_offset, Some(4));
}

#[test]
fn test_quality_range() {
    let validator = QualityRangeValidator;
    assert_eq!(validator.code(), "S004");
    assert_eq!(validator.level(), ValidationLevel::Medium);
    let good = Block::new("@read", "ACGT", "", "!~I5");
    assert!(validator.validate(&good).is_ok());
    let bad = Block::new("@read", "ACGT", "", "II I");
    let e = validator.validate(&bad).unwrap_err();
    assert_eq!(e.code, "S004");
    assert_eq!(e.line_type, LineType::Quality);
}

#[test]
fn test_plus_line() {
    let validator = PlusLineValidator;
    assert_eq!(validator.code(), "S005");
    assert_eq!(validator.level(), ValidationLevel::Low);
    let empty = Block::new("@read", "ACGT", "", "IIII");
    assert!(validator.validate(&empty).is_ok());
    let echo = Block::new("@read", "ACGT", "read", "IIII");
    assert!(validator.validate(&echo).is_ok());
    let bad = Block::new("@read", "ACGT", "other", "IIII");
    let e = validator.validate(&bad).unwrap_err();
    assert_eq!(e.code, "S005");
    assert_eq!(e.line_type, LineType::Plus);
    assert_eq!(e.line_offset, Some(3));
}

#[test]
fn test_mate_qualities() {
    let validator = MateQualitiesValidator;
    assert_eq!(validator.code(), "P003");
    assert_eq!(validator.level(), ValidationLevel::Medium);
    let b = Block::new("@read/1", "ACGT", "", "IIII");
    let d = Block::new("@read/2", "TGCA", "", "IIII");
    assert!(validator.validate(&b, &d).is_ok());
    let d = Block::new("@read/2", "TGC", "", "III");
    let e = validator.validate(&b, &d).unwrap_err();
    assert_eq!(e.code, "P003");
    assert_eq!(e.line_type, LineType::Quality);
}

#[test]
fn test_identical_names_pass() {
    let validator = NamesValidator;
    let b = Block::new("@exact-name", "", "", "");
    let d = Block::new("@exact-name", "", "", "");
    assert!(validator.validate(&b, &d).is_ok());
}

#[test]
fn test_mate_marker_names_pass() {
    let validator = NamesValidator;
    let b = Block::new("@frag:77/1", "", "", "");
    let d = Block::new("@frag:77/2", "", "", "");
    assert!(validator.validate(&b, &d).is_ok());
    let d = Block::new("@frag:77/9", "", "", "");
    assert!(validator.validate(&b, &d).is_ok());
}
