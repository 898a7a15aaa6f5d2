use std::str::FromStr;

use sarif_fmt::sarif::{
    BuilderError, ResultColumnKind, ResultKind, ResultLevel, Version,
};

#[test]
fn test_parse_utf16codeunits() {
    let v = ResultColumnKind::from_str("utf16CodeUnits").unwrap();
    assert!(matches!(v, ResultColumnKind::Utf16CodeUnits));
}

#[test]
fn test_parse_unicode_code_points() {
    let v = ResultColumnKind::from_str("unicodeCodePoints").unwrap();
    assert!(matches!(v, ResultColumnKind::UnicodeCodePoints));
    assert!(ResultColumnKind::from_str("utf8CodeUnits").is_err());
}

#[test]
fn test_result_level_strings() {
    assert_eq!(ResultLevel::NoneLevel.as_str(), "none");
    assert_eq!(ResultLevel::Note.as_str(), "note");
    assert_eq!(ResultLevel::Warning.as_str(), "warning");
    assert_eq!(ResultLevel::Error.as_str(), "error");
    assert!(matches!(ResultLevel::parse_str("warning"), Some(ResultLevel::Warning)));
    assert!(matches!(ResultLevel::parse_str("none"), Some(ResultLevel::NoneLevel)));
    assert!(ResultLevel::parse_str("fatal").is_none());
    assert!(ResultLevel::parse_str("").is_none());
}

#[test]
fn test_result_kind_strings() {
    assert_eq!(ResultKind::Fail.as_str(), "fail");
    assert_eq!(ResultKind::NotApplicable.as_str(), "notApplicable");
    assert!(matches!(ResultKind::parse_str("pass"), Some(ResultKind::Pass)));
    assert!(matches!(ResultKind::from_str("fail"), Ok(ResultKind::Fail)));
    assert!(ResultKind::parse_str("failure").is_none());
}

#[test]
fn test_version_string() {
    assert_eq!(Version::V2_1_0.as_str(), "2.1.0");
}

#[test]
fn test_builder_error_message() {
    let e = BuilderError::UninitializedField("text");
    assert_eq!(e.message(), "uninitialized field: text");
}
