use regex::Regex;
use serde_valid::ValidatePattern;
use std::borrow::Cow;
use std::path::{Path, PathBuf};

#[test]
fn test_validate_string_pattern_str_type() {
    assert!(ValidatePattern::validate_pattern(
        "2020-09-10",
        &Regex::new(r"^\d{4}-\d{2}-\d{2}$").unwrap()
    )
    .is_ok());
}

#[test]
fn test_validate_string_pattern_string_type() {
    assert!(ValidatePattern::validate_pattern(
        &String::from("2020-09-10"),
        &Regex::new(r"^\d{4}-\d{2}-\d{2}$").unwrap()
    )
    .is_ok());
}

#[test]
fn test_validate_string_pattern_cow_str_type() {
    assert!(ValidatePattern::validate_pattern(
        &*Cow::from("2020-09-10"),
        &Regex::new(r"^\d{4}-\d{2}-\d{2}$").unwrap()
    )
    .is_ok());
}

#[test]
fn test_validate_string_pattern_path_type() {
    assert!(ValidatePattern::validate_pattern(
        &*Path::new("./foo/bar.txt").to_string_lossy(),
        &Regex::new(r"^*.txt$").unwrap()
    )
    .is_ok());
}

#[test]
fn test_validate_string_pattern_path_buf_type() {
    assert!(ValidatePattern::validate_pattern(
        &*PathBuf::from("./foo/bar.txt").to_string_lossy(),
        &Regex::new(r"^*.txt$").unwrap()
    )
    .is_ok());
}

#[test]
fn test_validate_string_pattern_is_false() {
    assert!(ValidatePattern::validate_pattern(
        "2020/09/10",
        &Regex::new(r"^\d{4}-\d{2}-\d{2}$").unwrap()
    )
    .is_err());
}
