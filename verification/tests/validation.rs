//! Validation and normalization of command arguments.

use tab_cli::commands::{normalize_url, parse_direction, validate_ref, validate_script, validate_url};
use tab_cli::types::ScrollDirection;

#[test]
fn validate_ref_accepts_numeric() {
    assert!(validate_ref("123").is_ok());
}

#[test]
fn validate_ref_accepts_alphanumeric() {
    assert!(validate_ref("abc123").is_ok());
}

#[test]
fn click_validate_ref_rejects_empty() {
    assert!(validate_ref("").is_err());
    assert!(validate_ref("   ").is_err());
}

#[test]
fn validate_script_accepts_non_empty() {
    assert!(validate_script("console.log('test')").is_ok());
}

#[test]
fn validate_script_rejects_empty() {
    assert!(validate_script("").is_err());
    assert!(validate_script("   ").is_err());
}

#[test]
fn validate_ref_accepts_non_empty() {
    assert!(validate_ref("123").is_ok());
    assert!(validate_ref("abc").is_ok());
}

#[test]
fn type_cmd_validate_ref_rejects_empty() {
    assert!(validate_ref("").is_err());
    assert!(validate_ref("   ").is_err());
}

#[test]
fn validate_url_accepts_http_urls() {
    assert!(validate_url("http://example.com").is_ok());
}

#[test]
fn validate_url_accepts_https_urls() {
    assert!(validate_url("https://example.com").is_ok());
}

#[test]
fn validate_url_accepts_urls_without_scheme() {
    assert!(validate_url("example.com").is_ok());
}

#[test]
fn validate_url_rejects_empty() {
    assert!(validate_url("").is_err());
    assert!(validate_url("   ").is_err());
}

#[test]
fn validate_url_rejects_chrome_urls() {
    assert!(validate_url("chrome://settings").is_err());
}

#[test]
fn validate_url_rejects_about_urls() {
    assert!(validate_url("about:blank").is_err());
}

#[test]
fn normalize_url_adds_https_when_missing() {
    assert_eq!(normalize_url("example.com"), "https://example.com");
}

#[test]
fn normalize_url_preserves_http() {
    assert_eq!(normalize_url("http://example.com"), "http://example.com");
}

#[test]
fn normalize_url_preserves_https() {
    assert_eq!(normalize_url("https://example.com"), "https://example.com");
}

#[test]
fn normalize_url_trims_whitespace() {
    assert_eq!(normalize_url("  example.com  "), "https://example.com");
}

#[test]
fn parse_direction_accepts_valid_directions() {
    assert!(matches!(parse_direction("up").unwrap(), ScrollDirection::Up));
    assert!(matches!(parse_direction("down").unwrap(), ScrollDirection::Down));
    assert!(matches!(parse_direction("left").unwrap(), ScrollDirection::Left));
    assert!(matches!(parse_direction("right").unwrap(), ScrollDirection::Right));
}

#[test]
fn parse_direction_is_case_insensitive() {
    assert!(matches!(parse_direction("UP").unwrap(), ScrollDirection::Up));
    assert!(matches!(parse_direction("Down").unwrap(), ScrollDirection::Down));
}

#[test]
fn parse_direction_rejects_invalid() {
    assert!(parse_direction("invalid").is_err());
    assert!(parse_direction("").is_err());
}
