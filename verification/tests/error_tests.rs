use core_engine::error::recovery;
use core_engine::error::validation;
use core_engine::error::{wrap_err, AppError};

#[test]
fn test_error_display() {
    let err = AppError::bad_request("invalid input");
    assert_eq!(err.to_string(), "Bad Request: invalid input");
}

#[test]
fn test_validation() {
    assert!(validation::url("https://example.com").is_ok());
    assert!(validation::url("invalid").is_err());
}

#[test]
fn test_retryable() {
    assert!(recovery::is_retryable(&AppError::service_unavailable("busy")));
    assert!(recovery::is_retryable(&AppError::timeout("slow")));
    assert!(!recovery::is_retryable(&AppError::bad_request("invalid")));
}

#[test]
fn display_of_every_kind() {
    assert_eq!(AppError::Unauthorized("who".to_string()).to_string(), "Unauthorized: who");
    assert_eq!(AppError::not_found("page").to_string(), "Not Found: page");
    assert_eq!(AppError::internal("boom").to_string(), "Internal Error: boom");
    assert_eq!(AppError::service_unavailable("busy").to_string(), "Service Unavailable: busy");
    assert_eq!(AppError::timeout("slow").to_string(), "Timeout: slow");
}

#[test]
fn status_codes_of_every_kind() {
    assert_eq!(AppError::bad_request("x").status_code(), 400);
    assert_eq!(AppError::Unauthorized("x".to_string()).status_code(), 401);
    assert_eq!(AppError::not_found("x").status_code(), 404);
    assert_eq!(AppError::internal("x").status_code(), 500);
    assert_eq!(AppError::service_unavailable("x").status_code(), 503);
    assert_eq!(AppError::timeout("x").status_code(), 408);
}

#[test]
fn response_parts_carry_bare_message() {
    let (status, msg) = AppError::not_found("no such page").into_status_and_message();
    assert_eq!(status, 404);
    assert_eq!(msg, "no such page");
}

#[test]
fn retryable_exactly_when_503_or_408() {
    let errors = vec![
        AppError::bad_request("a"),
        AppError::Unauthorized("b".to_string()),
        AppError::not_found("c"),
        AppError::internal("d"),
        AppError::service_unavailable("e"),
        AppError::timeout("f"),
    ];
    for e in errors.iter() {
        let code = e.status_code();
        assert_eq!(recovery::is_retryable(e), code == 503 || code == 408);
    }
}

#[test]
fn wrap_err_prefixes_context() {
    match wrap_err("disk full", "saving profile") {
        AppError::Internal(m) => assert_eq!(m, "saving profile: disk full"),
        other => panic!("unexpected {:?}", other),
    }
}

#[test]
fn required_field_cases() {
    assert_eq!(validation::required_field(Some("abc"), "name").unwrap(), "abc");
    match validation::required_field(Some(""), "name") {
        Err(AppError::BadRequest(m)) => assert_eq!(m, "name is required"),
        other => panic!("unexpected {:?}", other),
    }
    match validation::required_field(None, "url") {
        Err(AppError::BadRequest(m)) => assert_eq!(m, "url is required"),
        other => panic!("unexpected {:?}", other),
    }
}

#[test]
fn positive_int_cases() {
    assert_eq!(validation::positive_int(Some(7), "count").unwrap(), 7);
    match validation::positive_int(Some(0), "count") {
        Err(AppError::BadRequest(m)) => assert_eq!(m, "count must be a positive integer"),
        other => panic!("unexpected {:?}", other),
    }
    assert!(validation::positive_int(None, "count").is_err());
}

#[test]
fn url_schemes() {
    assert!(validation::url("http://localhost:9222").is_ok());
    assert!(validation::url("https://").is_ok());
    assert!(validation::url("ftp://example.com").is_err());
    assert!(validation::url("HTTP://example.com").is_err());
    assert!(validation::url("").is_err());
    match validation::url("example.com") {
        Err(AppError::BadRequest(m)) => assert_eq!(m, "URL must start with http:// or https://"),
        other => panic!("unexpected {:?}", other),
    }
}

#[test]
fn retry_delay_backoff() {
    let expected = [1u64, 2, 4, 8, 16, 30, 30, 30];
    for (attempt, want) in expected.iter().enumerate() {
        assert_eq!(recovery::retry_delay(attempt as u32), *want);
    }
    assert_eq!(recovery::retry_delay(63), 30);
    assert_eq!(recovery::retry_delay(64), 30);
    assert_eq!(recovery::retry_delay(u32::MAX), 30);
}

#[test]
fn retry_delay_bounded_and_monotone() {
    let mut prev = 0u64;
    for attempt in 0..64u32 {
        let d = recovery::retry_delay(attempt);
        assert!(1 <= d && d <= 30);
        assert!(d >= prev);
        prev = d;
    }
}
