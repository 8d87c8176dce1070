use tgcp::transport::{
    backoff_delay_ms, capped_backoff_ms, categorize_status, classify_success_body, format_gcp_error,
    is_retryable_status, next_step, sanitize_for_log, ErrorCategory, RetryStep, SuccessBody,
    TransportError, MAX_RETRIES,
};

/// Runs the retry policy over a scripted list of statuses and returns the
/// index of the successful attempt or the failing status.
fn run(statuses: &[u16]) -> Result<usize, u16> {
    let mut attempt: u32 = 0;
    loop {
        let status = statuses[attempt as usize];
        match next_step(attempt, status, 0) {
            RetryStep::Succeed => return Ok(attempt as usize),
            RetryStep::Retry { .. } => attempt += 1,
            RetryStep::Fail { status } => return Err(status),
        }
    }
}

#[test]
fn retryable_statuses() {
    for s in [429u16, 502, 503, 504] {
        assert!(is_retryable_status(s));
    }
    for s in [200u16, 400, 401, 403, 404, 409, 500] {
        assert!(!is_retryable_status(s));
    }
}

#[test]
fn backoff_doubles_up_to_the_cap() {
    assert_eq!(capped_backoff_ms(0), 500);
    assert_eq!(capped_backoff_ms(1), 1_000);
    assert_eq!(capped_backoff_ms(2), 2_000);
    assert_eq!(capped_backoff_ms(4), 8_000);
    assert_eq!(capped_backoff_ms(5), 10_000);
    assert_eq!(capped_backoff_ms(40), 10_000);
    assert_eq!(backoff_delay_ms(1, 500), 1_500);
    assert_eq!(backoff_delay_ms(5, 250), 12_500);
}

#[test]
fn transient_failures_then_success() {
    for n in 0..MAX_RETRIES as usize {
        let mut statuses = vec![503u16; n];
        statuses.push(200);
        assert_eq!(run(&statuses), Ok(n));
    }
    let mut too_many = vec![503u16; MAX_RETRIES as usize + 1];
    too_many.push(200);
    assert_eq!(run(&too_many), Err(503));
}

#[test]
fn not_found_is_never_retried() {
    assert_eq!(run(&[404, 200]), Err(404));
    assert_eq!(next_step(0, 404, 0), RetryStep::Fail { status: 404 });
}

#[test]
fn retry_carries_the_backoff_delay() {
    assert_eq!(next_step(2, 429, 100), RetryStep::Retry { delay_ms: 2_200 });
    assert_eq!(next_step(MAX_RETRIES, 429, 100), RetryStep::Fail { status: 429 });
}

#[test]
fn empty_success_body_is_no_content() {
    assert_eq!(classify_success_body(""), SuccessBody::NoContent);
    assert_eq!(classify_success_body("{}"), SuccessBody::Parse);
}

#[test]
fn status_categories() {
    assert_eq!(categorize_status(401), ErrorCategory::AuthFailed);
    assert_eq!(categorize_status(403), ErrorCategory::PermissionDenied);
    assert_eq!(categorize_status(404), ErrorCategory::NotFound);
    assert_eq!(categorize_status(429), ErrorCategory::RateLimited);
    assert_eq!(categorize_status(400), ErrorCategory::InvalidRequest);
    assert_eq!(categorize_status(409), ErrorCategory::Conflict);
    assert_eq!(categorize_status(500), ErrorCategory::ServiceUnavailable);
    assert_eq!(categorize_status(503), ErrorCategory::ServiceUnavailable);
    assert_eq!(categorize_status(418), ErrorCategory::Generic);
    assert_eq!(TransportError { status: 503 }.to_string(), "API request failed: 503 Service Unavailable");
    assert_eq!(TransportError { status: 404 }.to_string(), "API request failed: 404 Not Found");
}

#[test]
fn error_messages_hide_details() {
    assert_eq!(
        format_gcp_error("API request failed: 401 Unauthorized"),
        "Authentication failed. Run 'gcloud auth application-default login'."
    );
    assert_eq!(
        format_gcp_error("API request failed: 418"),
        "Request failed. Check your network connection and try again."
    );
    assert_eq!(format_gcp_error("short"), "short");
    let long = "x".repeat(100);
    assert_eq!(format_gcp_error(&long), format!("{}...", "x".repeat(80)));
    assert_eq!(format_gcp_error("bad\u{7}bell"), "badbell...");
}

#[test]
fn log_excerpt_is_short_and_printable() {
    assert_eq!(sanitize_for_log("ok\nline"), "okline");
    let body = "a".repeat(250);
    let out = sanitize_for_log(&body);
    assert_eq!(out, format!("{}... [truncated, 250 chars total]", "a".repeat(200)));
}

#[test]
fn decimals_compare_numerically() {
    assert_eq!(tgcp::sort::compare_values("9.5", "10.2"), -1);
    assert_eq!(tgcp::sort::compare_values("-1.50", "-1.5"), 0);
    assert_eq!(tgcp::sort::compare_values("2", "1.99"), 1);
    assert_eq!(tgcp::sort::compare_values("1.", "1"), 1);
    assert_eq!(tgcp::sort::parse_decimal("12.34"), Some((1234, 2)));
    assert_eq!(tgcp::sort::parse_decimal("1.2.3"), None);
}
