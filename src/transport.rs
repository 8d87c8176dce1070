//! Retry and error policy of the authenticated HTTP transport.
//!
//! The network calls themselves happen outside the library: the caller sends a
//! request, reports the response status here, and is told whether to return,
//! to wait and retry, or to fail.
use vstd::prelude::*;
use crate::text::{decimal_of, format_decimal, str_contains, contains_seq};

verus! {

/// Additional attempts made after the first one for a transient failure.
pub const MAX_RETRIES: u32 = 3;

/// Delay before the first retry, in milliseconds.
pub const BASE_DELAY_MS: u64 = 500;

/// Upper bound of the exponential part of the delay, in milliseconds.
pub const MAX_DELAY_MS: u64 = 10_000;

/// Per-request timeout that callers apply to every network call, in milliseconds.
pub const REQUEST_TIMEOUT_MS: u64 = 30_000;

/// Longest excerpt of a response body that may be written to a log.
pub const MAX_LOG_BODY_LENGTH: usize = 200;

pub open spec fn retryable(status: u16) -> bool {
    status == 429 || status == 502 || status == 503 || status == 504
}

pub open spec fn is_success_status(status: u16) -> bool {
    200 <= status && status <= 299
}

/// Whether an HTTP status code denotes a transient failure worth retrying.
pub fn is_retryable_status(status: u16) -> (r: bool)
    ensures
        r == retryable(status),
{
    status == 429 || status == 502 || status == 503 || status == 504
}

/// `BASE_DELAY_MS * 2^attempt`, without a cap.
pub open spec fn exponential_delay(attempt: nat) -> nat
    decreases attempt,
{
    if attempt == 0 {
        BASE_DELAY_MS as nat
    } else {
        2 * exponential_delay((attempt - 1) as nat)
    }
}

/// `min(BASE_DELAY_MS * 2^attempt, MAX_DELAY_MS)`.
pub open spec fn capped_delay(attempt: nat) -> nat {
    if exponential_delay(attempt) < MAX_DELAY_MS as nat {
        exponential_delay(attempt)
    } else {
        MAX_DELAY_MS as nat
    }
}

/// Capped delay plus a jitter of `jitter_permille / 1000` of it.
pub open spec fn backoff_delay(attempt: nat, jitter_permille: nat) -> nat {
    capped_delay(attempt) + capped_delay(attempt) * jitter_permille / 1000
}

proof fn lemma_exponential_grows(attempt: nat)
    ensures
        exponential_delay(attempt) >= BASE_DELAY_MS as nat,
        exponential_delay(attempt + 1) == 2 * exponential_delay(attempt),
    decreases attempt,
{
    if attempt > 0 {
        lemma_exponential_grows((attempt - 1) as nat);
    }
}

proof fn lemma_exponential_monotone(i: nat, j: nat)
    requires
        i <= j,
    ensures
        exponential_delay(i) <= exponential_delay(j),
    decreases j - i,
{
    if i < j {
        lemma_exponential_grows(i);
        lemma_exponential_monotone(i + 1, j);
    }
}

/// The capped exponential delay for a zero-based retry attempt.
pub fn capped_backoff_ms(attempt: u32) -> (r: u64)
    ensures
        r as nat == capped_delay(attempt as nat),
        r <= MAX_DELAY_MS,
{
    let mut delay: u64 = BASE_DELAY_MS;
    let mut i: u32 = 0;
    while i < attempt && delay < MAX_DELAY_MS
        invariant
            i <= attempt,
            delay as nat == exponential_delay(i as nat),
            delay <= 2 * MAX_DELAY_MS,
        decreases attempt - i,
    {
        proof {
            lemma_exponential_grows(i as nat);
        }
        delay = delay * 2;
        i = i + 1;
    }
    if delay < MAX_DELAY_MS {
        delay
    } else {
        proof {
            lemma_exponential_monotone(i as nat, attempt as nat);
        }
        MAX_DELAY_MS
    }
}

/// Delay before retry number `attempt` (zero-based): the capped exponential
/// delay plus a jitter of `jitter_permille / 1000` of it, at most half of it.
pub fn backoff_delay_ms(attempt: u32, jitter_permille: u64) -> (r: u64)
    requires
        jitter_permille <= 500,
    ensures
        r as nat == backoff_delay(attempt as nat, jitter_permille as nat),
        r <= MAX_DELAY_MS + MAX_DELAY_MS / 2,
{
    let capped = capped_backoff_ms(attempt);
    proof {
        assert(capped * jitter_permille <= 10_000 * 500) by (nonlinear_arith)
            requires
                capped <= 10_000,
                jitter_permille <= 500,
        ;
        assert(capped * jitter_permille / 1000 <= capped / 2) by (nonlinear_arith)
            requires
                jitter_permille <= 500,
        ;
    }
    capped + capped * jitter_permille / 1000
}

/// What the transport does after receiving a response.
#[derive(Debug, Clone, Copy, PartialEq, Eq, Structural)]
pub enum RetryStep {
    /// The request succeeded: hand the body to the caller.
    Succeed,
    /// A transient failure: wait this many milliseconds, then send again.
    Retry { delay_ms: u64 },
    /// The request failed for good with this status.
    Fail { status: u16 },
}

/// Decides the next step after the response to attempt number `attempt`
/// (zero-based) came back with `status`.
pub fn next_step(attempt: u32, status: u16, jitter_permille: u64) -> (r: RetryStep)
    requires
        jitter_permille <= 500,
    ensures
        is_success_status(status) ==> r == RetryStep::Succeed,
        !is_success_status(status) && retryable(status) && attempt < MAX_RETRIES ==> r
            == (RetryStep::Retry {
            delay_ms: backoff_delay(attempt as nat, jitter_permille as nat) as u64,
        }),
        !is_success_status(status) && !(retryable(status) && attempt < MAX_RETRIES) ==> r
            == (RetryStep::Fail { status }),
{
    if 200 <= status && status <= 299 {
        RetryStep::Succeed
    } else if is_retryable_status(status) && attempt < MAX_RETRIES {
        RetryStep::Retry { delay_ms: backoff_delay_ms(attempt, jitter_permille) }
    } else {
        RetryStep::Fail { status }
    }
}

/// Final result of a request, given the statuses that successive attempts get.
#[derive(Debug, Clone, Copy, PartialEq, Eq, Structural)]
pub enum TransportOutcome {
    /// Attempt number `attempt` succeeded.
    Succeeded { attempt: u32 },
    /// The request failed with this status.
    Failed { status: u16 },
    /// The sequence ended before a decision was reached.
    Undecided,
}

/// The outcome of a request whose attempts from `attempt` on receive `statuses`.
pub open spec fn outcome_from(statuses: Seq<u16>, attempt: nat) -> TransportOutcome
    decreases statuses.len() - attempt,
{
    if attempt >= statuses.len() {
        TransportOutcome::Undecided
    } else {
        let s = statuses[attempt as int];
        if is_success_status(s) {
            TransportOutcome::Succeeded { attempt: attempt as u32 }
        } else if retryable(s) && attempt < MAX_RETRIES as nat {
            outcome_from(statuses, attempt + 1)
        } else {
            TransportOutcome::Failed { status: s }
        }
    }
}

/// Retrying on exactly the steps that `next_step` asks for leads to the
/// outcome `outcome_from` gives: a `Retry` step moves on to the next attempt,
/// and the other two steps end the request with that outcome.
pub proof fn lemma_step_agrees(statuses: Seq<u16>, attempt: u32, jitter_permille: u64)
    requires
        attempt < statuses.len(),
        jitter_permille <= 500,
    ensures
        ({
            let s = statuses[attempt as int];
            &&& is_success_status(s) ==> outcome_from(statuses, attempt as nat)
                == (TransportOutcome::Succeeded { attempt })
            &&& !is_success_status(s) && retryable(s) && attempt < MAX_RETRIES ==> outcome_from(
                statuses,
                attempt as nat,
            ) == outcome_from(statuses, attempt as nat + 1)
            &&& !is_success_status(s) && !(retryable(s) && attempt < MAX_RETRIES) ==> outcome_from(
                statuses,
                attempt as nat,
            ) == (TransportOutcome::Failed { status: s })
        }),
{
}

/// `n` responses with status 503 followed by one with status 200.
pub open spec fn unavailable_then_ok(n: nat) -> Seq<u16> {
    Seq::new(n, |i: int| 503u16).push(200u16)
}

proof fn lemma_unavailable_prefix(n: nat, attempt: nat)
    requires
        attempt <= n,
        n <= MAX_RETRIES as nat,
    ensures
        outcome_from(unavailable_then_ok(n), attempt) == (TransportOutcome::Succeeded {
            attempt: n as u32,
        }),
    decreases n - attempt,
{
    if attempt < n {
        lemma_unavailable_prefix(n, attempt + 1);
    }
}

proof fn lemma_unavailable_exhausts(n: nat, attempt: nat)
    requires
        attempt <= MAX_RETRIES as nat,
        n > MAX_RETRIES as nat,
    ensures
        outcome_from(unavailable_then_ok(n), attempt) == (TransportOutcome::Failed {
            status: 503u16,
        }),
    decreases MAX_RETRIES as nat - attempt,
{
    if attempt < MAX_RETRIES as nat {
        lemma_unavailable_exhausts(n, attempt + 1);
    }
}

/// After `n` consecutive 503 responses followed by a 200, the request
/// succeeds with the 200 response when `n` is below `MAX_RETRIES`, and fails
/// when `n` is above it.
pub proof fn lemma_transient_failures_then_success(n: nat)
    ensures
        n < MAX_RETRIES as nat ==> outcome_from(unavailable_then_ok(n), 0) == (
        TransportOutcome::Succeeded { attempt: n as u32 }),
        n > MAX_RETRIES as nat ==> outcome_from(unavailable_then_ok(n), 0)
            is Failed,
{
    if n <= MAX_RETRIES as nat {
        lemma_unavailable_prefix(n, 0);
    } else {
        lemma_unavailable_exhausts(n, 0);
    }
}

/// A 404 response is never retried, whatever follows it.
pub proof fn lemma_not_found_not_retried(statuses: Seq<u16>, attempt: nat)
    requires
        attempt < statuses.len(),
        statuses[attempt as int] == 404,
    ensures
        outcome_from(statuses, attempt) == (TransportOutcome::Failed { status: 404 }),
{
}

/// How a successful response body is handed to the caller.
#[derive(Debug, Clone, Copy, PartialEq, Eq, Structural)]
pub enum SuccessBody {
    /// The body is empty: an explicit "no content" result.
    NoContent,
    /// The body is to be parsed as a structured value.
    Parse,
}

/// An empty body yields "no content" rather than a parse error.
pub fn classify_success_body(body: &str) -> (r: SuccessBody)
    ensures
        (r == SuccessBody::NoContent) == (body@.len() == 0),
{
    if body.unicode_len() == 0 {
        SuccessBody::NoContent
    } else {
        SuccessBody::Parse
    }
}

/// Category of a failed request, by HTTP status.
#[derive(Debug, Clone, Copy, PartialEq, Eq, Structural)]
pub enum ErrorCategory {
    AuthFailed,
    PermissionDenied,
    NotFound,
    RateLimited,
    InvalidRequest,
    Conflict,
    ServiceUnavailable,
    Generic,
}

pub open spec fn category_of(status: u16) -> ErrorCategory {
    if status == 401 {
        ErrorCategory::AuthFailed
    } else if status == 403 {
        ErrorCategory::PermissionDenied
    } else if status == 404 {
        ErrorCategory::NotFound
    } else if status == 429 {
        ErrorCategory::RateLimited
    } else if status == 400 {
        ErrorCategory::InvalidRequest
    } else if status == 409 {
        ErrorCategory::Conflict
    } else if status == 500 || status == 503 {
        ErrorCategory::ServiceUnavailable
    } else {
        ErrorCategory::Generic
    }
}

/// Maps an HTTP status to the category callers report.
pub fn categorize_status(status: u16) -> (r: ErrorCategory)
    ensures
        r == category_of(status),
{
    if status == 401 {
        ErrorCategory::AuthFailed
    } else if status == 403 {
        ErrorCategory::PermissionDenied
    } else if status == 404 {
        ErrorCategory::NotFound
    } else if status == 429 {
        ErrorCategory::RateLimited
    } else if status == 400 {
        ErrorCategory::InvalidRequest
    } else if status == 409 {
        ErrorCategory::Conflict
    } else if status == 500 || status == 503 {
        ErrorCategory::ServiceUnavailable
    } else {
        ErrorCategory::Generic
    }
}

pub open spec fn category_message(c: ErrorCategory) -> Seq<char> {
    match c {
        ErrorCategory::AuthFailed => "Authentication failed. Run 'gcloud auth application-default login'."@,
        ErrorCategory::PermissionDenied => "Permission denied. Check your GCP IAM permissions."@,
        ErrorCategory::NotFound => "Resource not found."@,
        ErrorCategory::RateLimited => "Rate limit exceeded. Please try again later."@,
        ErrorCategory::InvalidRequest => "Invalid request. Check your parameters."@,
        ErrorCategory::Conflict => "Resource conflict. The resource may already exist or be in use."@,
        ErrorCategory::ServiceUnavailable => "GCP service temporarily unavailable. Please try again."@,
        ErrorCategory::Generic => "Request failed. Check your network connection and try again."@,
    }
}

impl ErrorCategory {
    /// The user-facing message of the category; it never holds response detail.
    pub fn message(&self) -> (r: String)
        ensures
            r@ == category_message(*self),
    {
        match self {
            ErrorCategory::AuthFailed => String::from_str(
                "Authentication failed. Run 'gcloud auth application-default login'.",
            ),
            ErrorCategory::PermissionDenied => String::from_str(
                "Permission denied. Check your GCP IAM permissions.",
            ),
            ErrorCategory::NotFound => String::from_str("Resource not found."),
            ErrorCategory::RateLimited => String::from_str(
                "Rate limit exceeded. Please try again later.",
            ),
            ErrorCategory::InvalidRequest => String::from_str(
                "Invalid request. Check your parameters.",
            ),
            ErrorCategory::Conflict => String::from_str(
                "Resource conflict. The resource may already exist or be in use.",
            ),
            ErrorCategory::ServiceUnavailable => String::from_str(
                "GCP service temporarily unavailable. Please try again.",
            ),
            ErrorCategory::Generic => String::from_str(
                "Request failed. Check your network connection and try again.",
            ),
        }
    }
}

/// The text of an HTTP status as the HTTP library shows it: the code and its
/// reason phrase.
pub uninterp spec fn status_text(status: u16) -> Seq<char>;

/// Relies on `http::StatusCode`'s `Display` (re-exported by reqwest): the
/// code's decimal digits, a space and its canonical reason phrase, e.g.
/// `404 Not Found`; the text depends on the code alone.
#[verifier::external_body]
fn status_code_text(status: u16) -> (r: String)
    requires
        100 <= status <= 999,
    ensures
        r@ == status_text(status),
        crate::text::starts_with_seq(r@, decimal_of(status as nat) + " "@),
{
    match reqwest::StatusCode::from_u16(status) {
        Ok(code) => code.to_string(),
        Err(_) => String::new(),
    }
}

/// Error of a request that failed for good.
#[derive(Debug, Clone, Copy, PartialEq, Eq, Structural)]
pub struct TransportError {
    pub status: u16,
}

impl TransportError {
    pub fn category(&self) -> (r: ErrorCategory)
        ensures
            r == category_of(self.status),
    {
        categorize_status(self.status)
    }

    /// The error's own text, `API request failed: <status> <reason>`.
    pub fn to_string(&self) -> (r: String)
        requires
            100 <= self.status <= 999,
        ensures
            r@ == "API request failed: "@ + status_text(self.status),
    {
        let mut s = String::from_str("API request failed: ");
        let d = status_code_text(self.status);
        s.append(d.as_str());
        s
    }
}

pub open spec fn printable(c: char) -> bool {
    ('!' <= c && c <= '~') || c == ' '
}

/// The printable ASCII characters of `s`, in order.
pub open spec fn printable_only(s: Seq<char>) -> Seq<char>
    decreases s.len(),
{
    if s.len() == 0 {
        s
    } else {
        let p = printable_only(s.drop_last());
        if printable(s.last()) {
            p.push(s.last())
        } else {
            p
        }
    }
}

/// Keeps the printable ASCII characters of `s`.
pub fn keep_printable(s: &str) -> (r: String)
    ensures
        r@ == printable_only(s@),
{
    let n = s.unicode_len();
    let mut out = String::new();
    let mut i: usize = 0;
    while i < n
        invariant
            n == s@.len(),
            i <= n,
            out@ == printable_only(s@.subrange(0, i as int)),
        decreases n - i,
    {
        let c = s.get_char(i);
        proof {
            assert(s@.subrange(0, i as int + 1).drop_last() == s@.subrange(0, i as int));
        }
        if ('!' <= c && c <= '~') || c == ' ' {
            out.push(c);
        }
        i = i + 1;
    }
    proof {
        assert(s@.subrange(0, n as int) == s@);
    }
    out
}

/// The text that a log line may hold of a response body: at most
/// `MAX_LOG_BODY_LENGTH` characters of it, with a note of its full length when
/// it was cut, and printable ASCII characters only.
pub open spec fn log_excerpt(body: Seq<char>) -> Seq<char> {
    if body.len() > MAX_LOG_BODY_LENGTH {
        printable_only(
            body.subrange(0, MAX_LOG_BODY_LENGTH as int) + "... [truncated, "@ + decimal_of(
                body.len(),
            ) + " chars total]"@,
        )
    } else {
        printable_only(body)
    }
}

/// Sanitizes a response body for logging: never more than a short,
/// printable excerpt of it.
pub fn sanitize_for_log(body: &str) -> (r: String)
    ensures
        r@ == log_excerpt(body@),
{
    let n = body.unicode_len();
    if n > MAX_LOG_BODY_LENGTH {
        let mut t = String::from_str(body.substring_char(0, MAX_LOG_BODY_LENGTH));
        t.append("... [truncated, ");
        let d = format_decimal(n as u64);
        t.append(d.as_str());
        t.append(" chars total]");
        keep_printable(t.as_str())
    } else {
        keep_printable(body)
    }
}

/// The statuses that `format_gcp_error` recognises, in the order it tests them.
pub open spec fn error_text_message(text: Seq<char>) -> Seq<char> {
    if contains_seq(text, "403"@) {
        category_message(ErrorCategory::PermissionDenied)
    } else if contains_seq(text, "401"@) {
        category_message(ErrorCategory::AuthFailed)
    } else if contains_seq(text, "404"@) {
        category_message(ErrorCategory::NotFound)
    } else if contains_seq(text, "429"@) {
        category_message(ErrorCategory::RateLimited)
    } else if contains_seq(text, "400"@) {
        category_message(ErrorCategory::InvalidRequest)
    } else if contains_seq(text, "500"@) || contains_seq(text, "503"@) {
        category_message(ErrorCategory::ServiceUnavailable)
    } else if contains_seq(text, "409"@) {
        category_message(ErrorCategory::Conflict)
    } else if contains_seq(text, "API request failed"@) {
        category_message(ErrorCategory::Generic)
    } else {
        let p = printable_only(text);
        let kept = if p.len() > 80 { p.subrange(0, 80) } else { p };
        if kept.len() < text.len() {
            kept + "..."@
        } else {
            kept
        }
    }
}

/// Formats the text of an error for the status line: a fixed message per
/// recognised status, else at most 80 printable characters of the text.
pub fn format_gcp_error(error_text: &str) -> (r: String)
    ensures
        r@ == error_text_message(error_text@),
{
    proof {
        reveal_strlit("403");
        reveal_strlit("401");
        reveal_strlit("404");
        reveal_strlit("429");
        reveal_strlit("400");
        reveal_strlit("500");
        reveal_strlit("503");
        reveal_strlit("409");
    }
    if str_contains(error_text, "403") {
        ErrorCategory::PermissionDenied.message()
    } else if str_contains(error_text, "401") {
        ErrorCategory::AuthFailed.message()
    } else if str_contains(error_text, "404") {
        ErrorCategory::NotFound.message()
    } else if str_contains(error_text, "429") {
        ErrorCategory::RateLimited.message()
    } else if str_contains(error_text, "400") {
        ErrorCategory::InvalidRequest.message()
    } else if str_contains(error_text, "500") || str_contains(error_text, "503") {
        ErrorCategory::ServiceUnavailable.message()
    } else if str_contains(error_text, "409") {
        ErrorCategory::Conflict.message()
    } else if str_contains(error_text, "API request failed") {
        ErrorCategory::Generic.message()
    } else {
        let p = keep_printable(error_text);
        let plen = p.as_str().unicode_len();
        let kept = if plen > 80 {
            String::from_str(p.as_str().substring_char(0, 80))
        } else {
            p
        };
        let klen = kept.as_str().unicode_len();
        if klen < error_text.unicode_len() {
            let mut k = kept;
            k.append("...");
            k
        } else {
            kept
        }
    }
}

} // verus!
