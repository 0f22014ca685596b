//! Parameters and error replies of the Prometheus-compatible query API.
use vstd::prelude::*;

verus! {

/// Prometheus-style error body (`status`, `error`, optional `errorType`).
#[derive(Debug, Clone)]
pub struct ApiError {
    pub status: String,
    pub error: String,
    pub error_type: Option<String>,
}

/// Reply when the metrics store is not enabled.
pub fn backend_unavailable() -> (e: ApiError)
    ensures
        e.status@ == "error"@,
        e.error@ == "metrics-store backend not enabled"@,
        e.error_type matches Some(t) && t@ == "unavailable"@,
{
    ApiError {
        status: String::from_str("error"),
        error: String::from_str("metrics-store backend not enabled"),
        error_type: Some(String::from_str("unavailable")),
    }
}

/// Reply when executing a query failed with `message`.
pub fn exec_error(message: String) -> (e: ApiError)
    ensures
        e.status@ == "error"@,
        e.error@ == message@,
        e.error_type matches Some(t) && t@ == "execution"@,
{
    ApiError {
        status: String::from_str("error"),
        error: message,
        error_type: Some(String::from_str("execution")),
    }
}

/// Reply for a malformed request (`errorType` `bad_data`).
pub fn bad_data(message: &str) -> (e: ApiError)
    ensures
        e.status@ == "error"@,
        e.error@ == message@,
        e.error_type matches Some(t) && t@ == "bad_data"@,
{
    ApiError {
        status: String::from_str("error"),
        error: String::from_str(message),
        error_type: Some(String::from_str("bad_data")),
    }
}

/// Parameters of an instant query (`time` in epoch milliseconds).
#[derive(Debug, Clone)]
pub struct InstantQueryParams {
    pub query: String,
    pub time: Option<i64>,
}

/// Parameters of a range query (times and step in milliseconds).
#[derive(Debug, Clone)]
pub struct RangeQueryParams {
    pub query: String,
    pub start: i64,
    pub end: i64,
    pub step: i64,
}

/// Parameters of an instant query on the embedded store.
#[derive(Debug, Clone)]
pub struct InstantParams {
    pub query: String,
    pub time: Option<i64>,
}

/// Parameters of a range query on the embedded store.
#[derive(Debug, Clone)]
pub struct RangeParams {
    pub query: String,
    pub start: i64,
    pub end: i64,
    pub step: i64,
}

/// Evaluation time: the one asked for, else now.
pub open spec fn time_or_now(time: Option<i64>, now_ms: i64) -> i64 {
    match time {
        Some(t) => t,
        None => now_ms,
    }
}

/// What a range query is answered before it runs: refused when the store
/// is off, then when `start > end`, then when `step <= 0`.
pub open spec fn range_refusal(ready: bool, start: i64, end: i64, step: i64) -> Option<(
    Seq<char>,
    Seq<char>,
)> {
    if !ready {
        Some(("metrics-store backend not enabled"@, "unavailable"@))
    } else if start > end {
        Some(("start must be before end"@, "bad_data"@))
    } else if step <= 0 {
        Some(("step must be positive"@, "bad_data"@))
    } else {
        None
    }
}

/// `e` is an error reply with this message and `errorType`.
pub open spec fn is_error(e: ApiError, msg: Seq<char>, kind: Seq<char>) -> bool {
    &&& e.status@ == "error"@
    &&& e.error@ == msg
    &&& e.error_type matches Some(t) && t@ == kind
}

/// `r` is the outcome that `range_refusal` describes.
pub open spec fn refusal_matches(r: Result<(), ApiError>, refusal: Option<(Seq<char>, Seq<char>)>) -> bool {
    match (refusal, r) {
        (None, Ok(_)) => true,
        (Some((msg, kind)), Err(e)) => is_error(e, msg, kind),
        _ => false,
    }
}

impl InstantQueryParams {
    /// Time at which the query is evaluated, or the refusal when the store
    /// is not enabled.
    pub fn eval_time(&self, backend_ready: bool, now_ms: i64) -> (r: Result<i64, ApiError>)
        ensures
            backend_ready ==> r == Ok::<i64, ApiError>(time_or_now(self.time, now_ms)),
            !backend_ready ==> (r matches Err(e) && is_error(
                e,
                "metrics-store backend not enabled"@,
                "unavailable"@,
            )),
    {
        if !backend_ready {
            return Err(backend_unavailable());
        }
        match self.time {
            Some(t) => Ok(t),
            None => Ok(now_ms),
        }
    }
}

impl RangeQueryParams {
    /// Checks a range query before it runs.
    pub fn check(&self, backend_ready: bool) -> (r: Result<(), ApiError>)
        ensures
            refusal_matches(r, range_refusal(backend_ready, self.start, self.end, self.step)),
    {
        if !backend_ready {
            return Err(backend_unavailable());
        }
        if self.start > self.end {
            return Err(bad_data("start must be before end"));
        }
        if self.step <= 0 {
            return Err(bad_data("step must be positive"));
        }
        Ok(())
    }
}

impl InstantParams {
    /// Time at which the query is evaluated: the one asked for, else now.
    pub fn eval_time(&self, now_ms: i64) -> (t: i64)
        ensures
            t == time_or_now(self.time, now_ms),
    {
        match self.time {
            Some(t) => t,
            None => now_ms,
        }
    }
}

} // verus!
