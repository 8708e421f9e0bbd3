//! Error reports and exit codes of the command-line program.
use vstd::prelude::*;
use crate::client::{ApiError, anyhow_message, anyhow_text, api_error_parts, error_code_of, error_message_of, failure_text};
use crate::json::JsonV;
use crate::text::{opt_str, opt_text, str_eq};

verus! {

/// The error object of an error report.
pub struct ErrorDetail {
    pub code: String,
    pub message: String,
    pub suggestion: Option<String>,
}

/// An error report, written as JSON on standard error: `{"error": {...}}`.
pub struct ErrorResponse {
    pub error: ErrorDetail,
}

/// The report of an error with the given code, message and suggestion.
pub fn error_response(code: &str, message: &str, suggestion: Option<&str>) -> (r: ErrorResponse)
    ensures
        r.error.code@ == code@,
        r.error.message@ == message@,
        opt_text(r.error.suggestion) == opt_str(suggestion),
{
    let suggestion = match suggestion {
        Some(s) => Some(s.to_string()),
        None => None,
    };
    ErrorResponse {
        error: ErrorDetail { code: code.to_string(), message: message.to_string(), suggestion },
    }
}

/// The process exit code for an error with the given code: 2 for
/// authentication errors (`AUTH_ERROR`, `UNAUTHENTICATED`), 3 for any other
/// error that a Google API answered (`api`: permission or API error, from a
/// failed HTTP response), 1 for any other error (a general error).
pub open spec fn exit_code_of(code: Seq<char>, api: bool) -> i32 {
    if code == "AUTH_ERROR"@ || code == "UNAUTHENTICATED"@ {
        2
    } else if api {
        3
    } else {
        1
    }
}

/// The exit code for an error code that the program raises itself.
pub fn exit_code_for(code: &str) -> (c: i32)
    ensures
        c == exit_code_of(code@, false),
{
    if str_eq(code, "AUTH_ERROR") || str_eq(code, "UNAUTHENTICATED") {
        2
    } else {
        1
    }
}

/// The exit code for an error code, `api` when a Google API answered it.
fn exit_code_with(code: &str, api: bool) -> (c: i32)
    ensures
        c == exit_code_of(code@, api),
{
    if str_eq(code, "AUTH_ERROR") || str_eq(code, "UNAUTHENTICATED") {
        2
    } else if api {
        3
    } else {
        1
    }
}

/// The report of a failure to authenticate a service command: code
/// `AUTH_ERROR`, the failure's message, a hint to run `gws auth init`, and
/// exit code 2.
pub fn auth_failure(message: &str) -> (r: (ErrorResponse, i32))
    ensures
        r.0.error.code@ == "AUTH_ERROR"@,
        r.0.error.message@ == message@,
        opt_text(r.0.error.suggestion) == Some("Run: gws auth init"@),
        r.1 == 2,
{
    let report = error_response("AUTH_ERROR", message, Some("Run: gws auth init"));
    let code = exit_code_for("AUTH_ERROR");
    proof {
        reveal_strlit("AUTH_ERROR");
    }
    (report, code)
}

/// How the program reports an error that ended a command.
pub struct ErrorReport {
    pub code: String,
    pub message: String,
    pub exit_code: i32,
}

/// The report of an error, from its text and whether a Google API answered
/// it (`api`): a text `CODE|message` is reported with that code and message,
/// any other as `ERROR` with its whole text; the exit code is that of the
/// code, 3 only for an error that a Google API answered.
pub open spec fn report_of(text: Seq<char>, api: bool) -> (Seq<char>, Seq<char>, i32) {
    match api_error_parts(text) {
        Some((code, message)) => (code, message, exit_code_of(code, api)),
        None => ("ERROR"@, text, exit_code_of("ERROR"@, api)),
    }
}

/// Classifies the error that ended a command, from its text and whether a
/// Google API answered it.
pub fn report_error(text: &str, api: bool) -> (r: ErrorReport)
    ensures
        report_of(text@, api) == (r.code@, r.message@, r.exit_code),
{
    match ApiError::from_message(text) {
        Some(e) => {
            let exit_code = exit_code_with(e.code.as_str(), api);
            ErrorReport { code: e.code, message: e.message, exit_code }
        },
        None => {
            proof {
                reveal_strlit("ERROR");
            }
            ErrorReport { code: "ERROR".to_string(), message: text.to_string(), exit_code: exit_code_with("ERROR", api) }
        },
    }
}

/// Classifies the propagated error that ended the program (`api` when a
/// Google API answered it): an API error text (read back by
/// `ApiError::from_anyhow`) with its code and message, any other error as
/// `ERROR` with its whole text.
pub fn report_anyhow(err: &anyhow::Error, api: bool) -> (r: ErrorReport)
    ensures
        report_of(anyhow_message(*err), api) == (r.code@, r.message@, r.exit_code),
{
    match ApiError::from_anyhow(err) {
        Some(e) => {
            let exit_code = exit_code_with(e.code.as_str(), api);
            ErrorReport { code: e.code, message: e.message, exit_code }
        },
        None => {
            proof {
                reveal_strlit("ERROR");
            }
            ErrorReport { code: "ERROR".to_string(), message: anyhow_text(err), exit_code: exit_code_with("ERROR", api) }
        },
    }
}

/// A failed API response is reported with the code and message of its
/// `error` object, and the exit code that its code calls for, whenever the
/// code holds no `|`.
pub proof fn lemma_failure_report(body: Seq<char>, v: JsonV)
    requires
        !error_code_of(v).contains('|'),
    ensures
        report_of(failure_text(body, Some(v)), true) == (
            error_code_of(v),
            error_message_of(v, body),
            exit_code_of(error_code_of(v), true),
        ),
{
    reveal_strlit("|");
    crate::client::lemma_api_error_roundtrip(error_code_of(v), error_message_of(v, body));
    assert(error_code_of(v) + "|"@ + error_message_of(v, body) == error_code_of(v) + seq!['|'] + error_message_of(v, body));
}

} // verus!
