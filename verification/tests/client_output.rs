use gws_cli::client::{
    http_error, interpret_delete_response, interpret_response, upload_body, upload_content_type, ApiError,
};
use gws_cli::json::Json;
use gws_cli::output::{auth_failure, report_anyhow, error_response, exit_code_for, report_error};

fn show(j: &Json) -> String {
    match j {
        Json::Null => "null".to_string(),
        Json::Bool(b) => b.to_string(),
        Json::Number(n) => n.clone(),
        Json::Str(s) => format!("{:?}", s),
        Json::Array(v) => format!("[{}]", v.iter().map(show).collect::<Vec<_>>().join(",")),
        Json::Object(f) => format!(
            "{{{}}}",
            f.iter().map(|(k, v)| format!("{:?}:{}", k, show(v))).collect::<Vec<_>>().join(",")
        ),
    }
}

fn obj(members: Vec<(&str, Json)>) -> Json {
    Json::Object(members.into_iter().map(|(k, v)| (k.to_string(), v)).collect())
}

fn text(s: &str) -> Json {
    Json::Str(s.to_string())
}

fn api_failure(status: &str, message: &str) -> Json {
    obj(vec![("error", obj(vec![("code", Json::Number("404".to_string())), ("status", text(status)), ("message", text(message))]))])
}

#[test]
fn api_error_from_message_splits_at_first_pipe() {
    let e = ApiError::from_message("NOT_FOUND|File not found").unwrap();
    assert_eq!(e.code, "NOT_FOUND");
    assert_eq!(e.message, "File not found");
    let e = ApiError::from_message("a|b|c").unwrap();
    assert_eq!(e.code, "a");
    assert_eq!(e.message, "b|c");
    let e = ApiError::from_message("|").unwrap();
    assert_eq!(e.code, "");
    assert_eq!(e.message, "");
    assert!(ApiError::from_message("plain failure").is_none());
}

#[test]
fn api_error_from_anyhow_reads_display_text() {
    let err = anyhow::Error::msg("PERMISSION_DENIED|The caller does not have permission");
    let e = ApiError::from_anyhow(&err).unwrap();
    assert_eq!(e.code, "PERMISSION_DENIED");
    assert_eq!(e.message, "The caller does not have permission");
    let err = anyhow::Error::msg("connection refused");
    assert!(ApiError::from_anyhow(&err).is_none());
}

#[test]
fn success_with_blank_body_is_null() {
    assert_eq!(show(&interpret_response(true, "", None).unwrap()), "null");
    assert_eq!(show(&interpret_response(true, "  \n\t", None).unwrap()), "null");
}

#[test]
fn success_with_json_body_is_the_json() {
    let body = "{\"id\":\"f1\"}";
    let r = interpret_response(true, body, Some(obj(vec![("id", text("f1"))]))).unwrap();
    assert_eq!(show(&r), "{\"id\":\"f1\"}");
}

#[test]
fn success_with_non_json_body_fails() {
    let r = interpret_response(true, "<html>", None);
    assert_eq!(r.err().unwrap().message, "Failed to parse JSON response: <html>");
}

#[test]
fn failure_uses_error_status_and_message() {
    let body = "{\"error\":{...}}";
    let r = interpret_response(false, body, Some(api_failure("NOT_FOUND", "File not found: x")));
    assert_eq!(r.err().unwrap().message, "NOT_FOUND|File not found: x");
}

#[test]
fn failure_with_string_error_uses_it_as_code() {
    let body = "{\"error\":\"invalid_grant\"}";
    let r = interpret_response(false, body, Some(obj(vec![("error", text("invalid_grant"))])));
    assert_eq!(r.err().unwrap().message, format!("invalid_grant|{}", body));
}

#[test]
fn failure_without_status_is_api_error() {
    let body = "{\"error\":{\"code\":500}}";
    let parsed = obj(vec![("error", obj(vec![("code", Json::Number("500".to_string()))]))]);
    let r = interpret_response(false, body, Some(parsed));
    assert_eq!(r.err().unwrap().message, format!("API_ERROR|{}", body));
    let r = interpret_response(false, "Bad Gateway", None);
    assert_eq!(r.err().unwrap().message, "API_ERROR|Bad Gateway");
}

#[test]
fn failure_error_key_repeated_takes_last() {
    let parsed = obj(vec![("error", text("first")), ("error", text("second"))]);
    let r = interpret_response(false, "b", Some(parsed));
    assert_eq!(r.err().unwrap().message, "second|b");
}

#[test]
fn delete_success_reads_json_or_null() {
    assert_eq!(show(&interpret_delete_response(true, "", None).unwrap()), "null");
    let r = interpret_delete_response(true, "{}", Some(obj(vec![]))).unwrap();
    assert_eq!(show(&r), "{}");
    let r = interpret_delete_response(false, "nope", None);
    assert_eq!(r.err().unwrap().message, "API_ERROR|nope");
}

#[test]
fn download_failure_message() {
    assert_eq!(http_error("boom").message, "HTTP error: boom");
}

#[test]
fn multipart_upload_framing() {
    assert_eq!(upload_content_type(), "multipart/related; boundary=gws_cli_boundary_123456789");
    let body = upload_body("{\"name\":\"a\"}", b"xyz");
    let expected = "--gws_cli_boundary_123456789\r\nContent-Type: application/json; charset=UTF-8\r\n\r\n{\"name\":\"a\"}\r\n--gws_cli_boundary_123456789\r\nContent-Type: application/octet-stream\r\n\r\nxyz\r\n--gws_cli_boundary_123456789--";
    assert_eq!(body, expected.as_bytes());
    let binary = upload_body("{}", &[0, 255, 10]);
    assert!(binary.windows(3).any(|w| w == [0, 255, 10]));
}

#[test]
fn exit_codes() {
    assert_eq!(exit_code_for("AUTH_ERROR"), 2);
    assert_eq!(exit_code_for("UNAUTHENTICATED"), 2);
    assert_eq!(exit_code_for("ERROR"), 1);
    assert_eq!(exit_code_for("SERIALIZATION_ERROR"), 1);
    assert_eq!(exit_code_for("PERMISSION_DENIED"), 1);
}

#[test]
fn report_of_api_and_other_errors() {
    let r = report_error("PERMISSION_DENIED|no access", true);
    assert_eq!((r.code.as_str(), r.message.as_str(), r.exit_code), ("PERMISSION_DENIED", "no access", 3));
    let r = report_error("UNAUTHENTICATED|expired", true);
    assert_eq!(r.exit_code, 2);
    let r = report_error("NOT_FOUND|File not found: x", true);
    assert_eq!((r.code.as_str(), r.message.as_str(), r.exit_code), ("NOT_FOUND", "File not found: x", 3));
    let r = report_error("HTTP error: Not Found", true);
    assert_eq!((r.code.as_str(), r.message.as_str(), r.exit_code), ("ERROR", "HTTP error: Not Found", 3));
    let r = report_error("Device authorization timed out", false);
    assert_eq!((r.code.as_str(), r.message.as_str(), r.exit_code), ("ERROR", "Device authorization timed out", 1));
}

#[test]
fn text_with_pipe_not_from_google_is_general() {
    let r = interpret_response(true, "a|b", None).err().unwrap();
    assert!(!r.api);
    let report = report_error(&r.message, r.api);
    assert_eq!(report.code, "Failed to parse JSON response: a");
    assert_eq!(report.message, "b");
    assert_eq!(report.exit_code, 1);
}

#[test]
fn failed_response_is_reported_with_its_code() {
    let r = interpret_response(false, "{}", Some(api_failure("PERMISSION_DENIED", "Forbidden"))).err().unwrap();
    assert!(r.api);
    let report = report_error(&r.message, r.api);
    assert_eq!(report.code, "PERMISSION_DENIED");
    assert_eq!(report.message, "Forbidden");
    assert_eq!(report.exit_code, 3);
    assert!(interpret_delete_response(false, "x", None).err().unwrap().api);
    assert!(http_error("x").api);
}

#[test]
fn error_report_fields() {
    let r = error_response("AUTH_ERROR", "Not authenticated", Some("Run: gws auth init"));
    assert_eq!(r.error.code, "AUTH_ERROR");
    assert_eq!(r.error.message, "Not authenticated");
    assert_eq!(r.error.suggestion.as_deref(), Some("Run: gws auth init"));
    assert!(error_response("X", "y", None).error.suggestion.is_none());
}

#[test]
fn service_auth_failure_report() {
    let (r, code) = auth_failure("Not authenticated. Run: gws auth init");
    assert_eq!(r.error.code, "AUTH_ERROR");
    assert_eq!(r.error.message, "Not authenticated. Run: gws auth init");
    assert_eq!(r.error.suggestion.as_deref(), Some("Run: gws auth init"));
    assert_eq!(code, 2);
}

#[test]
fn report_of_propagated_errors() {
    let r = report_anyhow(&anyhow::Error::msg("NOT_FOUND|File not found: x"), true);
    assert_eq!((r.code.as_str(), r.message.as_str(), r.exit_code), ("NOT_FOUND", "File not found: x", 3));
    let r = report_anyhow(&anyhow::Error::msg("NOT_FOUND|File not found: x"), false);
    assert_eq!(r.exit_code, 1);
    let r = report_anyhow(&anyhow::Error::msg("UNAUTHENTICATED|expired"), true);
    assert_eq!(r.exit_code, 2);
    let r = report_anyhow(&anyhow::Error::msg("Device authorization timed out"), false);
    assert_eq!((r.code.as_str(), r.message.as_str(), r.exit_code), ("ERROR", "Device authorization timed out", 1));
}
