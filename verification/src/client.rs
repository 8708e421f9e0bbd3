//! The Google API client's logic: the requests it makes, how it reads a
//! response (JSON, empty body, API error), the `CODE|message` form of API
//! errors and its parsing back, and multipart upload framing.
use vstd::prelude::*;
use vstd::utf8::*;
use crate::json::{Json, JsonV, get, text_of, get_member, as_text};
use crate::text::{chars_of, concat, concat3, find_char_from, first_index, is_blank, is_blank_spec, lemma_first_index, string_of_range};

verus! {

/// An error of the library, carried as its message text; `api` marks an
/// error that a Google API answered (a failed HTTP response).
#[derive(Debug)]
pub struct GwsError {
    pub message: String,
    pub api: bool,
}

impl GwsError {
    /// An error with the given message, raised by the program itself.
    pub fn new(message: String) -> (e: GwsError)
        ensures
            e.message@ == message@,
            !e.api,
    {
        GwsError { message, api: false }
    }

    /// An error with the given message, answered by a Google API.
    pub fn api_failure(message: String) -> (e: GwsError)
        ensures
            e.message@ == message@,
            e.api,
    {
        GwsError { message, api: true }
    }
}

/// A request to a Google API, as the client sends it.
pub enum ApiCall {
    /// `GET url`, JSON response.
    Get { url: String },
    /// `POST url`, with an optional JSON body, JSON response.
    Post { url: String, body: Option<Json> },
    /// `PUT url` with a JSON body, JSON response.
    Put { url: String, payload: Json },
    /// `DELETE url`.
    Delete { url: String },
    /// `GET url`, the raw bytes of the response.
    GetRaw { url: String },
    /// `POST url` with a multipart/related body: JSON metadata, then the file content.
    PostMultipart { url: String, metadata: Json, content: Vec<u8> },
}

/// An API error: the error status code and message of a failed response.
pub struct ApiError {
    pub code: String,
    pub message: String,
}

/// The `(code, message)` that the text of an error holds: the parts before
/// and after its first `|`, or `None` when it has none.
pub open spec fn api_error_parts(s: Seq<char>) -> Option<(Seq<char>, Seq<char>)> {
    match first_index(s, '|') {
        Some(p) => Some((s.take(p), s.skip(p + 1))),
        None => None,
    }
}

/// Declares `anyhow::Error`, the error type that the command-line program propagates.
#[verifier::external_type_specification]
#[verifier::external_body]
pub struct ExAnyhowError(anyhow::Error);

/// The text of an `anyhow::Error`, as its `Display` writes it: a function
/// of the error alone.
pub uninterp spec fn anyhow_message(err: anyhow::Error) -> Seq<char>;

/// `anyhow::Error`'s `Display` (`to_string`): the error's text, named
/// `anyhow_message`.
#[verifier::external_body]
pub(crate) fn anyhow_text(err: &anyhow::Error) -> (r: String)
    ensures
        r@ == anyhow_message(*err),
{
    err.to_string()
}

impl ApiError {
    /// Reads an API error back from an error's text: the code before the
    /// first `|`, the message after it; `None` when the text has no `|`.
    pub fn from_message(s: &str) -> (r: Option<ApiError>)
        ensures
            match r {
                Some(e) => api_error_parts(s@) == Some((e.code@, e.message@)),
                None => api_error_parts(s@) is None,
            },
    {
        let cs = chars_of(s);
        proof {
            lemma_first_index(s@, '|');
        }
        match find_char_from(&cs, '|', 0) {
            Some(p) => {
                proof {
                    assert(first_index(s@, '|') == Some(p as int)) by {
                        lemma_first_index(s@, '|');
                        if let Some(q) = first_index(s@, '|') {
                            if q < p {
                                assert(s@[q] == '|');
                            } else if q > p {
                                assert(s@.take(q)[p as int] == '|');
                            }
                        }
                    }
                }
                let code = string_of_range(&cs, 0, p);
                assert(p < cs.len());
                let message = string_of_range(&cs, p + 1, cs.len());
                proof {
                    assert(s@.take(p as int) == cs@.subrange(0, p as int));
                    assert(s@.skip(p + 1) == cs@.subrange(p + 1, cs@.len() as int));
                }
                Some(ApiError { code, message })
            },
            None => {
                proof {
                    if s@.contains('|') {
                        let k = choose|k: int| 0 <= k < s@.len() && s@[k] == '|';
                        assert(cs@[k] == '|');
                    }
                }
                None
            },
        }
    }

    /// Reads an API error from a propagated error, by its text: the code
    /// before the first `|`, the message after it; `None` when it has none.
    pub fn from_anyhow(err: &anyhow::Error) -> (r: Option<ApiError>)
        ensures
            match r {
                Some(e) => api_error_parts(anyhow_message(*err)) == Some((e.code@, e.message@)),
                None => api_error_parts(anyhow_message(*err)) is None,
            },
    {
        let s = anyhow_text(err);
        ApiError::from_message(s.as_str())
    }
}

/// An API error's text, `CODE|message`, parses back into that code and
/// message whenever the code holds no `|`.
pub proof fn lemma_api_error_roundtrip(code: Seq<char>, message: Seq<char>)
    requires
        !code.contains('|'),
    ensures
        api_error_parts(code + seq!['|'] + message) == Some((code, message)),
{
    let s = code + seq!['|'] + message;
    lemma_first_index(s, '|');
    assert(s[code.len() as int] == '|');
    assert(s.take(code.len() as int) =~= code);
    assert(s.skip(code.len() as int + 1) =~= message);
    match first_index(s, '|') {
        Some(p) => {
            if p < code.len() {
                assert(code[p] == '|');
            } else if p > code.len() {
                assert(s.take(p)[code.len() as int] == '|');
            }
        },
        None => {
            assert(s.contains('|'));
        },
    }
}

// ---------------------------------------------------------------------------
// Reading responses
// ---------------------------------------------------------------------------

/// The error code of a failed response's JSON: `error.status`, else `error`
/// itself when it is a string, else `API_ERROR`.
pub open spec fn error_code_of(v: JsonV) -> Seq<char> {
    let err = get(v, "error"@);
    let status = match err {
        Some(e) => text_of(get(e, "status"@)),
        None => None,
    };
    match status {
        Some(s) => s,
        None => match text_of(err) {
            Some(s) => s,
            None => "API_ERROR"@,
        },
    }
}

/// The error message of a failed response's JSON: `error.message`, else the body text.
pub open spec fn error_message_of(v: JsonV, body: Seq<char>) -> Seq<char> {
    let msg = match get(v, "error"@) {
        Some(e) => text_of(get(e, "message"@)),
        None => None,
    };
    match msg {
        Some(m) => m,
        None => body,
    }
}

/// The text of the error for a failed response: `CODE|message`.
pub open spec fn failure_text(body: Seq<char>, parsed: Option<JsonV>) -> Seq<char> {
    match parsed {
        Some(v) => error_code_of(v) + "|"@ + error_message_of(v, body),
        None => "API_ERROR|"@ + body,
    }
}

/// What a response yields: a JSON value or an error text. `parsed` is the
/// body parsed as JSON, or `None` when it is not JSON.
pub open spec fn response_outcome(success: bool, body: Seq<char>, parsed: Option<JsonV>) -> Result<JsonV, Seq<char>> {
    if success {
        if is_blank_spec(body) {
            Ok(JsonV::Null)
        } else {
            match parsed {
                Some(v) => Ok(v),
                None => Err("Failed to parse JSON response: "@ + body),
            }
        }
    } else {
        Err(failure_text(body, parsed))
    }
}

/// The view of an optional JSON value.
pub open spec fn opt_json_view(j: Option<Json>) -> Option<JsonV> {
    match j {
        Some(v) => Some(v@),
        None => None,
    }
}

/// Whether a library result agrees with a specified outcome.
pub open spec fn result_matches(r: Result<Json, GwsError>, o: Result<JsonV, Seq<char>>) -> bool {
    match r {
        Ok(j) => o == Ok::<JsonV, Seq<char>>(j@),
        Err(e) => o == Err::<JsonV, Seq<char>>(e.message@),
    }
}

fn failure_error(body: &str, parsed: Option<Json>) -> (e: GwsError)
    ensures
        e.message@ == failure_text(body@, opt_json_view(parsed)),
        e.api,
{
    match parsed {
        Some(v) => {
            let err = get_member(&v, "error");
            let status = match err {
                Some(e) => as_text(get_member(e, "status")),
                None => None,
            };
            let code: &str = match status {
                Some(s) => s.as_str(),
                None => match as_text(err) {
                    Some(s) => s.as_str(),
                    None => "API_ERROR",
                },
            };
            let msg = match err {
                Some(e) => as_text(get_member(e, "message")),
                None => None,
            };
            let message: &str = match msg {
                Some(m) => m.as_str(),
                None => body,
            };
            proof {
                reveal_strlit("error");
                reveal_strlit("status");
                reveal_strlit("message");
                reveal_strlit("API_ERROR");
                reveal_strlit("|");
            }
            GwsError::api_failure(concat3(code, "|", message))
        },
        None => {
            proof {
                reveal_strlit("API_ERROR|");
            }
            GwsError::api_failure(concat("API_ERROR|", body))
        },
    }
}

/// Reads a JSON API response. On success an empty (or blank) body is `null`
/// and any other body must be JSON; a failure becomes an error `CODE|message`
/// taken from the response's `error` object.
pub fn interpret_response(success: bool, body: &str, parsed: Option<Json>) -> (r: Result<Json, GwsError>)
    ensures
        result_matches(r, response_outcome(success, body@, opt_json_view(parsed))),
        r matches Err(e) ==> (e.api <==> !success),
{
    if success {
        if is_blank(body) {
            Ok(Json::Null)
        } else {
            match parsed {
                Some(v) => Ok(v),
                None => {
                    proof {
                        reveal_strlit("Failed to parse JSON response: ");
                    }
                    Err(GwsError::new(concat("Failed to parse JSON response: ", body)))
                },
            }
        }
    } else {
        Err(failure_error(body, parsed))
    }
}

/// Reads the response to a DELETE: on success its JSON, or `null` when the
/// body is not JSON; a failure is read as any other response.
pub fn interpret_delete_response(success: bool, body: &str, parsed: Option<Json>) -> (r: Result<Json, GwsError>)
    ensures
        success ==> result_matches(
            r,
            Ok(
                match opt_json_view(parsed) {
                    Some(v) => v,
                    None => JsonV::Null,
                },
            ),
        ),
        !success ==> result_matches(r, response_outcome(false, body@, opt_json_view(parsed))),
        r matches Err(e) ==> e.api,
{
    if success {
        match parsed {
            Some(v) => Ok(v),
            None => Ok(Json::Null),
        }
    } else {
        interpret_response(false, body, parsed)
    }
}

/// The error for a failed download: `HTTP error: <body>`.
pub fn http_error(body: &str) -> (e: GwsError)
    ensures
        e.message@ == "HTTP error: "@ + body@,
        e.api,
{
    proof {
        reveal_strlit("HTTP error: ");
    }
    GwsError::api_failure(concat("HTTP error: ", body))
}

// ---------------------------------------------------------------------------
// Multipart upload
// ---------------------------------------------------------------------------

/// The boundary between the parts of an upload body.
pub open spec fn upload_boundary() -> Seq<char> {
    "gws_cli_boundary_123456789"@
}

/// The text before the file content in an upload body: the metadata part and
/// the header of the file part.
pub open spec fn upload_head(metadata_json: Seq<char>) -> Seq<char> {
    "--"@ + upload_boundary() + "\r\nContent-Type: application/json; charset=UTF-8\r\n\r\n"@ + metadata_json
        + "\r\n"@ + "--"@ + upload_boundary() + "\r\nContent-Type: application/octet-stream\r\n\r\n"@
}

/// The text after the file content in an upload body.
pub open spec fn upload_tail() -> Seq<char> {
    "\r\n--"@ + upload_boundary() + "--"@
}

/// Appends bytes to a byte vector.
pub fn extend_bytes(v: &mut Vec<u8>, s: &[u8])
    ensures
        final(v)@ == old(v)@ + s@,
{
    let mut i: usize = 0;
    while i < s.len()
        invariant
            0 <= i <= s@.len(),
            v@ == old(v)@ + s@.take(i as int),
        decreases s@.len() - i,
    {
        v.push(s[i]);
        proof {
            assert(s@.take(i + 1) == s@.take(i as int).push(s@[i as int]));
        }
        i += 1;
    }
    proof {
        assert(s@.take(s@.len() as int) == s@);
    }
}

/// The `Content-Type` of an upload body.
pub fn upload_content_type() -> (s: String)
    ensures
        s@ == "multipart/related; boundary="@ + upload_boundary(),
{
    proof {
        reveal_strlit("multipart/related; boundary=");
        reveal_strlit("gws_cli_boundary_123456789");
    }
    concat("multipart/related; boundary=", "gws_cli_boundary_123456789")
}

/// The multipart/related body of an upload: the metadata (already written
/// as JSON text) as the first part, the file content as the second.
pub fn upload_body(metadata_json: &str, content: &[u8]) -> (b: Vec<u8>)
    ensures
        b@ == encode_utf8(upload_head(metadata_json@)) + content@ + encode_utf8(upload_tail()),
{
    let mut head = concat3("--", "gws_cli_boundary_123456789", "\r\nContent-Type: application/json; charset=UTF-8\r\n\r\n");
    head = concat3(head.as_str(), metadata_json, "\r\n");
    head = concat3(head.as_str(), "--", "gws_cli_boundary_123456789");
    head = concat(head.as_str(), "\r\nContent-Type: application/octet-stream\r\n\r\n");
    let tail = concat3("\r\n--", "gws_cli_boundary_123456789", "--");
    let mut body: Vec<u8> = Vec::new();
    extend_bytes(&mut body, head.as_str().as_bytes());
    extend_bytes(&mut body, content);
    extend_bytes(&mut body, tail.as_str().as_bytes());
    proof {
        reveal_strlit("--");
        reveal_strlit("gws_cli_boundary_123456789");
        reveal_strlit("\r\nContent-Type: application/json; charset=UTF-8\r\n\r\n");
        reveal_strlit("\r\n");
        reveal_strlit("\r\nContent-Type: application/octet-stream\r\n\r\n");
        reveal_strlit("\r\n--");
        assert(head@ == upload_head(metadata_json@));
        assert(tail@ == upload_tail());
        assert(body@ =~= encode_utf8(upload_head(metadata_json@)) + content@ + encode_utf8(upload_tail()));
    }
    body
}

} // verus!
