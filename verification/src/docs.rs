//! Docs: the requests of the `docs` commands.
use vstd::prelude::*;
use crate::client::{ApiCall, GwsError};
use crate::json::{Json, JsonV, json_str, object1};
use crate::text::{concat, concat3, opt_text};

verus! {

/// The `docs` commands.
pub enum DocsCommands {
    /// Get a document by ID.
    Get { id: String, suggestions_view_mode: Option<String> },
    /// Create a new document.
    Create { title: String },
    /// Update a document with batchUpdate requests (read as JSON).
    Update { id: String },
}

/// The documents collection.
pub open spec fn documents_url() -> Seq<char> {
    "https://docs.googleapis.com/v1/documents"@
}

/// The URL of a document, with the suggestions view mode when given (not encoded).
pub open spec fn document_url(id: Seq<char>, mode: Option<Seq<char>>) -> Seq<char> {
    documents_url() + "/"@ + id + match mode {
        Some(m) => "?suggestionsViewMode="@ + m,
        None => Seq::<char>::empty(),
    }
}

/// The request of `docs get`.
pub fn get_call(id: &str, mode: Option<String>) -> (c: ApiCall)
    ensures
        c matches ApiCall::Get { url } && url@ == document_url(id@, opt_text(mode)),
{
    let url = concat3("https://docs.googleapis.com/v1/documents", "/", id);
    match mode {
        Some(m) => {
            let q = concat("?suggestionsViewMode=", m.as_str());
            ApiCall::Get { url: concat(url.as_str(), q.as_str()) }
        },
        None => {
            proof {
                assert(url@ + Seq::<char>::empty() =~= url@);
            }
            ApiCall::Get { url }
        },
    }
}

/// The request of `docs create`: a document with the title.
pub fn create_call(title: &str) -> (c: ApiCall)
    ensures
        c matches ApiCall::Post { url, body: Some(b) } && url@ == documents_url() && b@ == JsonV::Object(
            seq![("title"@, JsonV::Str(title@))],
        ),
{
    let body = object1("title", json_str(title));
    ApiCall::Post { url: "https://docs.googleapis.com/v1/documents".to_string(), body: Some(body) }
}

/// The request of `docs update`: the batchUpdate requests, as given.
pub fn update_call(id: &str, requests: Json) -> (c: ApiCall)
    ensures
        c matches ApiCall::Post { url, body: Some(b) } && url@ == documents_url() + "/"@ + id@ + ":batchUpdate"@ && b
            == requests,
{
    let url = concat3("https://docs.googleapis.com/v1/documents", "/", id);
    ApiCall::Post { url: concat(url.as_str(), ":batchUpdate"), body: Some(requests) }
}

/// The request that a `docs` command makes. `requests` is the JSON read for
/// an update; an update without it makes none.
pub fn request(cmd: DocsCommands, requests: Option<Json>) -> (c: Option<ApiCall>)
    ensures
        match cmd {
            DocsCommands::Get { id, suggestions_view_mode } => c matches Some(ApiCall::Get { url }) && url@
                == document_url(id@, opt_text(suggestions_view_mode)),
            DocsCommands::Create { title } => c matches Some(ApiCall::Post { url, body: Some(b) }) && url@
                == documents_url() && b@ == JsonV::Object(seq![("title"@, JsonV::Str(title@))]),
            DocsCommands::Update { id } => match requests {
                Some(r) => c matches Some(ApiCall::Post { url, body: Some(b) }) && url@ == documents_url() + "/"@
                    + id@ + ":batchUpdate"@ && b == r,
                None => c is None,
            },
        },
{
    match cmd {
        DocsCommands::Get { id, suggestions_view_mode } => Some(get_call(id.as_str(), suggestions_view_mode)),
        DocsCommands::Create { title } => Some(create_call(title.as_str())),
        DocsCommands::Update { id } => match requests {
            Some(r) => Some(update_call(id.as_str(), r)),
            None => None,
        },
    }
}

/// The OAuth scope that the `docs` commands ask for.
pub fn scope() -> (s: &'static str)
    ensures
        s@ == "https://www.googleapis.com/auth/documents"@,
{
    "https://www.googleapis.com/auth/documents"
}

/// The error when the batchUpdate requests cannot be had: standard input
/// could not be read (`read` is false), or it is not JSON.
pub fn input_error(read: bool) -> (e: GwsError)
    ensures
        !read ==> e.message@ == "Failed to read batchUpdate requests from stdin"@,
        read ==> e.message@ == "Invalid JSON in batchUpdate requests"@,
{
    if read {
        GwsError::new("Invalid JSON in batchUpdate requests".to_string())
    } else {
        GwsError::new("Failed to read batchUpdate requests from stdin".to_string())
    }
}

/// A given suggestions view mode always reaches the document URL, as its
/// one query parameter after the URL made without it.
pub proof fn lemma_document_url_mode(id: Seq<char>, mode: Seq<char>)
    ensures
        document_url(id, Some(mode)) == document_url(id, None) + "?suggestionsViewMode="@ + mode,
        document_url(id, None) == documents_url() + "/"@ + id,
{
    assert(document_url(id, None) =~= documents_url() + "/"@ + id);
}

} // verus!
