//! Drive: the requests of the `drive` commands, the upload metadata and
//! permission bodies, and what the commands print.
use vstd::prelude::*;
use crate::client::{ApiCall, GwsError};
use crate::codec::{url_encode, url_encoded};
use crate::json::{
    get, lemma_lookup_push, lookup, Json, JsonV, array1, fields_view, json_str, member_list, members, merge_objects, object, push_member,
};
use crate::paths::{file_name_of, file_name_or, guess_mime_type, guessed_mime_type};
use crate::text::{concat, concat3, i32_to_decimal, int_text, join, join_with, lemma_join_push, opt_text, views};

verus! {

/// The role a permission grants.
pub enum ShareRole {
    Owner,
    Writer,
    Commenter,
    Reader,
}

/// Whom a permission is granted to.
pub enum ShareType {
    User,
    Group,
    Domain,
    Anyone,
}

/// The `drive` commands.
pub enum DriveCommands {
    /// List files.
    List { query: Option<String>, page_size: Option<i32>, parent_id: Option<String> },
    /// Upload a file.
    Upload { path: String, folder_id: Option<String>, name: Option<String> },
    /// Download a file.
    Download { id: String, output: String },
    /// Create a folder.
    Mkdir { name: String, parent_id: Option<String> },
    /// Delete a file.
    Delete { id: String },
    /// Share a file or folder (create a permission).
    Share { id: String, role: ShareRole, type_: ShareType, email: Option<String>, link: bool },
}

/// The files collection.
pub open spec fn files_url() -> Seq<char> {
    "https://www.googleapis.com/drive/v3/files"@
}

/// The parts of the search query of `drive list`: the query given, and the
/// parent folder condition.
pub open spec fn search_parts(query: Option<Seq<char>>, parent_id: Option<Seq<char>>) -> Seq<Seq<char>> {
    (match query {
        Some(q) => seq![q],
        None => Seq::empty(),
    }) + (match parent_id {
        Some(p) => seq!["'"@ + p + "' in parents"@],
        None => Seq::empty(),
    })
}

/// The query parameters of `drive list`: all fields, the page size, and the
/// search query (its parts joined by ` and `, percent-encoded).
pub open spec fn list_params(query: Option<Seq<char>>, page_size: Option<i32>, parent_id: Option<Seq<char>>) -> Seq<Seq<char>> {
    let parts = search_parts(query, parent_id);
    seq!["fields=*"@] + (match page_size {
        Some(p) => seq!["pageSize="@ + int_text(p as int)],
        None => Seq::empty(),
    }) + (if parts.len() == 0 {
        Seq::empty()
    } else {
        seq!["q="@ + url_encoded(join_with(parts, " and "@))]
    })
}

/// The parent folder condition of a search.
pub open spec fn in_parents(parent: Seq<char>) -> Seq<char> {
    "'"@ + parent + "' in parents"@
}

/// A given search query always reaches the list URL: the URL is the one made
/// without a query or parent, followed by `&q=` and the percent-encoding of
/// the query alone, or of the query, ` and ` and the parent condition when a
/// parent is given, whatever the page size. A parent alone gives its
/// condition as the query.
pub proof fn lemma_list_url_query(query: Option<Seq<char>>, page_size: Option<i32>, parent_id: Option<Seq<char>>)
    ensures
        query matches Some(q) ==> files_url() + "?"@ + join_with(list_params(query, page_size, parent_id), "&"@)
            == files_url() + "?"@ + join_with(list_params(None, page_size, None), "&"@) + "&q="@ + url_encoded(
            match parent_id {
                Some(p) => q + " and "@ + in_parents(p),
                None => q,
            },
        ),
        query is None ==> (parent_id matches Some(p) ==> files_url() + "?"@ + join_with(
            list_params(query, page_size, parent_id),
            "&"@,
        ) == files_url() + "?"@ + join_with(list_params(None, page_size, None), "&"@) + "&q="@ + url_encoded(
            in_parents(p),
        )),
{
    let base = list_params(None, page_size, None);
    assert(search_parts(None, None).len() == 0);
    assert(base =~= seq!["fields=*"@] + (match page_size {
        Some(p) => seq!["pageSize="@ + int_text(p as int)],
        None => Seq::<Seq<char>>::empty(),
    }));
    let parts = search_parts(query, parent_id);
    if parts.len() > 0 {
        let text = join_with(parts, " and "@);
        assert(list_params(query, page_size, parent_id) =~= base.push("q="@ + url_encoded(text)));
        lemma_join_push(base, "q="@ + url_encoded(text), "&"@);
        reveal_strlit("&");
        reveal_strlit("q=");
        reveal_strlit("&q=");
        assert("&"@ + ("q="@ + url_encoded(text)) =~= "&q="@ + url_encoded(text));
        match (query, parent_id) {
            (Some(q), Some(p)) => {
                assert(parts =~= seq![q, in_parents(p)]);
                assert(parts.drop_last() =~= seq![q]);
                assert(join_with(seq![q], " and "@) == q);
                assert(parts.last() == in_parents(p));
                assert(text == q + " and "@ + in_parents(p));
            },
            (Some(q), None) => {
                assert(parts =~= seq![q]);
            },
            (None, Some(p)) => {
                assert(parts =~= seq![in_parents(p)]);
            },
            (None, None) => {},
        }
    }
}

/// The URL of `drive list`.
pub fn list_url(query: &Option<String>, page_size: Option<i32>, parent_id: &Option<String>) -> (u: String)
    ensures
        u@ == files_url() + "?"@ + join_with(list_params(opt_text(*query), page_size, opt_text(*parent_id)), "&"@),
{
    let mut params: Vec<String> = Vec::new();
    params.push("fields=*".to_string());
    if let Some(p) = page_size {
        params.push(concat("pageSize=", i32_to_decimal(p).as_str()));
    }
    let mut q_parts: Vec<String> = Vec::new();
    if let Some(q) = query {
        q_parts.push(q.clone());
    }
    if let Some(parent) = parent_id {
        q_parts.push(concat3("'", parent.as_str(), "' in parents"));
    }
    proof {
        assert(views(q_parts@) =~= search_parts(opt_text(*query), opt_text(*parent_id)));
    }
    let ghost before = views(params@);
    if q_parts.len() > 0 {
        let joined = join(&q_parts, " and ");
        params.push(concat("q=", url_encode(joined.as_str()).as_str()));
        proof {
            assert(views(params@) =~= before.push(params@.last()@));
        }
    }
    proof {
        assert(views(params@) =~= list_params(opt_text(*query), page_size, opt_text(*parent_id)));
    }
    let q = join(&params, "&");
    concat3("https://www.googleapis.com/drive/v3/files", "?", q.as_str())
}

/// The metadata of an upload: its name and MIME type, and its folder when given.
pub open spec fn upload_metadata_view(name: Seq<char>, mime_type: Seq<char>, folder_id: Option<Seq<char>>) -> JsonV {
    let base = seq![("name"@, JsonV::Str(name)), ("mimeType"@, JsonV::Str(mime_type))];
    match folder_id {
        Some(f) => JsonV::Object(base.push(("parents"@, JsonV::Array(seq![JsonV::Str(f)])))),
        None => JsonV::Object(base),
    }
}

/// The name a file is uploaded under: the name given, else that of its path, else `unnamed`.
pub open spec fn upload_name(path: Seq<char>, name: Option<Seq<char>>) -> Seq<char> {
    match name {
        Some(n) => n,
        None => match file_name_of(path) {
            Some(f) => f,
            None => "unnamed"@,
        },
    }
}

/// The metadata of an upload.
pub fn upload_metadata(name: &str, mime_type: &str, folder_id: Option<String>) -> (j: Json)
    ensures
        j@ == upload_metadata_view(name@, mime_type@, opt_text(folder_id)),
{
    let mut f: Vec<(String, Json)> = Vec::new();
    push_member(&mut f, "name", json_str(name));
    push_member(&mut f, "mimeType", json_str(mime_type));
    let ghost base = fields_view(f@);
    proof {
        assert(base =~= seq![("name"@, JsonV::Str(name@)), ("mimeType"@, JsonV::Str(mime_type@))]);
    }
    match folder_id {
        Some(folder) => {
            let parents = array1(Json::Str(folder));
            push_member(&mut f, "parents", parents);
        },
        None => {},
    }
    object(f)
}

/// The upload endpoint (multipart upload, all fields in the answer).
pub open spec fn upload_url() -> Seq<char> {
    "https://www.googleapis.com/upload/drive/v3/files?uploadType=multipart&fields=*"@
}

/// The request of `drive upload`: the file content under its metadata.
pub fn upload_call(path: &str, folder_id: Option<String>, name: Option<String>, content: Vec<u8>) -> (c: ApiCall)
    ensures
        c matches ApiCall::PostMultipart { url, metadata, content: data } && url@ == upload_url() && metadata@
            == upload_metadata_view(upload_name(path@, opt_text(name)), guessed_mime_type(path@), opt_text(folder_id))
            && data@ == content@,
{
    let file_name = match name {
        Some(n) => n,
        None => file_name_or(path, "unnamed"),
    };
    let mime_type = guess_mime_type(path);
    let metadata = upload_metadata(file_name.as_str(), mime_type.as_str(), folder_id);
    ApiCall::PostMultipart {
        url: "https://www.googleapis.com/upload/drive/v3/files?uploadType=multipart&fields=*".to_string(),
        metadata,
        content,
    }
}

/// The request of `drive download`: the file's content.
pub fn download_call(id: &str) -> (c: ApiCall)
    ensures
        c matches ApiCall::GetRaw { url } && url@ == files_url() + "/"@ + id@ + "?alt=media"@,
{
    let url = concat3("https://www.googleapis.com/drive/v3/files", "/", id);
    ApiCall::GetRaw { url: concat(url.as_str(), "?alt=media") }
}

/// What `drive download` prints once the file is written.
pub fn download_output(output: &str) -> (j: Json)
    ensures
        j@ == JsonV::Object(seq![("success"@, JsonV::Bool(true)), ("output"@, JsonV::Str(output@))]),
{
    let mut f: Vec<(String, Json)> = Vec::new();
    push_member(&mut f, "success", Json::Bool(true));
    push_member(&mut f, "output", json_str(output));
    proof {
        assert(fields_view(f@) =~= seq![("success"@, JsonV::Bool(true)), ("output"@, JsonV::Str(output@))]);
    }
    object(f)
}

/// The body of `drive mkdir`: a folder with the name, under the parent when given.
pub open spec fn folder_view(name: Seq<char>, parent_id: Option<Seq<char>>) -> JsonV {
    upload_metadata_view(name, "application/vnd.google-apps.folder"@, parent_id)
}

/// The request of `drive mkdir`.
pub fn mkdir_call(name: &str, parent_id: Option<String>) -> (c: ApiCall)
    ensures
        c matches ApiCall::Post { url, body: Some(b) } && url@ == files_url() + "?fields=*"@ && b@ == folder_view(
            name@,
            opt_text(parent_id),
        ),
{
    let body = upload_metadata(name, "application/vnd.google-apps.folder", parent_id);
    ApiCall::Post { url: concat("https://www.googleapis.com/drive/v3/files", "?fields=*"), body: Some(body) }
}

/// The request of `drive delete`.
pub fn delete_call(id: &str) -> (c: ApiCall)
    ensures
        c matches ApiCall::Delete { url } && url@ == files_url() + "/"@ + id@,
{
    ApiCall::Delete { url: concat3("https://www.googleapis.com/drive/v3/files", "/", id) }
}

/// What `drive delete` prints once the file is deleted.
pub fn delete_output(id: &str) -> (j: Json)
    ensures
        j@ == JsonV::Object(seq![("success"@, JsonV::Bool(true)), ("deleted"@, JsonV::Str(id@))]),
{
    let mut f: Vec<(String, Json)> = Vec::new();
    push_member(&mut f, "success", Json::Bool(true));
    push_member(&mut f, "deleted", json_str(id));
    proof {
        assert(fields_view(f@) =~= seq![("success"@, JsonV::Bool(true)), ("deleted"@, JsonV::Str(id@))]);
    }
    object(f)
}

/// The name of a role in the Drive API.
pub open spec fn role_name(r: ShareRole) -> Seq<char> {
    match r {
        ShareRole::Owner => "owner"@,
        ShareRole::Writer => "writer"@,
        ShareRole::Commenter => "commenter"@,
        ShareRole::Reader => "reader"@,
    }
}

/// The name of a grantee type in the Drive API.
pub open spec fn grantee_name(t: ShareType) -> Seq<char> {
    match t {
        ShareType::User => "user"@,
        ShareType::Group => "group"@,
        ShareType::Domain => "domain"@,
        ShareType::Anyone => "anyone"@,
    }
}

/// The name of a role.
pub fn role_str(r: &ShareRole) -> (s: &'static str)
    ensures
        s@ == role_name(*r),
{
    match r {
        ShareRole::Owner => "owner",
        ShareRole::Writer => "writer",
        ShareRole::Commenter => "commenter",
        ShareRole::Reader => "reader",
    }
}

/// The name of a grantee type.
pub fn type_str(t: &ShareType) -> (s: &'static str)
    ensures
        s@ == grantee_name(*t),
{
    match t {
        ShareType::User => "user",
        ShareType::Group => "group",
        ShareType::Domain => "domain",
        ShareType::Anyone => "anyone",
    }
}

/// The permission that `drive share` creates: the role, the grantee type, and
/// the grantee's email address when given.
pub open spec fn permission_view(role: ShareRole, type_: ShareType, email: Option<Seq<char>>) -> JsonV {
    let base = seq![("role"@, JsonV::Str(role_name(role))), ("type"@, JsonV::Str(grantee_name(type_)))];
    match email {
        Some(e) => JsonV::Object(base.push(("emailAddress"@, JsonV::Str(e)))),
        None => JsonV::Object(base),
    }
}

/// The request of `drive share`: a new permission on the file.
pub fn share_call(id: &str, role: &ShareRole, type_: &ShareType, email: Option<String>) -> (c: ApiCall)
    ensures
        c matches ApiCall::Post { url, body: Some(b) } && url@ == files_url() + "/"@ + id@ + "/permissions"@ && b@
            == permission_view(*role, *type_, opt_text(email)),
{
    let mut f: Vec<(String, Json)> = Vec::new();
    push_member(&mut f, "role", json_str(role_str(role)));
    push_member(&mut f, "type", json_str(type_str(type_)));
    proof {
        assert(fields_view(f@) =~= seq![
            ("role"@, JsonV::Str(role_name(*role))),
            ("type"@, JsonV::Str(grantee_name(*type_))),
        ]);
    }
    if let Some(e) = email {
        push_member(&mut f, "emailAddress", Json::Str(e));
    }
    let body = object(f);
    let url = concat3("https://www.googleapis.com/drive/v3/files", "/", id);
    ApiCall::Post { url: concat(url.as_str(), "/permissions"), body: Some(body) }
}

/// The request that fetches a shared file's links, made by `drive share --link`.
pub fn share_link_call(id: &str) -> (c: ApiCall)
    ensures
        c matches ApiCall::Get { url } && url@ == files_url() + "/"@ + id@ + "?fields=webViewLink,webContentLink"@,
{
    let url = concat3("https://www.googleapis.com/drive/v3/files", "/", id);
    ApiCall::Get { url: concat(url.as_str(), "?fields=webViewLink,webContentLink") }
}

/// What `drive share --link` prints: the members of the new permission and
/// those of the file's links in one object, the latter winning.
pub fn share_link_output(permission: Json, links: Json) -> (j: Json)
    ensures
        j@ == JsonV::Object(member_list(permission@) + member_list(links@)),
        members(j@) == members(permission@).union_prefer_right(members(links@)),
{
    merge_objects(permission, links)
}

/// The request that a `drive` command makes first. `content` is the file
/// read for an upload (unused by the other commands).
pub fn request(cmd: DriveCommands, content: Vec<u8>) -> (c: ApiCall)
    ensures
        match cmd {
            DriveCommands::List { query, page_size, parent_id } => c matches ApiCall::Get { url } && url@
                == files_url() + "?"@ + join_with(list_params(opt_text(query), page_size, opt_text(parent_id)), "&"@),
            DriveCommands::Upload { path, folder_id, name } => c matches ApiCall::PostMultipart {
                url,
                metadata,
                content: data,
            } && url@ == upload_url() && metadata@ == upload_metadata_view(
                upload_name(path@, opt_text(name)),
                guessed_mime_type(path@),
                opt_text(folder_id),
            ) && data@ == content@,
            DriveCommands::Download { id, .. } => c matches ApiCall::GetRaw { url } && url@ == files_url() + "/"@
                + id@ + "?alt=media"@,
            DriveCommands::Mkdir { name, parent_id } => c matches ApiCall::Post { url, body: Some(b) } && url@
                == files_url() + "?fields=*"@ && b@ == folder_view(name@, opt_text(parent_id)),
            DriveCommands::Delete { id } => c matches ApiCall::Delete { url } && url@ == files_url() + "/"@ + id@,
            DriveCommands::Share { id, role, type_, email, .. } => c matches ApiCall::Post { url, body: Some(b) }
                && url@ == files_url() + "/"@ + id@ + "/permissions"@ && b@ == permission_view(
                role,
                type_,
                opt_text(email),
            ),
        },
{
    match cmd {
        DriveCommands::List { query, page_size, parent_id } => ApiCall::Get {
            url: list_url(&query, page_size, &parent_id),
        },
        DriveCommands::Upload { path, folder_id, name } => upload_call(path.as_str(), folder_id, name, content),
        DriveCommands::Download { id, .. } => download_call(id.as_str()),
        DriveCommands::Mkdir { name, parent_id } => mkdir_call(name.as_str(), parent_id),
        DriveCommands::Delete { id } => delete_call(id.as_str()),
        DriveCommands::Share { id, role, type_, email, .. } => share_call(id.as_str(), &role, &type_, email),
    }
}

/// The OAuth scope that the `drive` commands ask for.
pub fn scope() -> (s: &'static str)
    ensures
        s@ == "https://www.googleapis.com/auth/drive"@,
{
    "https://www.googleapis.com/auth/drive"
}

/// The error when the file to upload cannot be read.
pub fn read_error(path: &str) -> (e: GwsError)
    ensures
        e.message@ == "Failed to read file: "@ + path@,
{
    GwsError::new(concat("Failed to read file: ", path))
}

/// The error when the downloaded file cannot be written.
pub fn write_error(path: &str) -> (e: GwsError)
    ensures
        e.message@ == "Failed to write file: "@ + path@,
{
    GwsError::new(concat("Failed to write file: ", path))
}

/// What a `drive` command does once its request has been answered.
pub enum DriveStep {
    /// Print this value; the command is done.
    Print(Json),
    /// Make this request, then come back with its answer as `links`.
    Fetch(ApiCall),
}

/// What a `drive` command does once its request has been answered with
/// `answer` (`null` for a download, whose bytes the caller wrote). `links` is
/// the answer of the second request of `share --link`, once made. A share
/// with `--link` fetches the file's links and prints both answers merged;
/// a download or a delete prints its own result; any other command prints
/// the answer.
pub fn next_step(cmd: &DriveCommands, answer: Json, links: Option<Json>) -> (s: DriveStep)
    ensures
        match *cmd {
            DriveCommands::Download { output, .. } => s matches DriveStep::Print(j) && j@ == JsonV::Object(
                seq![("success"@, JsonV::Bool(true)), ("output"@, JsonV::Str(output@))],
            ),
            DriveCommands::Delete { id } => s matches DriveStep::Print(j) && j@ == JsonV::Object(
                seq![("success"@, JsonV::Bool(true)), ("deleted"@, JsonV::Str(id@))],
            ),
            DriveCommands::Share { id, link: true, .. } => match links {
                None => s matches DriveStep::Fetch(ApiCall::Get { url }) && url@ == files_url() + "/"@ + id@
                    + "?fields=webViewLink,webContentLink"@,
                Some(l) => s matches DriveStep::Print(j) && j@ == JsonV::Object(
                    member_list(answer@) + member_list(l@),
                ),
            },
            _ => s == DriveStep::Print(answer),
        },
{
    match cmd {
        DriveCommands::Download { output, .. } => DriveStep::Print(download_output(output.as_str())),
        DriveCommands::Delete { id } => DriveStep::Print(delete_output(id.as_str())),
        DriveCommands::Share { id, link, .. } => {
            if *link {
                match links {
                    None => DriveStep::Fetch(share_link_call(id.as_str())),
                    Some(l) => DriveStep::Print(share_link_output(answer, l)),
                }
            } else {
                DriveStep::Print(answer)
            }
        },
        _ => DriveStep::Print(answer),
    }
}

/// The upload metadata names the file and its MIME type, and a given folder
/// always becomes its only parent (no folder, no parents).
pub proof fn lemma_upload_metadata_members(name: Seq<char>, mime_type: Seq<char>, folder_id: Option<Seq<char>>)
    ensures
        get(upload_metadata_view(name, mime_type, folder_id), "name"@) == Some(JsonV::Str(name)),
        get(upload_metadata_view(name, mime_type, folder_id), "mimeType"@) == Some(JsonV::Str(mime_type)),
        get(upload_metadata_view(name, mime_type, folder_id), "parents"@) == match folder_id {
            Some(f) => Some(JsonV::Array(seq![JsonV::Str(f)])),
            None => None::<JsonV>,
        },
{
    reveal_strlit("name");
    reveal_strlit("mimeType");
    reveal_strlit("parents");
    let e = Seq::<(Seq<char>, JsonV)>::empty();
    let n = ("name"@, JsonV::Str(name));
    let m = ("mimeType"@, JsonV::Str(mime_type));
    let base = e.push(n).push(m);
    assert(base =~= seq![n, m]);
    let keys = seq!["name"@, "mimeType"@, "parents"@];
    assert(keys[0] != keys[1] && keys[0] != keys[2] && keys[1] != keys[2]) by {
        assert(keys[0].len() != keys[1].len() && keys[0].len() != keys[2].len());
        assert(keys[1][0] != keys[2][0]);
    }
    assert forall|key: Seq<char>| lookup(base, key) == (if key == "mimeType"@ {
        Some(m.1)
    } else if key == "name"@ {
        Some(n.1)
    } else {
        None::<JsonV>
    }) by {
        lemma_lookup_push(e.push(n), m.0, m.1, key);
        lemma_lookup_push(e, n.0, n.1, key);
    }
    if let Some(f) = folder_id {
        assert forall|key: Seq<char>| #[trigger] lookup(base.push(("parents"@, JsonV::Array(seq![JsonV::Str(f)]))), key)
            == (if key == "parents"@ { Some(JsonV::Array(seq![JsonV::Str(f)])) } else { lookup(base, key) }) by {
            lemma_lookup_push(base, "parents"@, JsonV::Array(seq![JsonV::Str(f)]), key);
        }
    }
}

/// A permission grants the role to the grantee type, and a given email
/// address always names the grantee (no address, no `emailAddress`).
pub proof fn lemma_permission_members(role: ShareRole, type_: ShareType, email: Option<Seq<char>>)
    ensures
        get(permission_view(role, type_, email), "role"@) == Some(JsonV::Str(role_name(role))),
        get(permission_view(role, type_, email), "type"@) == Some(JsonV::Str(grantee_name(type_))),
        get(permission_view(role, type_, email), "emailAddress"@) == match email {
            Some(e) => Some(JsonV::Str(e)),
            None => None::<JsonV>,
        },
{
    reveal_strlit("role");
    reveal_strlit("type");
    reveal_strlit("emailAddress");
    let e0 = Seq::<(Seq<char>, JsonV)>::empty();
    let r = ("role"@, JsonV::Str(role_name(role)));
    let t = ("type"@, JsonV::Str(grantee_name(type_)));
    let base = e0.push(r).push(t);
    assert(base =~= seq![r, t]);
    let keys = seq!["role"@, "type"@, "emailAddress"@];
    assert(keys[0] != keys[1] && keys[0] != keys[2] && keys[1] != keys[2]) by {
        assert(keys[0][0] != keys[1][0] && keys[0][0] != keys[2][0] && keys[1][0] != keys[2][0]);
    }
    assert forall|key: Seq<char>| lookup(base, key) == (if key == "type"@ {
        Some(t.1)
    } else if key == "role"@ {
        Some(r.1)
    } else {
        None::<JsonV>
    }) by {
        lemma_lookup_push(e0.push(r), t.0, t.1, key);
        lemma_lookup_push(e0, r.0, r.1, key);
    }
    if let Some(a) = email {
        assert forall|key: Seq<char>| #[trigger] lookup(base.push(("emailAddress"@, JsonV::Str(a))), key) == (if key
            == "emailAddress"@ { Some(JsonV::Str(a)) } else { lookup(base, key) }) by {
            lemma_lookup_push(base, "emailAddress"@, JsonV::Str(a), key);
        }
    }
}

/// Every list URL asks for all fields first, and a given page size always
/// comes next, whatever the query and parent.
pub proof fn lemma_list_page_size(query: Option<Seq<char>>, page_size: Option<i32>, parent_id: Option<Seq<char>>)
    ensures
        list_params(query, page_size, parent_id)[0] == "fields=*"@,
        page_size matches Some(p) ==> list_params(query, page_size, parent_id)[1] == "pageSize="@ + int_text(p as int),
{
}

} // verus!
