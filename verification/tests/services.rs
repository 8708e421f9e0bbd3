use gws_cli::client::ApiCall;
use gws_cli::docs::{self, DocsCommands};
use gws_cli::drive::{self, DriveCommands, DriveStep, ShareRole, ShareType};
use gws_cli::gmail::{self, Attachment, GmailCommands};
use gws_cli::json::{get_member, merge_objects, set_member, Json};
use gws_cli::paths::{extension, file_name, file_name_or, guess_mime_type, name_extension};
use gws_cli::sheets::{self, SheetsCommands};

fn show(j: &Json) -> String {
    match j {
        Json::Null => "null".to_string(),
        Json::Bool(b) => b.to_string(),
        Json::Number(n) => n.clone(),
        Json::Str(s) => format!("{:?}", s),
        Json::Array(v) => format!("[{}]", v.iter().map(show).collect::<Vec<_>>().join(",")),
        Json::Object(f) => format!(
            "{{{}}}",
            f.iter().map(|(k, v)| format!("{:?}:{}", k, show(v))).collect::<Vec<_>>().join(",")
        ),
    }
}

fn obj(members: Vec<(&str, Json)>) -> Json {
    Json::Object(members.into_iter().map(|(k, v)| (k.to_string(), v)).collect())
}

fn text(s: &str) -> Json {
    Json::Str(s.to_string())
}

fn strings(v: &[&str]) -> Vec<String> {
    v.iter().map(|s| s.to_string()).collect()
}

fn get_url(c: &ApiCall) -> String {
    match c {
        ApiCall::Get { url } => url.clone(),
        _ => panic!("not a GET"),
    }
}

fn post_of(c: &ApiCall) -> (String, Option<String>) {
    match c {
        ApiCall::Post { url, body } => (url.clone(), body.as_ref().map(show)),
        _ => panic!("not a POST"),
    }
}

// ---------------------------------------------------------------------------
// paths
// ---------------------------------------------------------------------------

#[test]
fn file_names_of_paths() {
    assert_eq!(file_name("dir/report.pdf").as_deref(), Some("report.pdf"));
    assert_eq!(file_name("dir/sub/").as_deref(), Some("sub"));
    assert_eq!(file_name("a/.").as_deref(), Some("a"));
    assert_eq!(file_name("report.pdf").as_deref(), Some("report.pdf"));
    assert_eq!(file_name("/"), None);
    assert_eq!(file_name(""), None);
    assert_eq!(file_name("."), None);
    assert_eq!(file_name("a/.."), None);
    assert_eq!(file_name_or("/", "unnamed"), "unnamed");
    assert_eq!(file_name_or("x/y.txt", "unnamed"), "y.txt");
}

#[test]
fn extensions_of_paths() {
    assert_eq!(extension("a.tar.gz").as_deref(), Some("gz"));
    assert_eq!(extension("dir.d/file").as_deref(), None);
    assert_eq!(extension(".bashrc"), None);
    assert_eq!(extension("a.").as_deref(), Some(""));
    assert_eq!(name_extension("x.y").as_deref(), Some("y"));
}

#[test]
fn mime_types_from_extension() {
    assert_eq!(guess_mime_type("a.pdf"), "application/pdf");
    assert_eq!(guess_mime_type("docs/A.PDF"), "application/pdf");
    assert_eq!(guess_mime_type("photo.png"), "image/png");
    assert_eq!(guess_mime_type("notes.txt"), "text/plain");
    assert_eq!(guess_mime_type("noext"), "application/octet-stream");
    assert_eq!(guess_mime_type("x.unknownextension"), "application/octet-stream");
    assert_eq!(guess_mime_type("a."), "application/octet-stream");
}

// ---------------------------------------------------------------------------
// gmail
// ---------------------------------------------------------------------------

#[test]
fn gmail_list_urls() {
    assert_eq!(gmail::list_url(None, &None, &None), "https://gmail.googleapis.com/gmail/v1/users/me/messages");
    assert_eq!(
        gmail::list_url(Some(10), &Some(strings(&["INBOX", "UNREAD"])), &Some("from:a b".to_string())),
        "https://gmail.googleapis.com/gmail/v1/users/me/messages?maxResults=10&labelIds=INBOX&labelIds=UNREAD&q=from%3Aa%20b"
    );
    assert_eq!(
        gmail::list_url(Some(-1), &Some(vec![]), &None),
        "https://gmail.googleapis.com/gmail/v1/users/me/messages?maxResults=-1"
    );
}

#[test]
fn gmail_message_urls() {
    assert_eq!(gmail::message_url("m1", false), "https://gmail.googleapis.com/gmail/v1/users/me/messages/m1");
    assert_eq!(gmail::message_url("m1", true), "https://gmail.googleapis.com/gmail/v1/users/me/messages/m1?format=raw");
    assert_eq!(gmail::trash_url("m1"), "https://gmail.googleapis.com/gmail/v1/users/me/messages/m1/trash");
    assert_eq!(gmail::labels_url(), "https://gmail.googleapis.com/gmail/v1/users/me/labels");
}

#[test]
fn gmail_requests() {
    let c = gmail::request(&GmailCommands::Trash { id: "m9".to_string() }).unwrap();
    assert_eq!(post_of(&c), ("https://gmail.googleapis.com/gmail/v1/users/me/messages/m9/trash".to_string(), None));
    let c = gmail::request(&GmailCommands::Labels).unwrap();
    assert_eq!(get_url(&c), "https://gmail.googleapis.com/gmail/v1/users/me/labels");
    let c = gmail::request(&GmailCommands::Get { id: "m1".to_string(), raw: true }).unwrap();
    assert_eq!(get_url(&c), "https://gmail.googleapis.com/gmail/v1/users/me/messages/m1?format=raw");
    let send = GmailCommands::Send {
        to: "a@x".to_string(),
        subject: "s".to_string(),
        body: "b".to_string(),
        cc: None,
        bcc: None,
        attachment: None,
    };
    assert!(gmail::request(&send).is_none());
}

#[test]
fn plain_email_headers() {
    let e = gmail::compose_plain_email("a@x", "Hi", "Body", Some("c@x"), Some("b@x"));
    assert_eq!(
        e,
        "Bcc: b@x\r\nCc: c@x\r\nTo: a@x\r\nSubject: Hi\r\nMIME-Version: 1.0\r\nContent-Type: text/plain; charset=\"UTF-8\"\r\n\r\nBody"
    );
    let e = gmail::build_email("a@x", "Hi", "Body", None, None, None);
    assert_eq!(e, "To: a@x\r\nSubject: Hi\r\nMIME-Version: 1.0\r\nContent-Type: text/plain; charset=\"UTF-8\"\r\n\r\nBody");
    let e2 = gmail::build_email("a@x", "Hi", "Body", None, None, Some(vec![]));
    assert_eq!(e, e2);
}

#[test]
fn base64_attachment_lines() {
    assert_eq!(gmail::base64_lines_of(&[0u8; 60]), format!("{}\r\n{}", "A".repeat(76), "A".repeat(4)));
    assert_eq!(gmail::base64_lines_of(&[0u8; 57]), "A".repeat(76));
    assert_eq!(gmail::base64_lines_of(b"hello"), "aGVsbG8=");
    assert_eq!(gmail::base64_lines_of(&[]), "");
}

#[test]
fn mixed_email_layout() {
    let atts = vec![Attachment { path: "dir/note.txt".to_string(), data: b"hello".to_vec() }];
    let e = gmail::compose_mixed_email("a@x", "S", "B", Some("c@x"), None, "BND", &atts);
    let expected = concat_lines(&[
        "To: a@x\r\nSubject: S\r\nMIME-Version: 1.0\r\nContent-Type: multipart/mixed; boundary=\"BND\"\r\nCc: c@x",
        "\r\n\r\n",
        "--BND\r\nContent-Type: text/plain; charset=\"UTF-8\"\r\n\r\nB",
        "\r\n",
        "--BND\r\nContent-Type: text/plain\r\nContent-Disposition: attachment; filename=\"note.txt\"\r\nContent-Transfer-Encoding: base64\r\n\r\naGVsbG8=",
        "\r\n",
        "--BND--",
    ]);
    assert_eq!(e, expected);
}

fn concat_lines(parts: &[&str]) -> String {
    parts.concat()
}

#[test]
fn email_with_attachments_uses_time_boundary() {
    let atts = vec![
        Attachment { path: "a.bin".to_string(), data: vec![1, 2, 3] },
        Attachment { path: "/".to_string(), data: vec![] },
    ];
    let e = gmail::build_email("a@x", "S", "B", None, Some("b@x"), Some(atts));
    let marker = "Content-Type: multipart/mixed; boundary=\"gws_mixed_";
    let start = e.find(marker).unwrap() + marker.len();
    let end = start + e[start..].find('"').unwrap();
    let id = &e[start..end];
    assert!(!id.is_empty() && id.chars().all(|c| c.is_ascii_hexdigit()));
    let boundary = format!("gws_mixed_{}", id);
    assert!(e.starts_with("To: a@x\r\nSubject: S\r\nMIME-Version: 1.0\r\n"));
    assert!(e.contains("\r\nBcc: b@x\r\n\r\n"));
    assert!(e.contains("filename=\"a.bin\"\r\nContent-Transfer-Encoding: base64\r\n\r\nAQID"));
    assert!(e.contains("Content-Type: application/octet-stream\r\nContent-Disposition: attachment; filename=\"attachment\""));
    assert!(e.ends_with(&format!("\r\n--{}--", boundary)));
}

#[test]
fn send_request_base64url() {
    let c = gmail::send_call("hi");
    assert_eq!(
        post_of(&c),
        ("https://gmail.googleapis.com/gmail/v1/users/me/messages/send".to_string(), Some("{\"raw\":\"aGk\"}".to_string()))
    );
    let c = gmail::send_call("\u{ff}\u{fe}?>");
    assert_eq!(post_of(&c).1.unwrap(), "{\"raw\":\"w7_Dvj8-\"}");
}

// ---------------------------------------------------------------------------
// drive
// ---------------------------------------------------------------------------

#[test]
fn drive_list_urls() {
    assert_eq!(drive::list_url(&None, None, &None), "https://www.googleapis.com/drive/v3/files?fields=*");
    assert_eq!(
        drive::list_url(&Some("name contains 'x'".to_string()), Some(5), &Some("p1".to_string())),
        "https://www.googleapis.com/drive/v3/files?fields=*&pageSize=5&q=name%20contains%20%27x%27%20and%20%27p1%27%20in%20parents"
    );
    assert_eq!(
        drive::list_url(&None, None, &Some("p1".to_string())),
        "https://www.googleapis.com/drive/v3/files?fields=*&q=%27p1%27%20in%20parents"
    );
}

#[test]
fn drive_upload_request() {
    let c = drive::request(
        DriveCommands::Upload { path: "dir/photo.png".to_string(), folder_id: Some("f1".to_string()), name: None },
        vec![1, 2],
    );
    match c {
        ApiCall::PostMultipart { url, metadata, content } => {
            assert_eq!(url, "https://www.googleapis.com/upload/drive/v3/files?uploadType=multipart&fields=*");
            assert_eq!(show(&metadata), "{\"name\":\"photo.png\",\"mimeType\":\"image/png\",\"parents\":[\"f1\"]}");
            assert_eq!(content, vec![1, 2]);
        }
        _ => panic!("not an upload"),
    }
    let c = drive::upload_call("/", None, None, vec![]);
    match c {
        ApiCall::PostMultipart { metadata, .. } => {
            assert_eq!(show(&metadata), "{\"name\":\"unnamed\",\"mimeType\":\"application/octet-stream\"}")
        }
        _ => panic!("not an upload"),
    }
    let c = drive::upload_call("x.pdf", None, Some("Given".to_string()), vec![]);
    match c {
        ApiCall::PostMultipart { metadata, .. } => {
            assert_eq!(show(&metadata), "{\"name\":\"Given\",\"mimeType\":\"application/pdf\"}")
        }
        _ => panic!("not an upload"),
    }
}

#[test]
fn drive_download_delete_mkdir() {
    match drive::request(DriveCommands::Download { id: "F".to_string(), output: "out.bin".to_string() }, vec![]) {
        ApiCall::GetRaw { url } => assert_eq!(url, "https://www.googleapis.com/drive/v3/files/F?alt=media"),
        _ => panic!("not a download"),
    }
    assert_eq!(show(&drive::download_output("out.bin")), "{\"success\":true,\"output\":\"out.bin\"}");
    match drive::request(DriveCommands::Delete { id: "F".to_string() }, vec![]) {
        ApiCall::Delete { url } => assert_eq!(url, "https://www.googleapis.com/drive/v3/files/F"),
        _ => panic!("not a delete"),
    }
    assert_eq!(show(&drive::delete_output("F")), "{\"success\":true,\"deleted\":\"F\"}");
    let c = drive::request(DriveCommands::Mkdir { name: "New".to_string(), parent_id: Some("P".to_string()) }, vec![]);
    assert_eq!(
        post_of(&c),
        (
            "https://www.googleapis.com/drive/v3/files?fields=*".to_string(),
            Some("{\"name\":\"New\",\"mimeType\":\"application/vnd.google-apps.folder\",\"parents\":[\"P\"]}".to_string())
        )
    );
}

#[test]
fn drive_share_requests() {
    let c = drive::request(
        DriveCommands::Share {
            id: "F".to_string(),
            role: ShareRole::Commenter,
            type_: ShareType::User,
            email: Some("u@x".to_string()),
            link: true,
        },
        vec![],
    );
    assert_eq!(
        post_of(&c),
        (
            "https://www.googleapis.com/drive/v3/files/F/permissions".to_string(),
            Some("{\"role\":\"commenter\",\"type\":\"user\",\"emailAddress\":\"u@x\"}".to_string())
        )
    );
    let c = drive::share_call("F", &ShareRole::Reader, &ShareType::Anyone, None);
    assert_eq!(post_of(&c).1.unwrap(), "{\"role\":\"reader\",\"type\":\"anyone\"}");
    assert_eq!(drive::role_str(&ShareRole::Owner), "owner");
    assert_eq!(drive::role_str(&ShareRole::Writer), "writer");
    assert_eq!(drive::type_str(&ShareType::Group), "group");
    assert_eq!(drive::type_str(&ShareType::Domain), "domain");
    assert_eq!(
        get_url(&drive::share_link_call("F")),
        "https://www.googleapis.com/drive/v3/files/F?fields=webViewLink,webContentLink"
    );
}

#[test]
fn share_link_output_merges_later_wins() {
    let permission = obj(vec![("id", text("perm1")), ("kind", text("drive#permission"))]);
    let links = obj(vec![("kind", text("drive#file")), ("webViewLink", text("https://v"))]);
    let merged = drive::share_link_output(permission, links);
    assert_eq!(get_member(&merged, "kind").map(show), Some("\"drive#file\"".to_string()));
    assert_eq!(get_member(&merged, "id").map(show), Some("\"perm1\"".to_string()));
    assert_eq!(get_member(&merged, "webViewLink").map(show), Some("\"https://v\"".to_string()));
    let only_links = drive::share_link_output(Json::Null, obj(vec![("a", Json::Bool(true))]));
    assert_eq!(show(&only_links), "{\"a\":true}");
}

// ---------------------------------------------------------------------------
// docs
// ---------------------------------------------------------------------------

#[test]
fn docs_requests() {
    let c = docs::request(DocsCommands::Get { id: "D".to_string(), suggestions_view_mode: None }, None).unwrap();
    assert_eq!(get_url(&c), "https://docs.googleapis.com/v1/documents/D");
    let c = docs::get_call("D", Some("SUGGESTIONS_INLINE".to_string()));
    assert_eq!(get_url(&c), "https://docs.googleapis.com/v1/documents/D?suggestionsViewMode=SUGGESTIONS_INLINE");
    let c = docs::request(DocsCommands::Create { title: "T".to_string() }, None).unwrap();
    assert_eq!(post_of(&c), ("https://docs.googleapis.com/v1/documents".to_string(), Some("{\"title\":\"T\"}".to_string())));
    let reqs = obj(vec![("requests", Json::Array(vec![]))]);
    let c = docs::request(DocsCommands::Update { id: "D".to_string() }, Some(reqs)).unwrap();
    assert_eq!(
        post_of(&c),
        ("https://docs.googleapis.com/v1/documents/D:batchUpdate".to_string(), Some("{\"requests\":[]}".to_string()))
    );
    assert!(docs::request(DocsCommands::Update { id: "D".to_string() }, None).is_none());
}

// ---------------------------------------------------------------------------
// sheets
// ---------------------------------------------------------------------------

fn rows() -> Json {
    Json::Array(vec![Json::Array(vec![Json::Number("1".to_string()), text("a")])])
}

#[test]
fn sheets_get_request() {
    let c = sheets::get_call("s1", "Sheet1!A1:B2", Some("ROWS".to_string()), Some("FORMULA".to_string()));
    assert_eq!(
        get_url(&c),
        "https://sheets.googleapis.com/v4/spreadsheets/s1/values/Sheet1%21A1%3AB2?majorDimension=ROWS&valueRenderOption=FORMULA"
    );
    let c = sheets::get_call("s1", "A1", None, None);
    assert_eq!(get_url(&c), "https://sheets.googleapis.com/v4/spreadsheets/s1/values/A1");
}

#[test]
fn sheets_update_and_append_requests() {
    match sheets::update_call("s1", "A1:B1", None, None, rows()) {
        ApiCall::Put { url, payload } => {
            assert_eq!(url, "https://sheets.googleapis.com/v4/spreadsheets/s1/values/A1%3AB1?valueInputOption=USER_ENTERED");
            assert_eq!(show(&payload), "{\"values\":[[1,\"a\"]]}");
        }
        _ => panic!("not a PUT"),
    }
    let c = sheets::append_call("s1", "A1", Some("COLUMNS".to_string()), Some("RAW".to_string()), rows());
    assert_eq!(
        post_of(&c),
        (
            "https://sheets.googleapis.com/v4/spreadsheets/s1/values/A1:append?valueInputOption=RAW&insertDataOption=INSERT_ROWS".to_string(),
            Some("{\"values\":[[1,\"a\"]],\"majorDimension\":\"COLUMNS\"}".to_string())
        )
    );
    let upd = SheetsCommands::Update {
        id: "s1".to_string(),
        range: "A1".to_string(),
        major_dimension: None,
        value_input_option: None,
    };
    assert!(sheets::request(upd, None).is_none());
}

#[test]
fn sheets_create_request() {
    let c = sheets::request(SheetsCommands::Create { title: "T".to_string(), sheets: Some("a,,b".to_string()) }, None).unwrap();
    assert_eq!(
        post_of(&c),
        (
            "https://sheets.googleapis.com/v4/spreadsheets".to_string(),
            Some("{\"properties\":{\"title\":\"T\"},\"sheets\":[{\"properties\":{\"title\":\"a\"}},{\"properties\":{\"title\":\"\"}},{\"properties\":{\"title\":\"b\"}}]}".to_string())
        )
    );
    let c = sheets::create_call("T", None);
    assert_eq!(post_of(&c).1.unwrap(), "{\"properties\":{\"title\":\"T\"}}");
}

// ---------------------------------------------------------------------------
// json
// ---------------------------------------------------------------------------

#[test]
fn json_members() {
    let j = set_member(obj(vec![("a", Json::Null)]), "b", Json::Bool(false));
    assert_eq!(show(&j), "{\"a\":null,\"b\":false}");
    assert_eq!(show(&set_member(text("s"), "b", Json::Null)), "\"s\"");
    let j = obj(vec![("k", text("1")), ("k", text("2"))]);
    assert_eq!(get_member(&j, "k").map(show), Some("\"2\"".to_string()));
    assert!(get_member(&j, "missing").is_none());
    assert!(get_member(&text("x"), "k").is_none());
    let m = merge_objects(obj(vec![("x", Json::Null)]), text("not an object"));
    assert_eq!(show(&m), "{\"x\":null}");
}

#[test]
fn drive_steps_after_answer() {
    let dl = DriveCommands::Download { id: "F".to_string(), output: "o.bin".to_string() };
    assert!(matches!(drive::next_step(&dl, Json::Null, None), DriveStep::Print(j) if show(&j) == "{\"success\":true,\"output\":\"o.bin\"}"));
    let del = DriveCommands::Delete { id: "F".to_string() };
    assert!(matches!(drive::next_step(&del, Json::Null, None), DriveStep::Print(j) if show(&j) == "{\"success\":true,\"deleted\":\"F\"}"));
    let list = DriveCommands::List { query: None, page_size: None, parent_id: None };
    assert!(matches!(drive::next_step(&list, obj(vec![("files", Json::Array(vec![]))]), None), DriveStep::Print(j) if show(&j) == "{\"files\":[]}"));
    let share = |link: bool| DriveCommands::Share {
        id: "F".to_string(),
        role: ShareRole::Reader,
        type_: ShareType::Anyone,
        email: None,
        link,
    };
    let perm = || obj(vec![("id", text("anyoneWithLink")), ("role", text("reader"))]);
    assert!(matches!(drive::next_step(&share(false), perm(), None), DriveStep::Print(j) if show(&j) == "{\"id\":\"anyoneWithLink\",\"role\":\"reader\"}"));
    match drive::next_step(&share(true), perm(), None) {
        DriveStep::Fetch(c) => assert_eq!(get_url(&c), "https://www.googleapis.com/drive/v3/files/F?fields=webViewLink,webContentLink"),
        _ => panic!("expected a fetch"),
    }
    let links = obj(vec![("webViewLink", text("https://v"))]);
    match drive::next_step(&share(true), perm(), Some(links)) {
        DriveStep::Print(j) => assert_eq!(show(&j), "{\"id\":\"anyoneWithLink\",\"role\":\"reader\",\"webViewLink\":\"https://v\"}"),
        _ => panic!("expected the merged answer"),
    }
}

#[test]
fn service_scopes_and_input_errors() {
    assert_eq!(drive::scope(), "https://www.googleapis.com/auth/drive");
    assert_eq!(gmail::scope(), "https://www.googleapis.com/auth/gmail.modify");
    assert_eq!(docs::scope(), "https://www.googleapis.com/auth/documents");
    assert_eq!(sheets::scope(), "https://www.googleapis.com/auth/spreadsheets");
    assert_eq!(drive::read_error("a.txt").message, "Failed to read file: a.txt");
    assert_eq!(drive::write_error("o.bin").message, "Failed to write file: o.bin");
    assert_eq!(gmail::attachment_error("r.pdf").message, "Failed to read attachment: r.pdf");
    assert_eq!(docs::input_error(false).message, "Failed to read batchUpdate requests from stdin");
    assert_eq!(docs::input_error(true).message, "Invalid JSON in batchUpdate requests");
    assert_eq!(sheets::input_error(false).message, "Failed to read values from stdin");
    assert_eq!(sheets::input_error(true).message, "Invalid JSON in values");
}

#[test]
fn attachment_lines_rejoin_to_base64() {
    let data: Vec<u8> = (0..=255u8).cycle().take(1000).collect();
    let lines = gmail::base64_lines_of(&data);
    let pieces: Vec<&str> = lines.split("\r\n").collect();
    assert!(pieces.iter().all(|p| !p.is_empty() && p.len() <= 76));
    assert!(pieces[..pieces.len() - 1].iter().all(|p| p.len() == 76));
    let b64 = gws_cli::text::join(&pieces.iter().map(|p| p.to_string()).collect(), "");
    assert_eq!(b64, base64::Engine::encode(&base64::engine::general_purpose::STANDARD, &data));
}

#[test]
fn send_raw_decodes_to_message() {
    for email in ["hi", "To: a@x\r\n\r\n\u{ff}\u{fe}?>", ""] {
        let raw = match gmail::send_call(email) {
            ApiCall::Post { body: Some(Json::Object(f)), .. } => match &f[0].1 {
                Json::Str(s) => s.clone(),
                _ => panic!("raw is not text"),
            },
            _ => panic!("not a POST with a body"),
        };
        assert!(raw.chars().all(|c| c.is_ascii_alphanumeric() || c == '-' || c == '_'));
        let decoded = base64::Engine::decode(&base64::engine::general_purpose::URL_SAFE_NO_PAD, &raw).unwrap();
        assert_eq!(decoded, email.as_bytes());
    }
}
