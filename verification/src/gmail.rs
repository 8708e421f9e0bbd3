//! Gmail: the requests of the `gmail` commands, and the MIME message that
//! `gmail send` composes (plain text, or multipart/mixed with base64
//! attachments cut into 76-character lines).
use vstd::prelude::*;
use vstd::utf8::encode_utf8;
use crate::client::{ApiCall, GwsError};
use crate::codec::{b64_decode, b64_encode, is_b64url_char, lemma_b64url_roundtrip, base64_standard, base64_url_no_pad, is_b64_char, lemma_b64_chars, url_encode, url_encoded};
use crate::json::{Json, JsonV, object1};
use crate::paths::{file_name_of, file_name_or, guess_mime_type, guessed_mime_type};
use crate::text::{
    opt_str, opt_text,
    chunk_text, chunks, concat, concat3, flatten, hex_digits, lemma_chunks, lemma_chunks_chars, i32_to_decimal, int_text, join, join_with, to_hex_lower,
    views, with_query, with_query_text, has_substring, occurs_at, lemma_with_query_push,
};

verus! {

/// The `gmail` commands.
pub enum GmailCommands {
    /// List messages in the mailbox.
    List { max_results: Option<i32>, label_ids: Option<Vec<String>>, query: Option<String> },
    /// Get a message by ID.
    Get { id: String, raw: bool },
    /// Send a message (plain text or with attachments).
    Send {
        to: String,
        subject: String,
        body: String,
        cc: Option<String>,
        bcc: Option<String>,
        attachment: Option<Vec<String>>,
    },
    /// Move a message to the trash.
    Trash { id: String },
    /// List labels.
    Labels,
}

/// A file to attach: its path and its content.
pub struct Attachment {
    pub path: String,
    pub data: Vec<u8>,
}

/// The messages collection of the user's mailbox.
pub open spec fn messages_url() -> Seq<char> {
    "https://gmail.googleapis.com/gmail/v1/users/me/messages"@
}

/// The `labelIds=` parameters for the labels, in order.
pub open spec fn label_params(labels: Seq<Seq<char>>) -> Seq<Seq<char>>
    decreases labels.len(),
{
    if labels.len() == 0 {
        Seq::empty()
    } else {
        label_params(labels.drop_last()).push("labelIds="@ + labels.last())
    }
}

/// The query parameters of `gmail list`: the page size, each label (not
/// encoded), and the search query (percent-encoded).
pub open spec fn list_params(max_results: Option<i32>, labels: Option<Seq<Seq<char>>>, query: Option<Seq<char>>) -> Seq<Seq<char>> {
    (match max_results {
        Some(m) => seq!["maxResults="@ + int_text(m as int)],
        None => Seq::empty(),
    }) + (match labels {
        Some(ls) => label_params(ls),
        None => Seq::empty(),
    }) + (match query {
        Some(q) => seq!["q="@ + url_encoded(q)],
        None => Seq::empty(),
    })
}

/// The views of optional strings.
pub open spec fn opt_views(v: Option<Vec<String>>) -> Option<Seq<Seq<char>>> {
    match v {
        Some(l) => Some(views(l@)),
        None => None,
    }
}

/// The URL of `gmail list`.
pub fn list_url(max_results: Option<i32>, label_ids: &Option<Vec<String>>, query: &Option<String>) -> (u: String)
    ensures
        u@ == with_query_text(messages_url(), list_params(max_results, opt_views(*label_ids), opt_text(*query))),
{
    let mut params: Vec<String> = Vec::new();
    let ghost mut expected: Seq<Seq<char>> = Seq::empty();
    if let Some(m) = max_results {
        let p = concat("maxResults=", i32_to_decimal(m).as_str());
        params.push(p);
        proof {
            expected = seq!["maxResults="@ + int_text(m as int)];
            assert(views(params@) =~= expected);
        }
    } else {
        proof {
            assert(views(params@) =~= expected);
        }
    }
    let ghost after_max = expected;
    if let Some(labels) = label_ids {
        let mut i: usize = 0;
        while i < labels.len()
            invariant
                0 <= i <= labels@.len(),
                views(params@) == after_max + label_params(views(labels@).take(i as int)),
            decreases labels@.len() - i,
        {
            let p = concat("labelIds=", labels[i].as_str());
            let ghost before = views(params@);
            params.push(p);
            proof {
                let lt = views(labels@).take(i + 1);
                assert(lt.drop_last() =~= views(labels@).take(i as int));
                assert(views(params@) =~= before.push(p@));
                assert(label_params(lt) == label_params(lt.drop_last()).push("labelIds="@ + lt.last()));
                assert(views(params@) =~= after_max + label_params(lt));
            }
            i += 1;
        }
        proof {
            assert(views(labels@).take(labels@.len() as int) =~= views(labels@));
            expected = after_max + label_params(views(labels@));
        }
    } else {
        proof {
            assert(after_max + Seq::<Seq<char>>::empty() =~= after_max);
        }
    }
    let ghost after_labels = views(params@);
    if let Some(q) = query {
        let p = concat("q=", url_encode(q.as_str()).as_str());
        params.push(p);
        proof {
            assert(views(params@) =~= after_labels.push(p@));
        }
    }
    proof {
        let full = list_params(max_results, opt_views(*label_ids), opt_text(*query));
        assert(views(params@) =~= full);
    }
    proof {
        reveal_strlit("https://gmail.googleapis.com/gmail/v1/users/me/messages");
    }
    with_query("https://gmail.googleapis.com/gmail/v1/users/me/messages", &params)
}

/// The URL of one message, `?format=raw` for its raw RFC 2822 form.
pub fn message_url(id: &str, raw: bool) -> (u: String)
    ensures
        u@ == messages_url() + "/"@ + id@ + (if raw { "?format=raw"@ } else { Seq::<char>::empty() }),
{
    let u = concat3("https://gmail.googleapis.com/gmail/v1/users/me/messages", "/", id);
    if raw {
        concat(u.as_str(), "?format=raw")
    } else {
        proof {
            assert(u@ + Seq::<char>::empty() =~= u@);
        }
        u
    }
}

/// The URL that moves a message to the trash.
pub fn trash_url(id: &str) -> (u: String)
    ensures
        u@ == messages_url() + "/"@ + id@ + "/trash"@,
{
    let u = concat3("https://gmail.googleapis.com/gmail/v1/users/me/messages", "/", id);
    concat(u.as_str(), "/trash")
}

/// The URL of the labels of the mailbox.
pub fn labels_url() -> (u: String)
    ensures
        u@ == "https://gmail.googleapis.com/gmail/v1/users/me/labels"@,
{
    "https://gmail.googleapis.com/gmail/v1/users/me/labels".to_string()
}

// ---------------------------------------------------------------------------
// Composing messages
// ---------------------------------------------------------------------------

/// A plain-text message: `To`, `Subject`, MIME headers and the body, with
/// `Cc` and then `Bcc` put in front when given.
pub open spec fn plain_email(to: Seq<char>, subject: Seq<char>, body: Seq<char>, cc: Option<Seq<char>>, bcc: Option<Seq<char>>) -> Seq<char> {
    let base = "To: "@ + to + "\r\nSubject: "@ + subject
        + "\r\nMIME-Version: 1.0\r\nContent-Type: text/plain; charset=\"UTF-8\"\r\n\r\n"@ + body;
    let with_cc = match cc {
        Some(c) => "Cc: "@ + c + "\r\n"@ + base,
        None => base,
    };
    match bcc {
        Some(b) => "Bcc: "@ + b + "\r\n"@ + with_cc,
        None => with_cc,
    }
}

/// A given Cc address is always written as a `Cc:` header line, whether or
/// not a Bcc address is given: without Bcc the message is that line followed
/// by the message composed without Cc; with Bcc `b` it is the `Bcc:` line,
/// then the `Cc:` line, then that message. Likewise a given Bcc address is
/// always written first, as a `Bcc:` line.
pub proof fn lemma_plain_email_copies(
    to: Seq<char>,
    subject: Seq<char>,
    body: Seq<char>,
    cc: Option<Seq<char>>,
    bcc: Option<Seq<char>>,
)
    ensures
        cc matches Some(c) ==> has_substring(plain_email(to, subject, body, cc, bcc), "Cc: "@ + c + "\r\n"@),
        bcc matches Some(b) ==> has_substring(plain_email(to, subject, body, cc, bcc), "Bcc: "@ + b + "\r\n"@),
        cc matches Some(c) ==> plain_email(to, subject, body, cc, None) == "Cc: "@ + c + "\r\n"@ + plain_email(
            to,
            subject,
            body,
            None,
            None,
        ),
        bcc matches Some(b) ==> plain_email(to, subject, body, cc, bcc) == "Bcc: "@ + b + "\r\n"@ + plain_email(
            to,
            subject,
            body,
            cc,
            None,
        ),
{
    let plain = plain_email(to, subject, body, None, None);
    if let Some(c) = cc {
        let line = "Cc: "@ + c + "\r\n"@;
        let with_cc = plain_email(to, subject, body, cc, None);
        assert(with_cc == line + plain);
        match bcc {
            None => {
                assert(with_cc.subrange(0, line.len() as int) =~= line);
                assert(occurs_at(with_cc, line, 0));
            },
            Some(b) => {
                let head = "Bcc: "@ + b + "\r\n"@;
                let full = plain_email(to, subject, body, cc, bcc);
                assert(full == head + with_cc);
                assert(full.subrange(head.len() as int, (head.len() + line.len()) as int) =~= line);
                assert(occurs_at(full, line, head.len() as int));
            },
        }
    }
    if let Some(b) = bcc {
        let head = "Bcc: "@ + b + "\r\n"@;
        let full = plain_email(to, subject, body, cc, bcc);
        assert(full.subrange(0, head.len() as int) =~= head);
        assert(occurs_at(full, head, 0));
    }
}

/// A given search query always reaches the list URL: it is the last query
/// parameter, `q=` and the percent-encoded query, appended to the URL made
/// without it, whatever the page size and labels.
pub proof fn lemma_list_url_query(max_results: Option<i32>, labels: Option<Seq<Seq<char>>>, q: Seq<char>)
    ensures
        list_params(max_results, labels, Some(q)) == list_params(max_results, labels, None).push("q="@ + url_encoded(q)),
        with_query_text(messages_url(), list_params(max_results, labels, Some(q))) == with_query_text(
            messages_url(),
            list_params(max_results, labels, None),
        ) + (if list_params(max_results, labels, None).len() == 0 {
            "?"@
        } else {
            "&"@
        }) + "q="@ + url_encoded(q),
{
    let without = list_params(max_results, labels, None);
    assert(list_params(max_results, labels, Some(q)) =~= without.push("q="@ + url_encoded(q)));
    lemma_with_query_push(messages_url(), without, "q="@ + url_encoded(q));
}

/// Each label gives one `labelIds=` parameter, in order.
pub proof fn lemma_label_params(labels: Seq<Seq<char>>)
    ensures
        label_params(labels).len() == labels.len(),
        forall|i: int| 0 <= i < labels.len() ==> #[trigger] label_params(labels)[i] == "labelIds="@ + labels[i],
    decreases labels.len(),
{
    if labels.len() > 0 {
        lemma_label_params(labels.drop_last());
        assert forall|i: int| 0 <= i < labels.len() implies #[trigger] label_params(labels)[i] == "labelIds="@ + labels[i] by {
            if i < labels.len() - 1 {
                assert(label_params(labels)[i] == label_params(labels.drop_last())[i]);
            }
        }
    }
}

/// Every given label reaches the list URL as a `labelIds=` parameter,
/// whatever the page size and query.
pub proof fn lemma_list_url_labels(max_results: Option<i32>, labels: Seq<Seq<char>>, query: Option<Seq<char>>)
    ensures
        forall|i: int|
            0 <= i < labels.len() ==> list_params(max_results, Some(labels), query).contains(
                "labelIds="@ + #[trigger] labels[i],
            ),
{
    lemma_label_params(labels);
    let head = match max_results {
        Some(m) => seq!["maxResults="@ + int_text(m as int)],
        None => Seq::<Seq<char>>::empty(),
    };
    let ps = list_params(max_results, Some(labels), query);
    assert forall|i: int| 0 <= i < labels.len() implies ps.contains("labelIds="@ + #[trigger] labels[i]) by {
        assert(ps[head.len() + i] == label_params(labels)[i]);
    }
}

/// A given page size is always the first query parameter of the list URL.
pub proof fn lemma_list_url_max_results(m: i32, labels: Option<Seq<Seq<char>>>, query: Option<Seq<char>>)
    ensures
        list_params(Some(m), labels, query) == seq!["maxResults="@ + int_text(m as int)] + list_params(None, labels, query),
{
    assert(list_params(Some(m), labels, query) =~= seq!["maxResults="@ + int_text(m as int)] + list_params(None, labels, query));
}

/// The headers of a multipart message.
pub open spec fn mixed_headers(to: Seq<char>, subject: Seq<char>, boundary: Seq<char>, cc: Option<Seq<char>>, bcc: Option<Seq<char>>) -> Seq<Seq<char>> {
    seq![
        "To: "@ + to,
        "Subject: "@ + subject,
        "MIME-Version: 1.0"@,
        "Content-Type: multipart/mixed; boundary=\""@ + boundary + "\""@,
    ] + (match cc {
        Some(c) => seq!["Cc: "@ + c],
        None => Seq::empty(),
    }) + (match bcc {
        Some(b) => seq!["Bcc: "@ + b],
        None => Seq::empty(),
    })
}

/// The text part of a multipart message.
pub open spec fn text_part(boundary: Seq<char>, body: Seq<char>) -> Seq<char> {
    "--"@ + boundary + "\r\nContent-Type: text/plain; charset=\"UTF-8\"\r\n\r\n"@ + body
}

/// Base64 (standard, padded) of the data, in lines of 76 characters joined by CRLF.
pub open spec fn base64_lines(data: Seq<u8>) -> Seq<char> {
    join_with(chunks(b64_encode(data, false, true), 76), "\r\n"@)
}

/// The predicate `is_b64_char`.
pub open spec fn b64_char_pred() -> spec_fn(char) -> bool {
    |c: char| is_b64_char(c)
}

/// An attachment's base64 is cut into lines for MIME: each line holds one to
/// 76 base64 characters (never a line break), and the lines put back
/// together are the base64 text of the data.
pub proof fn lemma_attachment_lines(data: Seq<u8>)
    ensures
        base64_lines(data) == join_with(chunks(b64_encode(data, false, true), 76), "\r\n"@),
        flatten(chunks(b64_encode(data, false, true), 76)) == b64_encode(data, false, true),
        forall|i: int|
            0 <= i < chunks(b64_encode(data, false, true), 76).len() ==> 0 < (#[trigger] chunks(
                b64_encode(data, false, true),
                76,
            )[i]).len() <= 76,
        forall|i: int, j: int|
            0 <= i < chunks(b64_encode(data, false, true), 76).len() && 0 <= j < chunks(
                b64_encode(data, false, true),
                76,
            )[i].len() ==> is_b64_char(#[trigger] chunks(b64_encode(data, false, true), 76)[i][j]),
{
    let b = b64_encode(data, false, true);
    lemma_chunks(b, 76);
    lemma_b64_chars(data, false, true);
    assert forall|k: int| 0 <= k < b.len() implies b64_char_pred()(#[trigger] b[k]) by {}
    lemma_chunks_chars(b, 76, b64_char_pred());
    let c = chunks(b, 76);
    assert forall|i: int, j: int| 0 <= i < c.len() && 0 <= j < c[i].len() implies is_b64_char(#[trigger] c[i][j]) by {
        assert(b64_char_pred()(c[i][j]));
    }
}

/// The part of a multipart message that carries one attachment.
pub open spec fn attachment_part(boundary: Seq<char>, file_name: Seq<char>, mime_type: Seq<char>, data: Seq<u8>) -> Seq<char> {
    "--"@ + boundary + "\r\nContent-Type: "@ + mime_type + "\r\nContent-Disposition: attachment; filename=\""@
        + file_name + "\"\r\nContent-Transfer-Encoding: base64\r\n\r\n"@ + base64_lines(data)
}

/// The file name an attachment is sent under: that of its path, else `attachment`.
pub open spec fn attachment_name(path: Seq<char>) -> Seq<char> {
    match file_name_of(path) {
        Some(n) => n,
        None => "attachment"@,
    }
}

/// The parts of a multipart message that carry the attachments, in order.
pub open spec fn attachment_parts(boundary: Seq<char>, atts: Seq<Attachment>) -> Seq<Seq<char>>
    decreases atts.len(),
{
    if atts.len() == 0 {
        Seq::empty()
    } else {
        let a = atts.last();
        attachment_parts(boundary, atts.drop_last()).push(
            attachment_part(boundary, attachment_name(a.path@), guessed_mime_type(a.path@), a.data@),
        )
    }
}

/// The headers of a multipart message always name the recipient, the
/// subject and the boundary, and hold a `Cc:` header for a given Cc address
/// and a `Bcc:` header for a given Bcc address, each independently.
pub proof fn lemma_mixed_headers(to: Seq<char>, subject: Seq<char>, boundary: Seq<char>, cc: Option<Seq<char>>, bcc: Option<Seq<char>>)
    ensures
        mixed_headers(to, subject, boundary, cc, bcc).contains("To: "@ + to),
        mixed_headers(to, subject, boundary, cc, bcc).contains("Subject: "@ + subject),
        cc matches Some(c) ==> mixed_headers(to, subject, boundary, cc, bcc).contains("Cc: "@ + c),
        bcc matches Some(b) ==> mixed_headers(to, subject, boundary, cc, bcc).contains("Bcc: "@ + b),
{
    let h = mixed_headers(to, subject, boundary, cc, bcc);
    assert(h[0] == "To: "@ + to);
    assert(h[1] == "Subject: "@ + subject);
    if let Some(c) = cc {
        assert(h[4] == "Cc: "@ + c);
    }
    if let Some(b) = bcc {
        let k = if cc is Some { 5int } else { 4int };
        assert(h[k] == "Bcc: "@ + b);
    }
}

/// A multipart message has one part per attachment, in order: the part of
/// attachment `i` carries its file name, guessed MIME type and data.
pub proof fn lemma_attachment_parts(boundary: Seq<char>, atts: Seq<Attachment>)
    ensures
        attachment_parts(boundary, atts).len() == atts.len(),
        forall|i: int|
            0 <= i < atts.len() ==> #[trigger] attachment_parts(boundary, atts)[i] == attachment_part(
                boundary,
                attachment_name(atts[i].path@),
                guessed_mime_type(atts[i].path@),
                atts[i].data@,
            ),
    decreases atts.len(),
{
    if atts.len() > 0 {
        lemma_attachment_parts(boundary, atts.drop_last());
        assert forall|i: int| 0 <= i < atts.len() implies #[trigger] attachment_parts(boundary, atts)[i] == attachment_part(
            boundary,
            attachment_name(atts[i].path@),
            guessed_mime_type(atts[i].path@),
            atts[i].data@,
        ) by {
            if i < atts.len() - 1 {
                assert(attachment_parts(boundary, atts)[i] == attachment_parts(boundary, atts.drop_last())[i]);
                assert(atts.drop_last()[i] == atts[i]);
            }
        }
    }
}

/// A multipart/mixed message: the headers, a blank line, the text part,
/// one part per attachment and the closing boundary, joined by CRLF.
pub open spec fn mixed_email(
    to: Seq<char>,
    subject: Seq<char>,
    body: Seq<char>,
    cc: Option<Seq<char>>,
    bcc: Option<Seq<char>>,
    boundary: Seq<char>,
    atts: Seq<Attachment>,
) -> Seq<char> {
    join_with(mixed_headers(to, subject, boundary, cc, bcc), "\r\n"@) + "\r\n\r\n"@ + join_with(
        seq![text_part(boundary, body)] + attachment_parts(boundary, atts) + seq!["--"@ + boundary + "--"@],
        "\r\n"@,
    )
}

/// Composes a plain-text message.
pub fn compose_plain_email(to: &str, subject: &str, body: &str, cc: Option<&str>, bcc: Option<&str>) -> (e: String)
    ensures
        e@ == plain_email(to@, subject@, body@, opt_str(cc), opt_str(bcc)),
{
    let mut email = concat3("To: ", to, "\r\nSubject: ");
    email = concat3(email.as_str(), subject, "\r\nMIME-Version: 1.0\r\nContent-Type: text/plain; charset=\"UTF-8\"\r\n\r\n");
    email = concat(email.as_str(), body);
    if let Some(c) = cc {
        let head = concat3("Cc: ", c, "\r\n");
        email = concat(head.as_str(), email.as_str());
    }
    if let Some(b) = bcc {
        let head = concat3("Bcc: ", b, "\r\n");
        email = concat(head.as_str(), email.as_str());
    }
    email
}

/// The base64 lines of attachment data.
pub fn base64_lines_of(data: &[u8]) -> (s: String)
    requires
        data@.len() <= usize::MAX / 2,
    ensures
        s@ == base64_lines(data@),
{
    let encoded = base64_standard(data);
    let lines = chunk_text(encoded.as_str(), 76);
    join(&lines, "\r\n")
}

/// The part that carries one attachment.
pub fn compose_attachment_part(boundary: &str, att: &Attachment) -> (p: String)
    requires
        att.data@.len() <= usize::MAX / 2,
    ensures
        p@ == attachment_part(boundary@, attachment_name(att.path@), guessed_mime_type(att.path@), att.data@),
{
    let name = file_name_or(att.path.as_str(), "attachment");
    let mime = guess_mime_type(att.path.as_str());
    let lines = base64_lines_of(att.data.as_slice());
    let mut p = concat3("--", boundary, "\r\nContent-Type: ");
    p = concat3(p.as_str(), mime.as_str(), "\r\nContent-Disposition: attachment; filename=\"");
    p = concat3(p.as_str(), name.as_str(), "\"\r\nContent-Transfer-Encoding: base64\r\n\r\n");
    concat(p.as_str(), lines.as_str())
}

/// Whether every attachment is small enough to be encoded.
pub open spec fn attachments_encodable(atts: Seq<Attachment>) -> bool {
    forall|i: int| 0 <= i < atts.len() ==> (#[trigger] atts[i]).data@.len() <= usize::MAX / 2
}

/// Composes a multipart/mixed message with the given boundary.
pub fn compose_mixed_email(
    to: &str,
    subject: &str,
    body: &str,
    cc: Option<&str>,
    bcc: Option<&str>,
    boundary: &str,
    atts: &Vec<Attachment>,
) -> (e: String)
    requires
        attachments_encodable(atts@),
    ensures
        e@ == mixed_email(to@, subject@, body@, opt_str(cc), opt_str(bcc), boundary@, atts@),
{
    let mut headers: Vec<String> = Vec::new();
    headers.push(concat("To: ", to));
    headers.push(concat("Subject: ", subject));
    headers.push("MIME-Version: 1.0".to_string());
    headers.push(concat3("Content-Type: multipart/mixed; boundary=\"", boundary, "\""));
    if let Some(c) = cc {
        headers.push(concat("Cc: ", c));
    }
    if let Some(b) = bcc {
        headers.push(concat("Bcc: ", b));
    }
    proof {
        assert(views(headers@) =~= mixed_headers(to@, subject@, boundary@, opt_str(cc), opt_str(bcc)));
    }
    let mut parts: Vec<String> = Vec::new();
    let first = concat3("--", boundary, "\r\nContent-Type: text/plain; charset=\"UTF-8\"\r\n\r\n");
    parts.push(concat(first.as_str(), body));
    let ghost head = views(parts@);
    proof {
        assert(head =~= seq![text_part(boundary@, body@)]);
        assert(atts@.take(0) =~= Seq::<Attachment>::empty());
        assert(head + attachment_parts(boundary@, atts@.take(0)) =~= head);
    }
    let mut i: usize = 0;
    while i < atts.len()
        invariant
            0 <= i <= atts@.len(),
            attachments_encodable(atts@),
            views(parts@) == head + attachment_parts(boundary@, atts@.take(i as int)),
        decreases atts@.len() - i,
    {
        let p = compose_attachment_part(boundary, &atts[i]);
        let ghost before = views(parts@);
        parts.push(p);
        proof {
            let t = atts@.take(i + 1);
            assert(t.drop_last() =~= atts@.take(i as int));
            assert(t.last() == atts@[i as int]);
            assert(views(parts@) =~= before.push(p@));
            assert(views(parts@) =~= head + attachment_parts(boundary@, t));
        }
        i += 1;
    }
    parts.push(concat3("--", boundary, "--"));
    proof {
        assert(atts@.take(atts@.len() as int) =~= atts@);
        assert(views(parts@) =~= seq![text_part(boundary@, body@)] + attachment_parts(boundary@, atts@) + seq![
            "--"@ + boundary@ + "--"@,
        ]);
    }
    let h = join(&headers, "\r\n");
    let b = join(&parts, "\r\n");
    concat3(h.as_str(), "\r\n\r\n", b.as_str())
}

/// Nanoseconds since the Unix epoch (0 when the clock is before it), read
/// with std's `SystemTime::now`; nothing is stated of the value.
#[verifier::external_body]
fn unix_time_nanos() -> u128 {
    std::time::SystemTime::now().duration_since(std::time::UNIX_EPOCH).unwrap_or_default().as_nanos()
}

/// An identifier derived from the time: nanoseconds since the Unix epoch in
/// lower-case hexadecimal.
pub fn uuid() -> (s: String)
    ensures
        exists|t: nat| s@ == #[trigger] hex_digits(t),
{
    let t = unix_time_nanos();
    let s = to_hex_lower(t);
    proof {
        assert(s@ == hex_digits(t as nat));
    }
    s
}

/// The attachments of a message, if there are any.
pub open spec fn has_attachments(atts: Option<Vec<Attachment>>) -> bool {
    match atts {
        Some(a) => a@.len() > 0,
        None => false,
    }
}

/// The attachments given, none when absent.
pub open spec fn attachment_list(atts: Option<Vec<Attachment>>) -> Seq<Attachment> {
    match atts {
        Some(a) => a@,
        None => Seq::empty(),
    }
}

/// Composes the message that `gmail send` sends: plain text without
/// attachments; with them, multipart/mixed under a boundary `gws_mixed_`
/// followed by a time-derived identifier.
pub fn build_email(
    to: &str,
    subject: &str,
    body: &str,
    cc: Option<&str>,
    bcc: Option<&str>,
    attachments: Option<Vec<Attachment>>,
) -> (e: String)
    requires
        attachments matches Some(a) ==> attachments_encodable(a@),
    ensures
        !has_attachments(attachments) ==> e@ == plain_email(to@, subject@, body@, opt_str(cc), opt_str(bcc)),
        has_attachments(attachments) ==> exists|t: nat|
            e@ == mixed_email(
                to@,
                subject@,
                body@,
                opt_str(cc),
                opt_str(bcc),
                "gws_mixed_"@ + #[trigger] hex_digits(t),
                attachment_list(attachments),
            ),
{
    match attachments {
        Some(a) => {
            if a.len() == 0 {
                compose_plain_email(to, subject, body, cc, bcc)
            } else {
                let id = uuid();
                let boundary = concat("gws_mixed_", id.as_str());
                let e = compose_mixed_email(to, subject, body, cc, bcc, boundary.as_str(), &a);
                proof {
                    let t = choose|t: nat| id@ == #[trigger] hex_digits(t);
                    assert(boundary@ == "gws_mixed_"@ + hex_digits(t));
                }
                e
            }
        },
        None => compose_plain_email(to, subject, body, cc, bcc),
    }
}

/// The `raw` text that `gmail send` posts (`send_call`) holds only ASCII
/// letters, digits, `-` and `_`, no `=` padding, and decodes back to the
/// message's UTF-8 bytes.
pub proof fn lemma_send_raw_decodes(email: Seq<char>)
    ensures
        forall|i: int|
            0 <= i < b64_encode(encode_utf8(email), true, false).len() ==> is_b64url_char(
                #[trigger] b64_encode(encode_utf8(email), true, false)[i],
            ),
        !b64_encode(encode_utf8(email), true, false).contains('='),
        b64_decode(b64_encode(encode_utf8(email), true, false)) == encode_utf8(email),
{
    lemma_b64url_roundtrip(encode_utf8(email));
}

/// The request that sends a message: its UTF-8 bytes, base64url-encoded
/// without padding, as `raw`.
pub fn send_call(email: &str) -> (c: ApiCall)
    requires
        encode_utf8(email@).len() <= usize::MAX / 2,
    ensures
        c matches ApiCall::Post { url, body: Some(b) } && url@ == messages_url() + "/send"@ && b@ == JsonV::Object(
            seq![("raw"@, JsonV::Str(b64_encode(encode_utf8(email@), true, false)))],
        ),
{
    let encoded = base64_url_no_pad(email.as_bytes());
    let body = object1("raw", Json::Str(encoded));
    let url = concat("https://gmail.googleapis.com/gmail/v1/users/me/messages", "/send");
    ApiCall::Post { url, body: Some(body) }
}

} // verus!

verus! {

/// The request that a `gmail` command makes; `send` has its own
/// (`build_email`, then `send_call`).
pub fn request(cmd: &GmailCommands) -> (c: Option<ApiCall>)
    ensures
        match *cmd {
            GmailCommands::List { max_results, label_ids, query } => c matches Some(ApiCall::Get { url }) && url@
                == with_query_text(messages_url(), list_params(max_results, opt_views(label_ids), opt_text(query))),
            GmailCommands::Get { id, raw } => c matches Some(ApiCall::Get { url }) && url@ == messages_url() + "/"@
                + id@ + (if raw {
                "?format=raw"@
            } else {
                Seq::<char>::empty()
            }),
            GmailCommands::Send { .. } => c is None,
            GmailCommands::Trash { id } => c matches Some(ApiCall::Post { url, body: None }) && url@ == messages_url()
                + "/"@ + id@ + "/trash"@,
            GmailCommands::Labels => c matches Some(ApiCall::Get { url }) && url@
                == "https://gmail.googleapis.com/gmail/v1/users/me/labels"@,
        },
{
    match cmd {
        GmailCommands::List { max_results, label_ids, query } => Some(
            ApiCall::Get { url: list_url(*max_results, label_ids, query) },
        ),
        GmailCommands::Get { id, raw } => Some(ApiCall::Get { url: message_url(id.as_str(), *raw) }),
        GmailCommands::Send { .. } => None,
        GmailCommands::Trash { id } => Some(ApiCall::Post { url: trash_url(id.as_str()), body: None }),
        GmailCommands::Labels => Some(ApiCall::Get { url: labels_url() }),
    }
}

/// The OAuth scope that the `gmail` commands ask for.
pub fn scope() -> (s: &'static str)
    ensures
        s@ == "https://www.googleapis.com/auth/gmail.modify"@,
{
    "https://www.googleapis.com/auth/gmail.modify"
}

/// The error when a file to attach cannot be read.
pub fn attachment_error(path: &str) -> (e: GwsError)
    ensures
        e.message@ == "Failed to read attachment: "@ + path@,
{
    GwsError::new(concat("Failed to read attachment: ", path))
}

} // verus!
