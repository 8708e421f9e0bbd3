//! Sheets: the requests of the `sheets` commands.
use vstd::prelude::*;
use crate::client::{ApiCall, GwsError};
use crate::codec::{url_encode, url_encoded};
use crate::json::{get, lemma_lookup_push, Json, JsonV, fields_view, items_view, json_str, lemma_array_view, member_list, object, object1, push_member};
use crate::text::{concat, concat3, join_with, lemma_with_query_push, opt_text, lemma_join_split, split_by, split_char, views, with_query, with_query_text};

verus! {

/// The `sheets` commands.
pub enum SheetsCommands {
    /// Get values from a range.
    Get { id: String, range: String, major_dimension: Option<String>, value_render_option: Option<String> },
    /// Update values in a range (values read as JSON).
    Update { id: String, range: String, major_dimension: Option<String>, value_input_option: Option<String> },
    /// Append values to a range (values read as JSON).
    Append { id: String, range: String, major_dimension: Option<String>, value_input_option: Option<String> },
    /// Create a new spreadsheet.
    Create { title: String, sheets: Option<String> },
}

/// The spreadsheets collection.
pub open spec fn spreadsheets_url() -> Seq<char> {
    "https://sheets.googleapis.com/v4/spreadsheets"@
}

/// The values of a range of a spreadsheet (the range percent-encoded).
pub open spec fn values_url(id: Seq<char>, range: Seq<char>) -> Seq<char> {
    spreadsheets_url() + "/"@ + id + "/values/"@ + url_encoded(range)
}

/// The query parameters of `sheets get` (not encoded).
pub open spec fn get_params(major: Option<Seq<char>>, render: Option<Seq<char>>) -> Seq<Seq<char>> {
    (match major {
        Some(m) => seq!["majorDimension="@ + m],
        None => Seq::empty(),
    }) + (match render {
        Some(v) => seq!["valueRenderOption="@ + v],
        None => Seq::empty(),
    })
}

/// A given value render option always reaches the `sheets get` URL: it is
/// the last query parameter, `valueRenderOption=` and the option, appended to
/// the URL made without it (after `?` with no major dimension, `&` with one);
/// a given major dimension is always the first parameter.
pub proof fn lemma_get_params(id: Seq<char>, range: Seq<char>, major: Option<Seq<char>>, render: Option<Seq<char>>)
    ensures
        render matches Some(v) ==> with_query_text(values_url(id, range), get_params(major, render)) == with_query_text(
            values_url(id, range),
            get_params(major, None),
        ) + (if major is None {
            "?"@
        } else {
            "&"@
        }) + "valueRenderOption="@ + v,
        major matches Some(m) ==> get_params(major, render)[0] == "majorDimension="@ + m,
{
    let without = get_params(major, None);
    if let Some(v) = render {
        assert(get_params(major, render) =~= without.push("valueRenderOption="@ + v));
        lemma_with_query_push(values_url(id, range), without, "valueRenderOption="@ + v);
    }
}

/// How written values are read: the option given, else `USER_ENTERED`.
pub open spec fn input_option(v: Option<Seq<char>>) -> Seq<char> {
    match v {
        Some(o) => o,
        None => "USER_ENTERED"@,
    }
}

/// The body of an update or append: the values, and the major dimension when given.
pub open spec fn values_body(values: JsonV, major: Option<Seq<char>>) -> JsonV {
    let base = seq![("values"@, values)];
    match major {
        Some(m) => JsonV::Object(base.push(("majorDimension"@, JsonV::Str(m)))),
        None => JsonV::Object(base),
    }
}

/// The entry of one sheet in a new spreadsheet.
pub open spec fn sheet_entry(name: Seq<char>) -> JsonV {
    JsonV::Object(seq![("properties"@, JsonV::Object(seq![("title"@, JsonV::Str(name))]))])
}

/// The entries of the sheets, in order.
pub open spec fn sheet_entries(names: Seq<Seq<char>>) -> Seq<JsonV>
    decreases names.len(),
{
    if names.len() == 0 {
        Seq::empty()
    } else {
        sheet_entries(names.drop_last()).push(sheet_entry(names.last()))
    }
}

/// The body of `sheets create`: the title, and one sheet per comma-separated name when given.
pub open spec fn create_body(title: Seq<char>, sheets: Option<Seq<char>>) -> JsonV {
    let base = seq![("properties"@, JsonV::Object(seq![("title"@, JsonV::Str(title))]))];
    match sheets {
        Some(s) => JsonV::Object(base.push(("sheets"@, JsonV::Array(sheet_entries(split_by(s, ',')))))),
        None => JsonV::Object(base),
    }
}

/// The URL of the values of a range.
fn range_url(id: &str, range: &str) -> (u: String)
    ensures
        u@ == values_url(id@, range@),
{
    let u = concat3("https://sheets.googleapis.com/v4/spreadsheets", "/", id);
    concat3(u.as_str(), "/values/", url_encode(range).as_str())
}

/// The request of `sheets get`.
pub fn get_call(id: &str, range: &str, major: Option<String>, render: Option<String>) -> (c: ApiCall)
    ensures
        c matches ApiCall::Get { url } && url@ == with_query_text(
            values_url(id@, range@),
            get_params(opt_text(major), opt_text(render)),
        ),
{
    let base = range_url(id, range);
    let mut params: Vec<String> = Vec::new();
    if let Some(m) = major {
        params.push(concat("majorDimension=", m.as_str()));
    }
    let ghost mid = views(params@);
    if let Some(v) = render {
        params.push(concat("valueRenderOption=", v.as_str()));
        proof {
            assert(views(params@) =~= mid.push(params@.last()@));
        }
    }
    proof {
        assert(views(params@) =~= get_params(opt_text(major), opt_text(render)));
    }
    ApiCall::Get { url: with_query(base.as_str(), &params) }
}

/// The body of an update or append.
pub fn values_body_of(values: Json, major: Option<String>) -> (j: Json)
    ensures
        j@ == values_body(values@, opt_text(major)),
{
    let mut f: Vec<(String, Json)> = Vec::new();
    push_member(&mut f, "values", values);
    if let Some(m) = major {
        push_member(&mut f, "majorDimension", Json::Str(m));
    }
    proof {
        assert(fields_view(f@) =~= member_list(values_body(values@, opt_text(major))));
    }
    object(f)
}

/// The value-input option given, else `USER_ENTERED`.
fn input_option_of(v: Option<String>) -> (s: String)
    ensures
        s@ == input_option(opt_text(v)),
{
    match v {
        Some(o) => o,
        None => "USER_ENTERED".to_string(),
    }
}

/// The request of `sheets update`.
pub fn update_call(id: &str, range: &str, major: Option<String>, input: Option<String>, values: Json) -> (c: ApiCall)
    ensures
        c matches ApiCall::Put { url, payload } && url@ == values_url(id@, range@) + "?valueInputOption="@
            + input_option(opt_text(input)) && payload@ == values_body(values@, opt_text(major)),
{
    let body = values_body_of(values, major);
    let base = range_url(id, range);
    let url = concat3(base.as_str(), "?valueInputOption=", input_option_of(input).as_str());
    ApiCall::Put { url, payload: body }
}

/// The request of `sheets append`: the rows are inserted after the range's table.
pub fn append_call(id: &str, range: &str, major: Option<String>, input: Option<String>, values: Json) -> (c: ApiCall)
    ensures
        c matches ApiCall::Post { url, body: Some(b) } && url@ == values_url(id@, range@) + ":append?valueInputOption="@
            + input_option(opt_text(input)) + "&insertDataOption=INSERT_ROWS"@ && b@ == values_body(
            values@,
            opt_text(major),
        ),
{
    let body = values_body_of(values, major);
    let base = range_url(id, range);
    let url = concat3(base.as_str(), ":append?valueInputOption=", input_option_of(input).as_str());
    ApiCall::Post { url: concat(url.as_str(), "&insertDataOption=INSERT_ROWS"), body: Some(body) }
}

/// The sheet entries for the names.
fn sheet_entries_of(names: &Vec<String>) -> (j: Json)
    ensures
        j@ == JsonV::Array(sheet_entries(views(names@))),
{
    let mut items: Vec<Json> = Vec::new();
    let mut i: usize = 0;
    while i < names.len()
        invariant
            0 <= i <= names@.len(),
            items_view(items@) == sheet_entries(views(names@).take(i as int)),
        decreases names@.len() - i,
    {
        let title = object1("title", json_str(names[i].as_str()));
        let entry = object1("properties", title);
        let ghost before = items_view(items@);
        items.push(entry);
        proof {
            let t = views(names@).take(i + 1);
            assert(t.drop_last() =~= views(names@).take(i as int));
            assert(items_view(items@) =~= before.push(sheet_entry(t.last())));
        }
        i += 1;
    }
    proof {
        assert(views(names@).take(names@.len() as int) =~= views(names@));
        lemma_array_view(items);
    }
    Json::Array(items)
}

/// The request of `sheets create`.
pub fn create_call(title: &str, sheets: Option<String>) -> (c: ApiCall)
    ensures
        c matches ApiCall::Post { url, body: Some(b) } && url@ == spreadsheets_url() && b@ == create_body(
            title@,
            opt_text(sheets),
        ),
{
    let props = object1("title", json_str(title));
    let mut f: Vec<(String, Json)> = Vec::new();
    push_member(&mut f, "properties", props);
    if let Some(s) = sheets {
        let names = split_char(s.as_str(), ',');
        push_member(&mut f, "sheets", sheet_entries_of(&names));
    }
    proof {
        assert(fields_view(f@) =~= member_list(create_body(title@, opt_text(sheets))));
    }
    ApiCall::Post { url: "https://sheets.googleapis.com/v4/spreadsheets".to_string(), body: Some(object(f)) }
}

/// The sheet names of `sheets create --sheets` are exactly the comma-separated
/// pieces of the text given: joined back with commas they give the text.
pub proof fn lemma_sheet_names_roundtrip(sheets: Seq<char>)
    ensures
        join_with(split_by(sheets, ','), ","@) == sheets,
{
    reveal_strlit(",");
    lemma_join_split(sheets, ',');
    assert(","@ =~= seq![',']);
}

/// The request that a `sheets` command makes. `values` is the JSON read for
/// an update or append; those make none without it.
pub fn request(cmd: SheetsCommands, values: Option<Json>) -> (c: Option<ApiCall>)
    ensures
        match cmd {
            SheetsCommands::Get { id, range, major_dimension, value_render_option } => c matches Some(
                ApiCall::Get { url },
            ) && url@ == with_query_text(
                values_url(id@, range@),
                get_params(opt_text(major_dimension), opt_text(value_render_option)),
            ),
            SheetsCommands::Update { id, range, major_dimension, value_input_option } => match values {
                Some(v) => c matches Some(ApiCall::Put { url, payload }) && url@ == values_url(id@, range@)
                    + "?valueInputOption="@ + input_option(opt_text(value_input_option)) && payload@ == values_body(
                    v@,
                    opt_text(major_dimension),
                ),
                None => c is None,
            },
            SheetsCommands::Append { id, range, major_dimension, value_input_option } => match values {
                Some(v) => c matches Some(ApiCall::Post { url, body: Some(b) }) && url@ == values_url(id@, range@)
                    + ":append?valueInputOption="@ + input_option(opt_text(value_input_option))
                    + "&insertDataOption=INSERT_ROWS"@ && b@ == values_body(v@, opt_text(major_dimension)),
                None => c is None,
            },
            SheetsCommands::Create { title, sheets } => c matches Some(ApiCall::Post { url, body: Some(b) }) && url@
                == spreadsheets_url() && b@ == create_body(title@, opt_text(sheets)),
        },
{
    match cmd {
        SheetsCommands::Get { id, range, major_dimension, value_render_option } => Some(
            get_call(id.as_str(), range.as_str(), major_dimension, value_render_option),
        ),
        SheetsCommands::Update { id, range, major_dimension, value_input_option } => match values {
            Some(v) => Some(update_call(id.as_str(), range.as_str(), major_dimension, value_input_option, v)),
            None => None,
        },
        SheetsCommands::Append { id, range, major_dimension, value_input_option } => match values {
            Some(v) => Some(append_call(id.as_str(), range.as_str(), major_dimension, value_input_option, v)),
            None => None,
        },
        SheetsCommands::Create { title, sheets } => Some(create_call(title.as_str(), sheets)),
    }
}

/// The OAuth scope that the `sheets` commands ask for.
pub fn scope() -> (s: &'static str)
    ensures
        s@ == "https://www.googleapis.com/auth/spreadsheets"@,
{
    "https://www.googleapis.com/auth/spreadsheets"
}

/// The error when the values cannot be had: standard input could not be
/// read (`read` is false), or it is not JSON.
pub fn input_error(read: bool) -> (e: GwsError)
    ensures
        !read ==> e.message@ == "Failed to read values from stdin"@,
        read ==> e.message@ == "Invalid JSON in values"@,
{
    if read {
        GwsError::new("Invalid JSON in values".to_string())
    } else {
        GwsError::new("Failed to read values from stdin".to_string())
    }
}

/// The body of an update or append carries the values given, and a given
/// major dimension always (no dimension, no `majorDimension`).
pub proof fn lemma_values_body_members(values: JsonV, major: Option<Seq<char>>)
    ensures
        get(values_body(values, major), "values"@) == Some(values),
        get(values_body(values, major), "majorDimension"@) == match major {
            Some(m) => Some(JsonV::Str(m)),
            None => None::<JsonV>,
        },
{
    reveal_strlit("values");
    reveal_strlit("majorDimension");
    let e = Seq::<(Seq<char>, JsonV)>::empty();
    let v = ("values"@, values);
    assert(seq![v] =~= e.push(v));
    assert("values"@[0] != "majorDimension"@[0]);
    lemma_lookup_push(e, v.0, v.1, "values"@);
    lemma_lookup_push(e, v.0, v.1, "majorDimension"@);
    if let Some(m) = major {
        lemma_lookup_push(seq![v], "majorDimension"@, JsonV::Str(m), "values"@);
        lemma_lookup_push(seq![v], "majorDimension"@, JsonV::Str(m), "majorDimension"@);
    }
}

/// The value-input option given is always the one sent; `USER_ENTERED` only
/// when none is given.
pub proof fn lemma_input_option(v: Option<Seq<char>>)
    ensures
        v matches Some(o) ==> input_option(v) == o,
        v is None ==> input_option(v) == "USER_ENTERED"@,
{
}

} // verus!
