//! Authentication: the stored configuration, OAuth client secrets, token
//! freshness and refresh, the token endpoints' form parameters, the
//! installed-app redirect flow (authorization URL and reading the code back
//! from the redirect), the device flow's decisions, service accounts and
//! Application Default Credentials.
use vstd::prelude::*;
use vstd::utf8::encode_utf8;
use jsonwebtoken::{Algorithm, EncodingKey, Header};
use serde_json::Map as JsonMap;
use crate::client::GwsError;
use crate::codec::{
    is_url_char, lemma_url_encoded_chars, lemma_url_roundtrip, pct_decode_bytes, url_decode, url_decoded,
    url_encode, url_encoded, utf8_error_message,
};
use crate::json::{Json, JsonV, as_text, get, get_member, json_str, push_member, object, fields_view, text_of};
use crate::text::{
    chars_of, concat, concat3, dec_digits, u64_to_decimal, contains_str, find_char_from, first_index, has_substring, hex_digits, is_char,
    is_ws_pred, join, join_with, lemma_filter_nonempty_all, lemma_first_index, lemma_first_index_concat,
    lemma_split_when_three, lemma_split_when_two, split_by, split_char, split_whitespace, str_eq,
    string_of_range, to_hex_lower, views, words,
};

verus! {

// ---------------------------------------------------------------------------
// Stored configuration
// ---------------------------------------------------------------------------

/// An OAuth token as stored: the access token, the refresh token and the
/// time (in seconds since the Unix epoch) at which the access token expires.
pub struct OAuthToken {
    pub access_token: String,
    pub refresh_token: String,
    pub expires_at: u64,
}

/// How the program authenticates.
pub enum AuthConfig {
    /// An OAuth client, with the path of its client secret file and the user's token.
    OAuth { client_secret_path: String, token: OAuthToken },
    /// A service account, with the path of its key file.
    ServiceAccount { key_file_path: String },
    /// Application Default Credentials.
    Adc,
}

/// The stored configuration.
pub struct Config {
    pub auth: AuthConfig,
}

/// The answer of the device authorization endpoint.
pub struct DeviceFlowStart {
    pub device_code: String,
    pub user_code: String,
    pub verification_url: String,
    pub expires_in: i64,
    pub interval: i64,
}

/// One OAuth client entry of a client secret file.
pub struct InstalledSecret {
    pub client_id: String,
    pub client_secret: String,
    pub redirect_uris: Vec<String>,
}

/// A client secret file: an `installed` or a `web` client entry.
pub struct ClientSecret {
    pub installed: Option<InstalledSecret>,
    pub web: Option<InstalledSecret>,
}

impl ClientSecret {
    /// The client entry: `installed` when present, else `web`.
    pub fn get(&self) -> (r: Result<&InstalledSecret, GwsError>)
        ensures
            match r {
                Ok(s) => match self.installed {
                    Some(i) => s == &i,
                    None => self.web == Some(*s),
                },
                Err(e) => self.installed is None && self.web is None
                    && e.message@ == "client_secret.json must contain 'installed' or 'web' key"@,
            },
    {
        match &self.installed {
            Some(i) => Ok(i),
            None => match &self.web {
                Some(w) => Ok(w),
                None => Err(GwsError::new("client_secret.json must contain 'installed' or 'web' key".to_string())),
            },
        }
    }
}

/// How a configuration names its method in `auth status` and the like.
pub enum AuthMethod {
    Oauth,
    ServiceAccount,
    Adc,
}

// ---------------------------------------------------------------------------
// Configuration paths
// ---------------------------------------------------------------------------

/// A relative path `name` joined under `base` as `PathBuf::join` does on
/// Unix: with a `/` between them unless `base` is empty or ends with one.
pub open spec fn path_join(base: Seq<char>, name: Seq<char>) -> Seq<char> {
    if base.len() == 0 {
        name
    } else if base.last() == '/' {
        base + name
    } else {
        base + seq!['/'] + name
    }
}

/// Joins a relative path under a directory.
pub fn join_path(base: &str, name: &str) -> (r: String)
    ensures
        r@ == path_join(base@, name@),
{
    let cs = chars_of(base);
    if cs.len() == 0 {
        name.to_string()
    } else if cs[cs.len() - 1] == '/' {
        concat(base, name)
    } else {
        proof {
            reveal_strlit("/");
        }
        concat3(base, "/", name)
    }
}

/// The user's configuration directory (`dirs::config_dir`), as text; it
/// depends on the environment, and nothing is stated of it.
#[verifier::external_body]
fn os_config_dir() -> Option<String> {
    dirs::config_dir().map(|p| p.to_string_lossy().into_owned())
}

/// The program's directory under a configuration directory.
pub open spec fn config_dir_under(base: Seq<char>) -> Seq<char> {
    path_join(base, "gws-cli"@)
}

/// The configuration file under a configuration directory.
pub open spec fn config_path_under(base: Seq<char>) -> Seq<char> {
    path_join(config_dir_under(base), "config.json"@)
}

/// The program's configuration directory under the user's configuration
/// directory `base`, or an error when the latter is unknown (`None`).
pub fn config_dir_in(base: Option<String>) -> (r: Result<String, GwsError>)
    ensures
        match base {
            Some(b) => r matches Ok(d) && d@ == config_dir_under(b@),
            None => r matches Err(e) && e.message@ == "Could not determine config directory"@,
        },
{
    match base {
        Some(b) => Ok(join_path(b.as_str(), "gws-cli")),
        None => Err(GwsError::new("Could not determine config directory".to_string())),
    }
}

/// The path of the configuration file under the user's configuration
/// directory `base`, or an error when the latter is unknown (`None`).
pub fn config_path_in(base: Option<String>) -> (r: Result<String, GwsError>)
    ensures
        match base {
            Some(b) => r matches Ok(p) && p@ == config_path_under(b@),
            None => r matches Err(e) && e.message@ == "Could not determine config directory"@,
        },
{
    let d = config_dir_in(base)?;
    Ok(join_path(d.as_str(), "config.json"))
}

/// The program's configuration directory (`gws-cli` under the user's
/// configuration directory), or an error when the latter is unknown.
/// Creating the directory is left to the caller.
pub fn config_dir() -> (r: Result<String, GwsError>)
    ensures
        match r {
            Ok(d) => exists|base: Seq<char>| d@ == #[trigger] config_dir_under(base),
            Err(e) => e.message@ == "Could not determine config directory"@,
        },
{
    config_dir_in(os_config_dir())
}

/// The path of the configuration file, `config.json` in the program's
/// configuration directory.
pub fn config_path() -> (r: Result<String, GwsError>)
    ensures
        match r {
            Ok(p) => exists|base: Seq<char>| p@ == #[trigger] config_path_under(base),
            Err(e) => e.message@ == "Could not determine config directory"@,
        },
{
    config_path_in(os_config_dir())
}

/// The configuration loaded from the configuration file: an error when
/// there is no such file (`found` is false), else the file's content parsed
/// (`parsed`, `None` when it is not a valid configuration).
pub fn loaded_config(path: &str, found: bool, parsed: Option<Config>) -> (r: Result<Config, GwsError>)
    ensures
        !found ==> (r matches Err(e) && e.message@ == "Not authenticated. Run: gws auth init"@),
        found ==> match parsed {
            Some(c) => r == Ok::<Config, GwsError>(c),
            None => r matches Err(e) && e.message@ == "Failed to parse config at "@ + path@,
        },
{
    if !found {
        return Err(GwsError::new("Not authenticated. Run: gws auth init".to_string()));
    }
    match parsed {
        Some(c) => Ok(c),
        None => {
            proof {
                reveal_strlit("Failed to parse config at ");
            }
            Err(GwsError::new(concat("Failed to parse config at ", path)))
        },
    }
}

// ---------------------------------------------------------------------------
// Tokens
// ---------------------------------------------------------------------------

/// Whether a stored token is still valid for at least 60 more seconds.
pub open spec fn token_fresh(token: OAuthToken, now: u64) -> bool {
    token.expires_at > now + 60
}

/// Whether the stored token can be used as it is at time `now`.
pub fn token_is_fresh(token: &OAuthToken, now: u64) -> (r: bool)
    ensures
        r == token_fresh(*token, now),
{
    token.expires_at > now && token.expires_at - now > 60
}

/// The expiry time of a token issued at `now` that lasts `expires_in` seconds.
pub open spec fn expiry(now: u64, expires_in: i64) -> int {
    now + (expires_in as u64)
}

/// A token issued at `now`, lasting `expires_in` seconds.
pub fn issued_token(access_token: String, refresh_token: String, expires_in: i64, now: u64) -> (t: OAuthToken)
    requires
        expiry(now, expires_in) <= u64::MAX,
    ensures
        t.access_token@ == access_token@,
        t.refresh_token@ == refresh_token@,
        t.expires_at == expiry(now, expires_in),
{
    OAuthToken { access_token, refresh_token, expires_at: now + expires_in as u64 }
}

/// The token after a refresh: the new access token and expiry, the refresh
/// token kept.
pub fn refreshed_token(old: &OAuthToken, access_token: String, expires_in: i64, now: u64) -> (t: OAuthToken)
    requires
        expiry(now, expires_in) <= u64::MAX,
    ensures
        t.access_token@ == access_token@,
        t.refresh_token@ == old.refresh_token@,
        t.expires_at == expiry(now, expires_in),
{
    let refresh = old.refresh_token.clone();
    issued_token(access_token, refresh, expires_in, now)
}

/// The configuration with an OAuth token replaced; any other configuration unchanged.
pub fn with_token(config: Config, token: OAuthToken) -> (c: Config)
    ensures
        match config.auth {
            AuthConfig::OAuth { client_secret_path, .. } => c.auth == AuthConfig::OAuth { client_secret_path, token },
            _ => c == config,
        },
{
    match config.auth {
        AuthConfig::OAuth { client_secret_path, token: _ } => Config {
            auth: AuthConfig::OAuth { client_secret_path, token },
        },
        other => Config { auth: other },
    }
}

/// Whether two tokens hold the same texts and expiry.
pub open spec fn same_token(a: OAuthToken, b: OAuthToken) -> bool {
    a.access_token@ == b.access_token@ && a.refresh_token@ == b.refresh_token@ && a.expires_at == b.expires_at
}

fn copy_token(t: &OAuthToken) -> (c: OAuthToken)
    ensures
        same_token(c, *t),
{
    OAuthToken {
        access_token: t.access_token.clone(),
        refresh_token: t.refresh_token.clone(),
        expires_at: t.expires_at,
    }
}

/// What obtaining an access token takes, given the configuration and the time.
pub enum TokenStep {
    /// The stored OAuth token is fresh: use its access token.
    UseStored { access_token: String },
    /// The stored OAuth token (a copy) must be refreshed with the client secret.
    Refresh { client_secret_path: String, token: OAuthToken },
    /// Sign an assertion with the service account key.
    ServiceAccount { key_file_path: String },
    /// Use Application Default Credentials.
    Adc,
}

/// Decides how to obtain an access token.
pub fn token_step(auth: &AuthConfig, now: u64) -> (s: TokenStep)
    ensures
        match *auth {
            AuthConfig::OAuth { client_secret_path, token } => if token_fresh(token, now) {
                s matches TokenStep::UseStored { access_token } && access_token@ == token.access_token@
            } else {
                s matches TokenStep::Refresh { client_secret_path: p, token: t } && p@ == client_secret_path@
                    && same_token(t, token)
            },
            AuthConfig::ServiceAccount { key_file_path } => s matches TokenStep::ServiceAccount { key_file_path: p }
                && p@ == key_file_path@,
            AuthConfig::Adc => s is Adc,
        },
{
    match auth {
        AuthConfig::OAuth { client_secret_path, token } => {
            if token_is_fresh(token, now) {
                TokenStep::UseStored { access_token: token.access_token.clone() }
            } else {
                TokenStep::Refresh { client_secret_path: client_secret_path.clone(), token: copy_token(token) }
            }
        },
        AuthConfig::ServiceAccount { key_file_path } => TokenStep::ServiceAccount {
            key_file_path: key_file_path.clone(),
        },
        AuthConfig::Adc => TokenStep::Adc,
    }
}

// ---------------------------------------------------------------------------
// Token endpoint forms
// ---------------------------------------------------------------------------

/// The views of form parameters.
pub open spec fn form_view(f: Seq<(String, String)>) -> Seq<(Seq<char>, Seq<char>)> {
    f.map_values(|p: (String, String)| (p.0@, p.1@))
}

/// Appends a form parameter.
fn push_param(f: &mut Vec<(String, String)>, k: &str, v: &str)
    ensures
        form_view(final(f)@) == form_view(old(f)@).push((k@, v@)),
{
    f.push((k.to_string(), v.to_string()));
    proof {
        assert(form_view(final(f)@) =~= form_view(old(f)@).push((k@, v@)));
    }
}

/// The token endpoint, to which every token request is posted.
pub fn token_url() -> (s: &'static str)
    ensures
        s@ == token_endpoint(),
{
    "https://oauth2.googleapis.com/token"
}

/// The device authorization endpoint, which starts the device flow.
pub fn device_code_url() -> (s: &'static str)
    ensures
        s@ == "https://oauth2.googleapis.com/device/code"@,
{
    "https://oauth2.googleapis.com/device/code"
}

/// The error when a client secret file is not valid JSON of a client secret
/// (reported so when refreshing a token).
pub fn client_secret_parse_error() -> (e: GwsError)
    ensures
        e.message@ == "Failed to parse client_secret JSON"@,
{
    GwsError::new("Failed to parse client_secret JSON".to_string())
}

/// The form that refreshes an OAuth token.
pub fn refresh_form(secret: &InstalledSecret, refresh_token: &str) -> (f: Vec<(String, String)>)
    ensures
        form_view(f@) == seq![
            ("client_id"@, secret.client_id@),
            ("client_secret"@, secret.client_secret@),
            ("refresh_token"@, refresh_token@),
            ("grant_type"@, "refresh_token"@),
        ],
{
    let mut f: Vec<(String, String)> = Vec::new();
    push_param(&mut f, "client_id", secret.client_id.as_str());
    push_param(&mut f, "client_secret", secret.client_secret.as_str());
    push_param(&mut f, "refresh_token", refresh_token);
    push_param(&mut f, "grant_type", "refresh_token");
    proof {
        assert(form_view(f@) =~= seq![
            ("client_id"@, secret.client_id@),
            ("client_secret"@, secret.client_secret@),
            ("refresh_token"@, refresh_token@),
            ("grant_type"@, "refresh_token"@),
        ]);
    }
    f
}

/// The form that starts the device flow.
pub fn device_code_form(secret: &InstalledSecret, scopes: &Vec<String>) -> (f: Vec<(String, String)>)
    ensures
        form_view(f@) == seq![("client_id"@, secret.client_id@), ("scope"@, join_with(views(scopes@), " "@))],
{
    let scope = join(scopes, " ");
    let mut f: Vec<(String, String)> = Vec::new();
    push_param(&mut f, "client_id", secret.client_id.as_str());
    push_param(&mut f, "scope", scope.as_str());
    proof {
        assert(form_view(f@) =~= seq![("client_id"@, secret.client_id@), ("scope"@, join_with(views(scopes@), " "@))]);
    }
    f
}

/// The form that polls the device flow for its token.
pub fn device_token_form(secret: &InstalledSecret, device_code: &str) -> (f: Vec<(String, String)>)
    ensures
        form_view(f@) == seq![
            ("client_id"@, secret.client_id@),
            ("client_secret"@, secret.client_secret@),
            ("device_code"@, device_code@),
            ("grant_type"@, "urn:ietf:params:oauth:grant-type:device_code"@),
        ],
{
    let mut f: Vec<(String, String)> = Vec::new();
    push_param(&mut f, "client_id", secret.client_id.as_str());
    push_param(&mut f, "client_secret", secret.client_secret.as_str());
    push_param(&mut f, "device_code", device_code);
    push_param(&mut f, "grant_type", "urn:ietf:params:oauth:grant-type:device_code");
    proof {
        assert(form_view(f@) =~= seq![
            ("client_id"@, secret.client_id@),
            ("client_secret"@, secret.client_secret@),
            ("device_code"@, device_code@),
            ("grant_type"@, "urn:ietf:params:oauth:grant-type:device_code"@),
        ]);
    }
    f
}

/// The form that exchanges an authorization code for a token.
pub fn authorization_code_form(code: &str, secret: &InstalledSecret) -> (f: Vec<(String, String)>)
    ensures
        form_view(f@) == seq![
            ("code"@, code@),
            ("client_id"@, secret.client_id@),
            ("client_secret"@, secret.client_secret@),
            ("redirect_uri"@, redirect_uri_text()),
            ("grant_type"@, "authorization_code"@),
        ],
{
    let mut f: Vec<(String, String)> = Vec::new();
    push_param(&mut f, "code", code);
    push_param(&mut f, "client_id", secret.client_id.as_str());
    push_param(&mut f, "client_secret", secret.client_secret.as_str());
    push_param(&mut f, "redirect_uri", "http://localhost:8000/oauth2callback");
    push_param(&mut f, "grant_type", "authorization_code");
    proof {
        assert(form_view(f@) =~= seq![
            ("code"@, code@),
            ("client_id"@, secret.client_id@),
            ("client_secret"@, secret.client_secret@),
            ("redirect_uri"@, redirect_uri_text()),
            ("grant_type"@, "authorization_code"@),
        ]);
    }
    f
}

/// The form that exchanges a signed service-account assertion for a token.
pub fn jwt_bearer_form(assertion: &str) -> (f: Vec<(String, String)>)
    ensures
        form_view(f@) == seq![
            ("grant_type"@, "urn:ietf:params:oauth:grant-type:jwt-bearer"@),
            ("assertion"@, assertion@),
        ],
{
    let mut f: Vec<(String, String)> = Vec::new();
    push_param(&mut f, "grant_type", "urn:ietf:params:oauth:grant-type:jwt-bearer");
    push_param(&mut f, "assertion", assertion);
    proof {
        assert(form_view(f@) =~= seq![
            ("grant_type"@, "urn:ietf:params:oauth:grant-type:jwt-bearer"@),
            ("assertion"@, assertion@),
        ]);
    }
    f
}

/// The error for a failed token request: the context, `: ` and the response body.
pub fn token_request_error(context: &str, body: &str) -> (e: GwsError)
    ensures
        e.message@ == context@ + ": "@ + body@,
{
    GwsError::new(concat3(context, ": ", body))
}

/// The error answered by the token endpoint while polling the device flow.
pub struct DeviceFlowError {
    pub error: String,
    pub error_description: String,
}

/// The error for a failed device-flow poll: the endpoint's `error` and
/// `error_description` when the body is such an error, else `unknown_error`
/// and the body.
pub fn device_poll_error(body: &str, parsed: Option<DeviceFlowError>) -> (e: GwsError)
    ensures
        match parsed {
            Some(d) => e.message@ == d.error@ + ": "@ + d.error_description@,
            None => e.message@ == "unknown_error: "@ + body@,
        },
{
    match parsed {
        Some(d) => GwsError::new(concat3(d.error.as_str(), ": ", d.error_description.as_str())),
        None => {
            let e = GwsError::new(concat3("unknown_error", ": ", body));
            proof {
                reveal_strlit("unknown_error");
                reveal_strlit(": ");
                reveal_strlit("unknown_error: ");
                assert(e.message@ == "unknown_error: "@ + body@);
            }
            e
        },
    }
}

// ---------------------------------------------------------------------------
// Device flow decisions
// ---------------------------------------------------------------------------

/// Seconds to wait between two polls: the advertised interval, at least one.
pub fn poll_delay_secs(start: &DeviceFlowStart) -> (d: u64)
    ensures
        d as int == if start.interval < 1 { 1 } else { start.interval as int },
{
    if start.interval < 1 {
        1
    } else {
        start.interval as u64
    }
}

/// Seconds during which the device code can be polled: its lifetime, at least zero.
pub fn flow_lifetime_secs(start: &DeviceFlowStart) -> (d: u64)
    ensures
        d as int == if start.expires_in < 0 { 0 } else { start.expires_in as int },
{
    if start.expires_in < 0 {
        0
    } else {
        start.expires_in as u64
    }
}

/// Whether the device flow may still be polled `elapsed_millis` after it
/// started: while the device code's lifetime has not run out.
pub fn before_deadline(elapsed_millis: u128, start: &DeviceFlowStart) -> (r: bool)
    ensures
        r == (elapsed_millis < (if start.expires_in < 0 { 0 } else { start.expires_in as int }) * 1000),
{
    let lifetime = flow_lifetime_secs(start);
    elapsed_millis < (lifetime as u128) * 1000
}

/// What to do after one poll of the device flow.
pub enum PollStep {
    /// Authorized: the token.
    Done(OAuthToken),
    /// Not yet authorized: wait and poll again.
    Retry,
    /// The flow failed.
    Fail(GwsError),
}

/// Whether a poll error only means "not authorized yet" (`authorization_pending`
/// or `slow_down`).
pub open spec fn poll_should_retry(message: Seq<char>) -> bool {
    has_substring(message, "authorization_pending"@) || has_substring(message, "slow_down"@)
}

/// Decides what to do after a poll.
pub fn after_poll(result: Result<OAuthToken, GwsError>) -> (s: PollStep)
    ensures
        match result {
            Ok(t) => s == PollStep::Done(t),
            Err(e) => if poll_should_retry(e.message@) {
                s is Retry
            } else {
                s == PollStep::Fail(e)
            },
        },
{
    match result {
        Ok(t) => PollStep::Done(t),
        Err(e) => {
            if contains_str(e.message.as_str(), "authorization_pending") || contains_str(e.message.as_str(), "slow_down") {
                PollStep::Retry
            } else {
                PollStep::Fail(e)
            }
        },
    }
}

/// Whether starting the device flow failed because the client is not of the
/// "TVs and Limited Input devices" type (then the installed-app flow is used).
pub fn device_flow_unsupported(message: &str) -> (r: bool)
    ensures
        r == has_substring(message@, "TVs and Limited Input devices"@),
{
    contains_str(message, "TVs and Limited Input devices")
}

/// The error when the device was not authorized before its code expired.
pub fn device_flow_timeout() -> (e: GwsError)
    ensures
        e.message@ == "Device authorization timed out"@,
{
    GwsError::new("Device authorization timed out".to_string())
}

// ---------------------------------------------------------------------------
// Installed-app flow
// ---------------------------------------------------------------------------

/// The fixed redirect URI of the installed-app flow.
pub open spec fn redirect_uri_text() -> Seq<char> {
    "http://localhost:8000/oauth2callback"@
}

/// The redirect URI of the installed-app flow.
pub fn redirect_uri() -> (s: String)
    ensures
        s@ == redirect_uri_text(),
{
    "http://localhost:8000/oauth2callback".to_string()
}

/// The authorization URL of the installed-app flow.
pub open spec fn auth_url_text(client_id: Seq<char>, scope: Seq<char>, state: Seq<char>) -> Seq<char> {
    "https://accounts.google.com/o/oauth2/v2/auth?client_id="@ + url_encoded(client_id) + "&redirect_uri="@
        + url_encoded(redirect_uri_text()) + "&response_type=code&scope="@ + url_encoded(scope) + "&state="@
        + url_encoded(state) + "&access_type=offline&prompt=consent"@
}

/// The authorization URL that the user opens: the client, the redirect URI,
/// the scopes (space-separated) and the state, each percent-encoded.
pub fn auth_url(client_id: &str, scopes: &Vec<String>, state: &str) -> (u: String)
    ensures
        u@ == auth_url_text(client_id@, join_with(views(scopes@), " "@), state@),
{
    let scope = join(scopes, " ");
    let redirect = redirect_uri();
    let mut u = concat("https://accounts.google.com/o/oauth2/v2/auth?client_id=", url_encode(client_id).as_str());
    u = concat3(u.as_str(), "&redirect_uri=", url_encode(redirect.as_str()).as_str());
    u = concat3(u.as_str(), "&response_type=code&scope=", url_encode(scope.as_str()).as_str());
    u = concat3(u.as_str(), "&state=", url_encode(state).as_str());
    u = concat(u.as_str(), "&access_type=offline&prompt=consent");
    u
}

/// The state of an installed-app flow for an identifier: `gws_` and the identifier.
pub fn installed_app_state_for(id: &str) -> (s: String)
    ensures
        s@ == "gws_"@ + id@,
{
    concat("gws_", id)
}

/// The state of an installed-app flow: `gws_` and a time-derived identifier.
pub fn installed_app_state() -> (s: String)
    ensures
        exists|t: nat| s@ == "gws_"@ + #[trigger] hex_digits(t),
{
    let id = uuid();
    let s = installed_app_state_for(id.as_str());
    proof {
        let t = choose|t: nat| id@ == #[trigger] hex_digits(t);
        assert(s@ == "gws_"@ + hex_digits(t));
    }
    s
}

/// What the installed-app flow prints before waiting for the redirect.
pub fn installed_app_prompt(auth_url: &str) -> (j: Json)
    ensures
        j@ == JsonV::Object(seq![
            ("flow"@, JsonV::Str("installed_app"@)),
            ("auth_url"@, JsonV::Str(auth_url@)),
            ("redirect_uri"@, JsonV::Str(redirect_uri_text())),
            ("message"@, JsonV::Str("Please open the auth_url in a browser and approve access. Waiting for redirect..."@)),
        ]),
{
    let mut f: Vec<(String, Json)> = Vec::new();
    push_member(&mut f, "flow", json_str("installed_app"));
    push_member(&mut f, "auth_url", json_str(auth_url));
    push_member(&mut f, "redirect_uri", json_str(redirect_uri().as_str()));
    push_member(
        &mut f,
        "message",
        json_str("Please open the auth_url in a browser and approve access. Waiting for redirect..."),
    );
    proof {
        assert(fields_view(f@) =~= seq![
            ("flow"@, JsonV::Str("installed_app"@)),
            ("auth_url"@, JsonV::Str(auth_url@)),
            ("redirect_uri"@, JsonV::Str(redirect_uri_text())),
            ("message"@, JsonV::Str("Please open the auth_url in a browser and approve access. Waiting for redirect..."@)),
        ]);
    }
    object(f)
}

/// The local address that receives the redirect, as the redirect URI names it.
pub fn redirect_listen_address() -> (s: &'static str)
    ensures
        s@ == "127.0.0.1:8000"@,
{
    "127.0.0.1:8000"
}

/// The error when the redirect's address cannot be listened on.
pub fn redirect_bind_error() -> (e: GwsError)
    ensures
        e.message@ == "Failed to bind localhost:8000 — is another process using it?"@,
{
    GwsError::new("Failed to bind localhost:8000 — is another process using it?".to_string())
}

/// The HTTP response sent to the browser once the redirect is received.
pub fn redirect_response() -> (s: String)
    ensures
        s@ == "HTTP/1.1 200 OK\r\nContent-Type: text/html\r\n\r\n<html><body><h1>Authentication successful!</h1><p>You can close this window.</p></body></html>"@,
{
    "HTTP/1.1 200 OK\r\nContent-Type: text/html\r\n\r\n<html><body><h1>Authentication successful!</h1><p>You can close this window.</p></body></html>".to_string()
}

/// The key and the value of a query parameter (`key=value`): the text before
/// the first `=` and the text after it, or the whole text and an empty value.
pub open spec fn key_value(p: Seq<char>) -> (Seq<char>, Seq<char>) {
    match first_index(p, '=') {
        Some(i) => (p.take(i), p.skip(i + 1)),
        None => (p, Seq::empty()),
    }
}

/// What the first `code` or `error` parameter of a query holds, still encoded.
pub enum CodeParam {
    Code(Seq<char>),
    Error(Seq<char>),
    Absent,
}

/// Scans query parameters in order for the first `code` or `error` one.
pub open spec fn scan_params(params: Seq<Seq<char>>) -> CodeParam
    decreases params.len(),
{
    if params.len() == 0 {
        CodeParam::Absent
    } else {
        let (k, v) = key_value(params[0]);
        if k == "code"@ {
            CodeParam::Code(v)
        } else if k == "error"@ {
            CodeParam::Error(v)
        } else {
            scan_params(params.drop_first())
        }
    }
}

/// Why no authorization code could be read from a redirect.
pub enum CodeFailure {
    /// The request line has fewer than two words.
    InvalidRequestLine,
    /// The requested path has no query string.
    NoQuery,
    /// The code (or error) does not percent-decode to UTF-8: the decoded bytes.
    BadEncoding(Seq<u8>),
    /// The redirect carries an OAuth error, decoded.
    OAuth(Seq<char>),
    /// The query has neither a code nor an error.
    NoCode,
}

/// The query string of the path requested by an HTTP request line.
pub open spec fn request_query(line: Seq<char>) -> Option<Seq<char>> {
    let parts = words(line);
    if parts.len() < 2 {
        None
    } else {
        match first_index(parts[1], '?') {
            Some(q) => Some(parts[1].skip(q + 1)),
            None => None,
        }
    }
}

/// The authorization code that the redirect's request line carries.
pub open spec fn redirect_code(line: Seq<char>) -> Result<Seq<char>, CodeFailure> {
    let parts = words(line);
    if parts.len() < 2 {
        Err(CodeFailure::InvalidRequestLine)
    } else {
        match request_query(line) {
            None => Err(CodeFailure::NoQuery),
            Some(query) => match scan_params(split_by(query, '&')) {
                CodeParam::Code(v) => match url_decoded(v) {
                    Some(c) => Ok(c),
                    None => Err(CodeFailure::BadEncoding(pct_decode_bytes(encode_utf8(v)))),
                },
                CodeParam::Error(v) => match url_decoded(v) {
                    Some(m) => Err(CodeFailure::OAuth(m)),
                    None => Err(CodeFailure::BadEncoding(pct_decode_bytes(encode_utf8(v)))),
                },
                CodeParam::Absent => Err(CodeFailure::NoCode),
            },
        }
    }
}

/// The message of a failure to read the code; for an encoding error, that
/// of the UTF-8 error on the decoded bytes.
pub open spec fn code_failure_message(f: CodeFailure) -> Seq<char> {
    match f {
        CodeFailure::InvalidRequestLine => "Invalid request line"@,
        CodeFailure::NoQuery => "No query string in redirect"@,
        CodeFailure::BadEncoding(b) => utf8_error_message(b),
        CodeFailure::OAuth(m) => "OAuth error: "@ + m,
        CodeFailure::NoCode => "No authorization code in redirect"@,
    }
}

/// Splits a query parameter into its key and value.
fn split_key_value(p: &str) -> (r: (String, String))
    ensures
        (r.0@, r.1@) == key_value(p@),
{
    let cs = chars_of(p);
    proof {
        lemma_first_index(p@, '=');
    }
    match find_char_from(&cs, '=', 0) {
        Some(i) => {
            proof {
                assert(first_index(p@, '=') == Some(i as int)) by {
                    if let Some(q) = first_index(p@, '=') {
                        if q < i {
                            assert(p@[q] == '=');
                        } else if q > i {
                            assert(p@.take(q)[i as int] == '=');
                        }
                    }
                }
            }
            assert(i < cs.len());
            let k = string_of_range(&cs, 0, i);
            let v = string_of_range(&cs, i + 1, cs.len());
            proof {
                assert(p@.take(i as int) == cs@.subrange(0, i as int));
                assert(p@.skip(i + 1) == cs@.subrange(i + 1, cs@.len() as int));
            }
            (k, v)
        },
        None => {
            proof {
                if p@.contains('=') {
                    let k = choose|k: int| 0 <= k < p@.len() && p@[k] == '=';
                    assert(cs@[k] == '=');
                }
            }
            (p.to_string(), String::new())
        },
    }
}

/// Reads the authorization code from the first line of the redirect request
/// (`GET /oauth2callback?code=...&state=... HTTP/1.1`): the first `code`
/// parameter, percent-decoded; an `error` parameter met first is an OAuth error.
pub fn extract_code(request_line: &str) -> (r: Result<String, GwsError>)
    ensures
        match redirect_code(request_line@) {
            Ok(c) => r matches Ok(x) && x@ == c,
            Err(f) => r matches Err(e) && e.message@ == code_failure_message(f),
        },
{
    let parts = split_whitespace(request_line);
    if parts.len() < 2 {
        return Err(GwsError::new("Invalid request line".to_string()));
    }
    let path = chars_of(parts[1].as_str());
    proof {
        lemma_first_index(path@, '?');
        assert(path@ == words(request_line@)[1]);
    }
    let q = match find_char_from(&path, '?', 0) {
        Some(q) => q,
        None => {
            proof {
                if path@.contains('?') {
                    let k = choose|k: int| 0 <= k < path@.len() && path@[k] == '?';
                    assert(path@[k] == '?');
                }
            }
            return Err(GwsError::new("No query string in redirect".to_string()));
        },
    };
    proof {
        assert(first_index(path@, '?') == Some(q as int)) by {
            if let Some(k) = first_index(path@, '?') {
                if k < q {
                    assert(path@[k] == '?');
                } else if k > q {
                    assert(path@.take(k)[q as int] == '?');
                }
            }
        }
    }
    assert(q < path.len());
    let query = string_of_range(&path, q + 1, path.len());
    proof {
        assert(query@ == path@.skip(q + 1));
        assert(request_query(request_line@) == Some(query@));
    }
    let params = split_char(query.as_str(), '&');
    let ghost ps = views(params@);
    proof {
        assert(ps.skip(0) =~= ps);
    }
    let mut i: usize = 0;
    while i < params.len()
        invariant
            0 <= i <= params@.len(),
            ps == views(params@),
            words(request_line@).len() >= 2,
            request_query(request_line@) == Some(query@),
            ps == split_by(query@, '&'),
            scan_params(ps) == scan_params(ps.skip(i as int)),
        decreases params@.len() - i,
    {
        let kv = split_key_value(params[i].as_str());
        proof {
            assert(ps.skip(i as int)[0] == params@[i as int]@);
            assert(ps.skip(i as int).drop_first() == ps.skip(i + 1));
            assert(key_value(ps.skip(i as int)[0]) == (kv.0@, kv.1@));
        }
        if str_eq(kv.0.as_str(), "code") {
            return match url_decode(kv.1.as_str()) {
                Ok(c) => Ok(c),
                Err(m) => Err(GwsError::new(m)),
            };
        }
        if str_eq(kv.0.as_str(), "error") {
            return match url_decode(kv.1.as_str()) {
                Ok(m) => {
                    proof {
                        reveal_strlit("OAuth error: ");
                    }
                    Err(GwsError::new(concat("OAuth error: ", m.as_str())))
                },
                Err(m) => Err(GwsError::new(m)),
            };
        }
        i += 1;
    }
    proof {
        assert(ps.skip(i as int).len() == 0);
    }
    Err(GwsError::new("No authorization code in redirect".to_string()))
}

/// The request line of the redirect that the installed-app flow asks for,
/// carrying the code and the state percent-encoded.
pub open spec fn redirect_request_line(code: Seq<char>, state: Seq<char>) -> Seq<char> {
    "GET /oauth2callback?code="@ + url_encoded(code) + "&state="@ + url_encoded(state) + " HTTP/1.1"@
}

/// The authorization code that Google appends to the redirect comes back
/// unchanged from `extract_code`, whatever its characters.
pub proof fn lemma_redirect_carries_code(code: Seq<char>, state: Seq<char>)
    ensures
        redirect_code(redirect_request_line(code, state)) == Ok::<Seq<char>, CodeFailure>(code),
{
    reveal_strlit("GET /oauth2callback?code=");
    reveal_strlit("&state=");
    reveal_strlit(" HTTP/1.1");
    reveal_strlit("code");
    reveal_strlit("error");
    let e1 = url_encoded(code);
    let e2 = url_encoded(state);
    lemma_url_encoded_chars(code);
    lemma_url_encoded_chars(state);
    let get = seq!['G', 'E', 'T'];
    let http = seq!['H', 'T', 'T', 'P', '/', '1', '.', '1'];
    let route = seq!['/', 'o', 'a', 'u', 't', 'h', '2', 'c', 'a', 'l', 'l', 'b', 'a', 'c', 'k'];
    let code_key = seq!['c', 'o', 'd', 'e'];
    let state_key = seq!['s', 't', 'a', 't', 'e'];
    let p1 = code_key + seq!['='] + e1;
    let p2 = state_key + seq!['='] + e2;
    let query = p1 + seq!['&'] + p2;
    let path = route + seq!['?'] + query;
    let line = redirect_request_line(code, state);
    assert(line =~= get + seq![' '] + path + seq![' '] + http);

    // The words of the request line: the method, the path, the protocol.
    assert forall|i: int| 0 <= i < path.len() implies !is_ws_pred()(#[trigger] path[i]) by {
        if i < 16 {
        } else if i < 21 {
        } else if i < 21 + e1.len() {
            assert(path[i] == e1[i - 21]);
            assert(is_url_char(e1[i - 21]));
        } else if i < 28 + e1.len() {
        } else {
            assert(path[i] == e2[i - 28 - e1.len()]);
            assert(is_url_char(e2[i - 28 - e1.len()]));
        }
    }
    assert forall|i: int| 0 <= i < get.len() implies !is_ws_pred()(#[trigger] get[i]) by {}
    assert forall|i: int| 0 <= i < http.len() implies !is_ws_pred()(#[trigger] http[i]) by {}
    lemma_split_when_three(get, ' ', path, ' ', http, is_ws_pred());
    let ws = seq![get, path, http];
    assert forall|i: int| 0 <= i < ws.len() implies (#[trigger] ws[i]).len() > 0 by {}
    lemma_filter_nonempty_all(ws);
    assert(words(line) == ws);

    // The query string: everything after the first `?` of the path.
    assert(!route.contains('?')) by {
        assert forall|i: int| 0 <= i < route.len() implies route[i] != '?' by {}
    }
    assert(seq!['?'] + query == (seq!['?'] + query));
    lemma_first_index_concat(route, seq!['?'] + query, '?');
    assert(path =~= route + (seq!['?'] + query));
    assert(path.skip(16) =~= query);
    assert(request_query(line) == Some(query));

    // The parameters: the code first, then the state.
    assert forall|i: int| 0 <= i < p1.len() implies !is_char('&')(#[trigger] p1[i]) by {
        if i >= 5 {
            assert(p1[i] == e1[i - 5]);
            assert(is_url_char(e1[i - 5]));
        }
    }
    assert forall|i: int| 0 <= i < p2.len() implies !is_char('&')(#[trigger] p2[i]) by {
        if i >= 6 {
            assert(p2[i] == e2[i - 6]);
            assert(is_url_char(e2[i - 6]));
        }
    }
    lemma_split_when_two(p1, '&', p2, is_char('&'));
    assert(split_by(query, '&') == seq![p1, p2]);

    // The first parameter is `code`, whose value decodes to the code.
    assert(!code_key.contains('=')) by {
        assert forall|i: int| 0 <= i < code_key.len() implies code_key[i] != '=' by {}
    }
    lemma_first_index_concat(code_key, seq!['='] + e1, '=');
    assert(p1 =~= code_key + (seq!['='] + e1));
    assert(p1.take(4) =~= code_key);
    assert(p1.skip(5) =~= e1);
    assert(key_value(p1) == (code_key, e1));
    assert("code"@ == code_key);
    assert(scan_params(seq![p1, p2]) == CodeParam::Code(e1));
    lemma_url_roundtrip(code);
}

// ---------------------------------------------------------------------------
// Service accounts
// ---------------------------------------------------------------------------

/// The claims of a service account's signed assertion.
pub struct JwtClaims {
    pub iss: String,
    pub sub: String,
    pub scope: String,
    pub aud: String,
    pub iat: u64,
    pub exp: u64,
}

/// The token endpoint, the audience of service-account assertions.
pub open spec fn token_endpoint() -> Seq<char> {
    "https://oauth2.googleapis.com/token"@
}

/// The RS256-signed JWT (as `jsonwebtoken::encode` writes it, with the
/// header of `Header::new(Algorithm::RS256)`) of the claims
/// `{iss, sub, scope, aud, iat, exp}` under the given PEM private key.
pub uninterp spec fn rs256_jwt(
    iss: Seq<char>,
    sub: Seq<char>,
    scope: Seq<char>,
    aud: Seq<char>,
    iat: u64,
    exp: u64,
    private_key_pem: Seq<char>,
) -> Seq<char>;

/// The message of the error that `jsonwebtoken::EncodingKey::from_rsa_pem`
/// returns for a key text, or `None` when it reads the text as an RSA key
/// (PEM of a PKCS#1 or PKCS#8 RSA key); a function of the text alone.
pub uninterp spec fn rsa_pem_error(private_key_pem: Seq<char>) -> Option<Seq<char>>;

/// What signing a service account's claims gave.
pub enum Signing {
    /// The key text is not an RSA key: the error's message.
    KeyRejected(String),
    /// The signature failed: the error's message.
    Failed(String),
    /// The signed token.
    Signed(String),
}

/// The message of the error that `jsonwebtoken::encode` gives when ring's
/// `RsaKeyPair::from_der` refuses the RSA key that `from_rsa_pem` read from
/// the text (`RSA key invalid: ` and ring's reason), or `None` when ring
/// accepts it; a function of the text alone (the check uses no randomness).
pub uninterp spec fn rsa_key_rejection(private_key_pem: Seq<char>) -> Option<Seq<char>>;

/// `jsonwebtoken::encode` with an RS256 header (`Header::new`) and the key
/// read by `EncodingKey::from_rsa_pem`, the claims as a JSON object. The
/// outcomes, as jsonwebtoken's source gives them: the key text is rejected
/// exactly when `from_rsa_pem` fails, with its message (`rsa_pem_error`);
/// else signing fails with ring's rejection of the key when there is one
/// (`rsa_key_rejection`); else the token is the named `rs256_jwt` of the
/// claims and key (RSA PKCS#1 v1.5 signing is deterministic), unless ring's
/// signature itself fails (its random blinding), whose message is
/// `RsaFailedSigning`.
#[verifier::external_body]
fn sign_rs256_jwt(claims: &JwtClaims, private_key_pem: &str) -> (r: Signing)
    ensures
        match rsa_pem_error(private_key_pem@) {
            Some(m) => r matches Signing::KeyRejected(e) && e@ == m,
            None => !(r is KeyRejected),
        },
        match rsa_key_rejection(private_key_pem@) {
            Some(m) => rsa_pem_error(private_key_pem@) is Some || (r matches Signing::Failed(e) && e@ == m),
            None => true,
        },
        rsa_pem_error(private_key_pem@) is None && rsa_key_rejection(private_key_pem@) is None ==> (r is Signed || (
        r matches Signing::Failed(e) && e@ == "RsaFailedSigning"@)),
        r matches Signing::Signed(t) ==> t@ == rs256_jwt(
            claims.iss@,
            claims.sub@,
            claims.scope@,
            claims.aud@,
            claims.iat,
            claims.exp,
            private_key_pem@,
        ),
{
    let key = match EncodingKey::from_rsa_pem(private_key_pem.as_bytes()) {
        Ok(k) => k,
        Err(e) => return Signing::KeyRejected(e.to_string()),
    };
    let mut body = JsonMap::new();
    for (k, v) in [("iss", &claims.iss), ("sub", &claims.sub), ("scope", &claims.scope), ("aud", &claims.aud)] {
        body.insert(k.into(), v.as_str().into());
    }
    body.insert("iat".into(), claims.iat.into());
    body.insert("exp".into(), claims.exp.into());
    jsonwebtoken::encode(&Header::new(Algorithm::RS256), &body, &key)
        .map_or_else(|e| Signing::Failed(e.to_string()), Signing::Signed)
}

/// The claims of a service account's assertion at time `now`: issued by and
/// for the account, for the scopes (space-separated), to the token endpoint,
/// valid for an hour.
pub fn service_account_claims(client_email: &str, scopes: &Vec<String>, now: u64) -> (c: JwtClaims)
    requires
        now + 3600 <= u64::MAX,
    ensures
        c.iss@ == client_email@,
        c.sub@ == client_email@,
        c.scope@ == join_with(views(scopes@), " "@),
        c.aud@ == token_endpoint(),
        c.iat == now,
        c.exp == now + 3600,
{
    JwtClaims {
        iss: client_email.to_string(),
        sub: client_email.to_string(),
        scope: join(scopes, " "),
        aud: "https://oauth2.googleapis.com/token".to_string(),
        iat: now,
        exp: now + 3600,
    }
}

/// The text of a member of a service account key, if it is a string.
pub open spec fn key_text(key: JsonV, name: Seq<char>) -> Option<Seq<char>> {
    text_of(get(key, name))
}

/// What signing a service account's assertion can give, for an account
/// `email`, the space-separated scopes, the time and the key text: the key
/// text's rejection, ring's rejection of the key, or else the token or a
/// failed signature (`RsaFailedSigning`).
pub open spec fn assertion_outcome(r: Result<String, GwsError>, email: Seq<char>, scope: Seq<char>, now: u64, pk: Seq<char>) -> bool {
    let token = rs256_jwt(email, email, scope, token_endpoint(), now, (now + 3600) as u64, pk);
    match rsa_pem_error(pk) {
        Some(m) => r matches Err(e) && e.message@ == m,
        None => match rsa_key_rejection(pk) {
            Some(m) => r matches Err(e) && e.message@ == m,
            None => (r matches Ok(t) && t@ == token) || (r matches Err(e) && e.message@ == "RsaFailedSigning"@),
        },
    }
}

/// The signed assertion of a service account, from its key file's JSON:
/// its `client_email` and `private_key` are required.
pub fn service_account_assertion(key: &Json, scopes: &Vec<String>, now: u64) -> (r: Result<String, GwsError>)
    requires
        now + 3600 <= u64::MAX,
    ensures
        key_text(key@, "client_email"@) is None ==> (r matches Err(e)
            && e.message@ == "Missing client_email in service account key"@),
        key_text(key@, "client_email"@) is Some && key_text(key@, "private_key"@) is None ==> (r matches Err(e)
            && e.message@ == "Missing private_key in service account key"@),
        key_text(key@, "client_email"@) matches Some(email) ==> (key_text(key@, "private_key"@) matches Some(pk)
            ==> assertion_outcome(r, email, join_with(views(scopes@), " "@), now, pk)),
        r matches Ok(t) ==> key_text(key@, "client_email"@) matches Some(email) && key_text(
            key@,
            "private_key"@,
        ) matches Some(pk) && t@ == rs256_jwt(
            email,
            email,
            join_with(views(scopes@), " "@),
            token_endpoint(),
            now,
            (now + 3600) as u64,
            pk,
        ),
{
    let email = match as_text(get_member(key, "client_email")) {
        Some(e) => e,
        None => {
            return Err(GwsError::new("Missing client_email in service account key".to_string()));
        },
    };
    let pk = match as_text(get_member(key, "private_key")) {
        Some(p) => p,
        None => {
            return Err(GwsError::new("Missing private_key in service account key".to_string()));
        },
    };
    let claims = service_account_claims(email.as_str(), scopes, now);
    match sign_rs256_jwt(&claims, pk.as_str()) {
        Signing::Signed(t) => Ok(t),
        Signing::KeyRejected(m) => Err(GwsError::new(m)),
        Signing::Failed(m) => Err(GwsError::new(m)),
    }
}

// ---------------------------------------------------------------------------
// Application Default Credentials
// ---------------------------------------------------------------------------

/// How Application Default Credentials obtain a token.
pub enum AdcStep {
    /// `GOOGLE_APPLICATION_CREDENTIALS` names a service account key file.
    ServiceAccount { key_file_path: String },
    /// Ask the GCP metadata server, with the `Metadata-Flavor: Google` header.
    Metadata { url: String },
}

/// The metadata server's token URL for the scopes (comma-separated, percent-encoded).
pub open spec fn metadata_token_url(scopes: Seq<Seq<char>>) -> Seq<char> {
    "http://169.254.169.254/computeMetadata/v1/instance/service-accounts/default/token?scopes="@ + url_encoded(
        join_with(scopes, ","@),
    )
}

/// Decides how ADC obtains a token, given the value of
/// `GOOGLE_APPLICATION_CREDENTIALS` if it is set.
pub fn adc_step(credentials: Option<String>, scopes: &Vec<String>) -> (s: AdcStep)
    ensures
        match credentials {
            Some(p) => s matches AdcStep::ServiceAccount { key_file_path } && key_file_path@ == p@,
            None => s matches AdcStep::Metadata { url } && url@ == metadata_token_url(views(scopes@)),
        },
{
    match credentials {
        Some(p) => AdcStep::ServiceAccount { key_file_path: p },
        None => {
            let joined = join(scopes, ",");
            let url = concat(
                "http://169.254.169.254/computeMetadata/v1/instance/service-accounts/default/token?scopes=",
                url_encode(joined.as_str()).as_str(),
            );
            AdcStep::Metadata { url }
        },
    }
}

/// The error when the metadata server does not answer.
pub fn adc_error() -> (e: GwsError)
    ensures
        e.message@ == "ADC failed: not running on GCP and GOOGLE_APPLICATION_CREDENTIALS not set"@,
{
    GwsError::new("ADC failed: not running on GCP and GOOGLE_APPLICATION_CREDENTIALS not set".to_string())
}

// ---------------------------------------------------------------------------
// `auth init` and `auth status`
// ---------------------------------------------------------------------------

/// The scopes requested when none are given.
pub open spec fn default_scope_texts() -> Seq<Seq<char>> {
    seq![
        "https://www.googleapis.com/auth/gmail.modify"@,
        "https://www.googleapis.com/auth/drive"@,
        "https://www.googleapis.com/auth/documents"@,
        "https://www.googleapis.com/auth/spreadsheets"@,
    ]
}

/// The scopes of `auth init`: those given, else Gmail (modify), Drive, Docs and Sheets.
pub fn init_scopes(scopes: Option<Vec<String>>) -> (r: Vec<String>)
    ensures
        match scopes {
            Some(s) => r == s,
            None => views(r@) == default_scope_texts(),
        },
{
    match scopes {
        Some(s) => s,
        None => {
            let mut v: Vec<String> = Vec::new();
            v.push("https://www.googleapis.com/auth/gmail.modify".to_string());
            v.push("https://www.googleapis.com/auth/drive".to_string());
            v.push("https://www.googleapis.com/auth/documents".to_string());
            v.push("https://www.googleapis.com/auth/spreadsheets".to_string());
            proof {
                assert(views(v@) =~= default_scope_texts());
            }
            v
        },
    }
}

/// The client secret path that OAuth setup requires.
pub fn oauth_secret_path(client_secret: Option<String>) -> (r: Result<String, GwsError>)
    ensures
        match client_secret {
            Some(p) => r matches Ok(q) && q == p,
            None => r matches Err(e) && e.message@ == "--client-secret is required for OAuth"@,
        },
{
    match client_secret {
        Some(p) => Ok(p),
        None => Err(GwsError::new("--client-secret is required for OAuth".to_string())),
    }
}

/// The configuration that `auth init` stores for a method. OAuth stores the
/// client secret path and the token that setup obtained; a service account
/// requires its key file.
pub fn init_config(method: AuthMethod, client_secret: Option<String>, key_file: Option<String>, token: Option<OAuthToken>) -> (r: Result<Config, GwsError>)
    ensures
        match method {
            AuthMethod::Oauth => match (client_secret, token) {
                (Some(p), Some(t)) => r == Ok::<Config, GwsError>(Config { auth: AuthConfig::OAuth { client_secret_path: p, token: t } }),
                (None, _) => r matches Err(e) && e.message@ == "--client-secret is required for OAuth"@,
                (Some(_), None) => r matches Err(e) && e.message@ == "Device authorization timed out"@,
            },
            AuthMethod::ServiceAccount => match key_file {
                Some(k) => r == Ok::<Config, GwsError>(Config { auth: AuthConfig::ServiceAccount { key_file_path: k } }),
                None => r matches Err(e) && e.message@ == "--key-file is required for service-account auth"@,
            },
            AuthMethod::Adc => r == Ok::<Config, GwsError>(Config { auth: AuthConfig::Adc }),
        },
{
    match method {
        AuthMethod::Oauth => {
            let p = oauth_secret_path(client_secret)?;
            match token {
                Some(t) => Ok(Config { auth: AuthConfig::OAuth { client_secret_path: p, token: t } }),
                None => Err(device_flow_timeout()),
            }
        },
        AuthMethod::ServiceAccount => match key_file {
            Some(k) => Ok(Config { auth: AuthConfig::ServiceAccount { key_file_path: k } }),
            None => Err(GwsError::new("--key-file is required for service-account auth".to_string())),
        },
        AuthMethod::Adc => Ok(Config { auth: AuthConfig::Adc }),
    }
}

/// How std's `Debug` writes a path (`Path`'s `{:?}`: quoted, with escapes),
/// a function of the path's text.
pub uninterp spec fn path_debug_text(p: Seq<char>) -> Seq<char>;

/// How std's `Debug` writes a string (`str`'s `{:?}`: quoted, with escapes),
/// a function of the text.
pub uninterp spec fn str_debug_text(s: Seq<char>) -> Seq<char>;

/// `format!("{:?}", Path::new(p))`: std's `Debug` of a path, named `path_debug_text`.
#[verifier::external_body]
fn path_debug(p: &str) -> (r: String)
    ensures
        r@ == path_debug_text(p@),
{
    format!("{:?}", std::path::Path::new(p))
}

/// `format!("{:?}", s)`: std's `Debug` of a string, named `str_debug_text`.
#[verifier::external_body]
fn str_debug(s: &str) -> (r: String)
    ensures
        r@ == str_debug_text(s@),
{
    format!("{:?}", s)
}

/// How `auth status` names the stored method: the configuration's `Debug`
/// form, as derived for the stored types (paths written as paths, tokens as
/// strings, the expiry in decimal).
pub open spec fn auth_description(a: AuthConfig) -> Seq<char> {
    match a {
        AuthConfig::OAuth { client_secret_path, token } => "OAuth { client_secret_path: "@ + path_debug_text(
            client_secret_path@,
        ) + ", token: OAuthToken { access_token: "@ + str_debug_text(token.access_token@) + ", refresh_token: "@
            + str_debug_text(token.refresh_token@) + ", expires_at: "@ + dec_digits(token.expires_at as nat)
            + " } }"@,
        AuthConfig::ServiceAccount { key_file_path } => "ServiceAccount { key_file_path: "@ + path_debug_text(
            key_file_path@,
        ) + " }"@,
        AuthConfig::Adc => "Adc"@,
    }
}

/// The method that `auth status` reports for a stored configuration.
pub fn describe_auth(a: &AuthConfig) -> (s: String)
    ensures
        s@ == auth_description(*a),
{
    match a {
        AuthConfig::OAuth { client_secret_path, token } => {
            let mut s = concat("OAuth { client_secret_path: ", path_debug(client_secret_path.as_str()).as_str());
            s = concat3(s.as_str(), ", token: OAuthToken { access_token: ", str_debug(token.access_token.as_str()).as_str());
            s = concat3(s.as_str(), ", refresh_token: ", str_debug(token.refresh_token.as_str()).as_str());
            s = concat3(s.as_str(), ", expires_at: ", u64_to_decimal(token.expires_at).as_str());
            concat(s.as_str(), " } }")
        },
        AuthConfig::ServiceAccount { key_file_path } => {
            let s = concat("ServiceAccount { key_file_path: ", path_debug(key_file_path.as_str()).as_str());
            concat(s.as_str(), " }")
        },
        AuthConfig::Adc => "Adc".to_string(),
    }
}

/// What `auth init` prints once the configuration is stored.
pub fn authenticated_output() -> (j: Json)
    ensures
        j@ == JsonV::Object(seq![("authenticated"@, JsonV::Bool(true))]),
{
    let mut f: Vec<(String, Json)> = Vec::new();
    push_member(&mut f, "authenticated", Json::Bool(true));
    proof {
        assert(fields_view(f@) =~= seq![("authenticated"@, JsonV::Bool(true))]);
    }
    object(f)
}

/// What `auth status` prints: authenticated with the stored method's
/// description, or not authenticated when no configuration could be loaded.
pub fn status_output(method: Option<String>) -> (j: Json)
    ensures
        match method {
            Some(m) => j@ == JsonV::Object(seq![("authenticated"@, JsonV::Bool(true)), ("method"@, JsonV::Str(m@))]),
            None => j@ == JsonV::Object(seq![("authenticated"@, JsonV::Bool(false))]),
        },
{
    let mut f: Vec<(String, Json)> = Vec::new();
    match method {
        Some(m) => {
            push_member(&mut f, "authenticated", Json::Bool(true));
            push_member(&mut f, "method", Json::Str(m));
            proof {
                assert(fields_view(f@) =~= seq![("authenticated"@, JsonV::Bool(true)), ("method"@, JsonV::Str(m@))]);
            }
        },
        None => {
            push_member(&mut f, "authenticated", Json::Bool(false));
            proof {
                assert(fields_view(f@) =~= seq![("authenticated"@, JsonV::Bool(false))]);
            }
        },
    }
    object(f)
}

// ---------------------------------------------------------------------------
// Time-derived identifiers
// ---------------------------------------------------------------------------

/// Milliseconds since the Unix epoch (0 when the clock is before it), read
/// with std's `SystemTime::now`; nothing is stated of the value.
#[verifier::external_body]
fn unix_time_millis() -> u128 {
    std::time::SystemTime::now().duration_since(std::time::UNIX_EPOCH).unwrap_or_default().as_millis()
}

/// An identifier derived from the time: milliseconds since the Unix epoch in
/// lower-case hexadecimal.
pub fn uuid() -> (s: String)
    ensures
        exists|t: nat| s@ == #[trigger] hex_digits(t),
{
    let t = unix_time_millis();
    let s = to_hex_lower(t);
    proof {
        assert(s@ == hex_digits(t as nat));
    }
    s
}

} // verus!
