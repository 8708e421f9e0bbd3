use gws_cli::auth::{
    describe_auth,
    config_dir_in, config_path_in, installed_app_state_for,
    before_deadline, client_secret_parse_error, device_code_url, loaded_config, redirect_bind_error,
    redirect_listen_address, token_url, adc_error, adc_step, after_poll, auth_url, authenticated_output, authorization_code_form, config_dir, config_path,
    device_code_form, device_flow_timeout, device_flow_unsupported, device_poll_error, device_token_form,
    extract_code, flow_lifetime_secs, init_config, init_scopes, installed_app_prompt, installed_app_state,
    issued_token, join_path, jwt_bearer_form, oauth_secret_path, poll_delay_secs, redirect_response, redirect_uri,
    refresh_form, refreshed_token, service_account_assertion, service_account_claims, status_output,
    token_is_fresh, token_request_error, token_step, uuid, with_token, AdcStep, AuthConfig, AuthMethod,
    ClientSecret, Config, DeviceFlowError, DeviceFlowStart, InstalledSecret, OAuthToken, PollStep, TokenStep,
};
use gws_cli::client::GwsError;
use gws_cli::json::Json;

fn show(j: &Json) -> String {
    match j {
        Json::Null => "null".to_string(),
        Json::Bool(b) => b.to_string(),
        Json::Number(n) => n.clone(),
        Json::Str(s) => format!("{:?}", s),
        Json::Array(v) => format!("[{}]", v.iter().map(show).collect::<Vec<_>>().join(",")),
        Json::Object(f) => format!(
            "{{{}}}",
            f.iter().map(|(k, v)| format!("{:?}:{}", k, show(v))).collect::<Vec<_>>().join(",")
        ),
    }
}

fn secret(id: &str) -> InstalledSecret {
    InstalledSecret {
        client_id: id.to_string(),
        client_secret: format!("{}-secret", id),
        redirect_uris: vec!["http://localhost".to_string()],
    }
}

fn token(access: &str, expires_at: u64) -> OAuthToken {
    OAuthToken { access_token: access.to_string(), refresh_token: "r1".to_string(), expires_at }
}

fn pairs(f: &[(String, String)]) -> Vec<(&str, &str)> {
    f.iter().map(|(k, v)| (k.as_str(), v.as_str())).collect()
}

fn strings(v: &[&str]) -> Vec<String> {
    v.iter().map(|s| s.to_string()).collect()
}

#[test]
fn client_secret_prefers_installed() {
    let s = ClientSecret { installed: Some(secret("inst")), web: Some(secret("web")) };
    assert_eq!(s.get().ok().unwrap().client_id, "inst");
    let s = ClientSecret { installed: None, web: Some(secret("web")) };
    assert_eq!(s.get().ok().unwrap().client_id, "web");
    let s = ClientSecret { installed: None, web: None };
    assert_eq!(s.get().err().unwrap().message, "client_secret.json must contain 'installed' or 'web' key");
}

#[test]
fn joining_paths() {
    assert_eq!(join_path("a", "b"), "a/b");
    assert_eq!(join_path("a/", "b"), "a/b");
    assert_eq!(join_path("", "b"), "b");
    assert_eq!(join_path("/home/u/.config", "gws-cli"), "/home/u/.config/gws-cli");
}

#[test]
fn config_file_lives_under_config_dir() {
    match (config_dir(), config_path()) {
        (Ok(d), Ok(p)) => {
            assert!(d.ends_with("gws-cli"));
            assert_eq!(p, format!("{}/config.json", d));
        }
        (Err(e), Err(f)) => {
            assert_eq!(e.message, "Could not determine config directory");
            assert_eq!(f.message, "Could not determine config directory");
        }
        _ => panic!("config_dir and config_path disagree"),
    }
}

#[test]
fn token_freshness_margin() {
    let t = token("a", 1000);
    assert!(token_is_fresh(&t, 939));
    assert!(!token_is_fresh(&t, 940));
    assert!(!token_is_fresh(&t, 5000));
    let late = token("a", u64::MAX);
    assert!(token_is_fresh(&late, u64::MAX - 61));
    assert!(!token_is_fresh(&late, u64::MAX - 60));
    assert!(!token_is_fresh(&late, u64::MAX));
    let stale = AuthConfig::OAuth { client_secret_path: "cs.json".to_string(), token: token("x", 5) };
    assert!(matches!(token_step(&stale, u64::MAX), TokenStep::Refresh { .. }));
}

#[test]
fn issued_and_refreshed_tokens() {
    let t = issued_token("acc".to_string(), "ref".to_string(), 3599, 1_700_000_000);
    assert_eq!((t.access_token.as_str(), t.refresh_token.as_str(), t.expires_at), ("acc", "ref", 1_700_003_599));
    let r = refreshed_token(&t, "acc2".to_string(), 3600, 1_700_001_000);
    assert_eq!((r.access_token.as_str(), r.refresh_token.as_str(), r.expires_at), ("acc2", "ref", 1_700_004_600));
}

#[test]
fn token_step_per_method() {
    let fresh = AuthConfig::OAuth { client_secret_path: "cs.json".to_string(), token: token("live", 10_000) };
    assert!(matches!(token_step(&fresh, 100), TokenStep::UseStored { access_token } if access_token == "live"));
    let stale = AuthConfig::OAuth { client_secret_path: "cs.json".to_string(), token: token("old", 150) };
    assert!(matches!(token_step(&stale, 100), TokenStep::Refresh { client_secret_path, token } if client_secret_path == "cs.json" && token.access_token == "old" && token.refresh_token == "r1" && token.expires_at == 150));
    let sa = AuthConfig::ServiceAccount { key_file_path: "k.json".to_string() };
    assert!(matches!(token_step(&sa, 0), TokenStep::ServiceAccount { key_file_path } if key_file_path == "k.json"));
    assert!(matches!(token_step(&AuthConfig::Adc, 0), TokenStep::Adc));
}

#[test]
fn refreshed_token_replaces_stored_token() {
    let c = Config { auth: AuthConfig::OAuth { client_secret_path: "cs.json".to_string(), token: token("old", 1) } };
    let c = with_token(c, token("new", 99));
    match c.auth {
        AuthConfig::OAuth { client_secret_path, token } => {
            assert_eq!(client_secret_path, "cs.json");
            assert_eq!(token.access_token, "new");
            assert_eq!(token.expires_at, 99);
        }
        _ => panic!("method changed"),
    }
    let c = with_token(Config { auth: AuthConfig::Adc }, token("new", 99));
    assert!(matches!(c.auth, AuthConfig::Adc));
}

#[test]
fn token_endpoint_forms() {
    let s = secret("cid");
    assert_eq!(
        pairs(&refresh_form(&s, "rt")),
        vec![("client_id", "cid"), ("client_secret", "cid-secret"), ("refresh_token", "rt"), ("grant_type", "refresh_token")]
    );
    assert_eq!(
        pairs(&device_code_form(&s, &strings(&["s1", "s2"]))),
        vec![("client_id", "cid"), ("scope", "s1 s2")]
    );
    assert_eq!(
        pairs(&device_token_form(&s, "dc")),
        vec![
            ("client_id", "cid"),
            ("client_secret", "cid-secret"),
            ("device_code", "dc"),
            ("grant_type", "urn:ietf:params:oauth:grant-type:device_code"),
        ]
    );
    assert_eq!(
        pairs(&authorization_code_form("4/abc", &s)),
        vec![
            ("code", "4/abc"),
            ("client_id", "cid"),
            ("client_secret", "cid-secret"),
            ("redirect_uri", "http://localhost:8000/oauth2callback"),
            ("grant_type", "authorization_code"),
        ]
    );
    assert_eq!(
        pairs(&jwt_bearer_form("a.b.c")),
        vec![("grant_type", "urn:ietf:params:oauth:grant-type:jwt-bearer"), ("assertion", "a.b.c")]
    );
}

#[test]
fn token_request_errors() {
    assert_eq!(token_request_error("Token refresh failed", "{\"error\":\"x\"}").message, "Token refresh failed: {\"error\":\"x\"}");
    let d = DeviceFlowError { error: "authorization_pending".to_string(), error_description: "Precondition Required".to_string() };
    assert_eq!(device_poll_error("ignored", Some(d)).message, "authorization_pending: Precondition Required");
    assert_eq!(device_poll_error("Bad Gateway", None).message, "unknown_error: Bad Gateway");
}

#[test]
fn device_flow_poll_decisions() {
    let pending = GwsError::new("authorization_pending: Precondition Required".to_string());
    assert!(matches!(after_poll(Err(pending)), PollStep::Retry));
    let slow = GwsError::new("slow_down: Forbidden".to_string());
    assert!(matches!(after_poll(Err(slow)), PollStep::Retry));
    let denied = GwsError::new("access_denied: Forbidden".to_string());
    assert!(matches!(after_poll(Err(denied)), PollStep::Fail(e) if e.message == "access_denied: Forbidden"));
    assert!(matches!(after_poll(Ok(token("t", 5))), PollStep::Done(t) if t.access_token == "t"));
}

#[test]
fn device_flow_timing() {
    let mut start = DeviceFlowStart {
        device_code: "dc".to_string(),
        user_code: "ABCD-EFGH".to_string(),
        verification_url: "https://www.google.com/device".to_string(),
        expires_in: 1800,
        interval: 5,
    };
    assert_eq!(poll_delay_secs(&start), 5);
    assert_eq!(flow_lifetime_secs(&start), 1800);
    start.interval = 0;
    start.expires_in = -3;
    assert_eq!(poll_delay_secs(&start), 1);
    assert_eq!(flow_lifetime_secs(&start), 0);
    start.interval = -7;
    assert_eq!(poll_delay_secs(&start), 1);
}

#[test]
fn device_flow_fallback_and_timeout() {
    assert!(device_flow_unsupported(
        "Device flow start failed: {\"error\":\"invalid_client\",\"error_description\":\"Invalid client type. Only TVs and Limited Input devices are supported\"}"
    ));
    assert!(!device_flow_unsupported("Device flow start failed: invalid_client"));
    assert_eq!(device_flow_timeout().message, "Device authorization timed out");
}

#[test]
fn authorization_url() {
    assert_eq!(redirect_uri(), "http://localhost:8000/oauth2callback");
    let u = auth_url("id x", &strings(&["s1", "s2"]), "gws_1");
    assert_eq!(
        u,
        "https://accounts.google.com/o/oauth2/v2/auth?client_id=id%20x&redirect_uri=http%3A%2F%2Flocalhost%3A8000%2Foauth2callback&response_type=code&scope=s1%20s2&state=gws_1&access_type=offline&prompt=consent"
    );
}

#[test]
fn installed_app_state_and_prompt() {
    let s = installed_app_state();
    assert!(s.starts_with("gws_"));
    assert!(s.len() > 4 && s[4..].chars().all(|c| c.is_ascii_hexdigit() && !c.is_ascii_uppercase()));
    let p = installed_app_prompt("https://a/b");
    assert_eq!(
        show(&p),
        "{\"flow\":\"installed_app\",\"auth_url\":\"https://a/b\",\"redirect_uri\":\"http://localhost:8000/oauth2callback\",\"message\":\"Please open the auth_url in a browser and approve access. Waiting for redirect...\"}"
    );
    assert!(redirect_response().starts_with("HTTP/1.1 200 OK\r\nContent-Type: text/html\r\n\r\n<html>"));
}

#[test]
fn extract_code_reads_first_code() {
    let r = extract_code("GET /oauth2callback?code=4%2F0AbCd&state=gws_1 HTTP/1.1\r\n");
    assert_eq!(r.ok().unwrap(), "4/0AbCd");
    let r = extract_code("GET /oauth2callback?state=s&code=x&code=y HTTP/1.1");
    assert_eq!(r.ok().unwrap(), "x");
    let r = extract_code("GET /cb?code= HTTP/1.1");
    assert_eq!(r.ok().unwrap(), "");
    let r = extract_code("GET /cb?code=a=b HTTP/1.1");
    assert_eq!(r.ok().unwrap(), "a=b");
}

#[test]
fn extract_code_errors() {
    assert_eq!(extract_code("GET").err().unwrap().message, "Invalid request line");
    assert_eq!(extract_code("").err().unwrap().message, "Invalid request line");
    assert_eq!(extract_code("GET /oauth2callback HTTP/1.1").err().unwrap().message, "No query string in redirect");
    assert_eq!(extract_code("GET /cb?state=x HTTP/1.1").err().unwrap().message, "No authorization code in redirect");
    assert_eq!(extract_code("GET /cb?error=access_denied&code=x HTTP/1.1").err().unwrap().message, "OAuth error: access_denied");
    assert_eq!(extract_code("GET /cb?error=a%20b HTTP/1.1").err().unwrap().message, "OAuth error: a b");
    let bad = extract_code("GET /cb?code=%FF HTTP/1.1");
    assert_eq!(bad.err().unwrap().message, String::from_utf8(vec![0xFF]).err().unwrap().to_string());
    let bad = extract_code("GET /cb?error=a%C3 HTTP/1.1");
    assert_eq!(bad.err().unwrap().message, String::from_utf8(vec![b'a', 0xC3]).err().unwrap().to_string());
}

#[test]
fn redirect_carries_code_back() {
    for code in ["4/0AX y+z&=?", "plain", "", "ünï çødé"] {
        let line = format!(
            "GET /oauth2callback?code={}&state={} HTTP/1.1",
            urlencoding::encode(code),
            urlencoding::encode("gws_18c0 x")
        );
        assert_eq!(extract_code(&line).ok().unwrap(), code);
    }
}

#[test]
fn service_account_claims_fields() {
    let c = service_account_claims("sa@p.iam.gserviceaccount.com", &strings(&["s1", "s2"]), 1_700_000_000);
    assert_eq!(c.iss, "sa@p.iam.gserviceaccount.com");
    assert_eq!(c.sub, "sa@p.iam.gserviceaccount.com");
    assert_eq!(c.scope, "s1 s2");
    assert_eq!(c.aud, "https://oauth2.googleapis.com/token");
    assert_eq!((c.iat, c.exp), (1_700_000_000, 1_700_003_600));
}

#[test]
fn service_account_key_must_have_email_and_key() {
    let scopes = strings(&["s"]);
    let no_email = Json::Object(vec![("private_key".to_string(), Json::Str("k".to_string()))]);
    assert_eq!(service_account_assertion(&no_email, &scopes, 0).err().unwrap().message, "Missing client_email in service account key");
    let no_key = Json::Object(vec![("client_email".to_string(), Json::Str("a@b".to_string()))]);
    assert_eq!(service_account_assertion(&no_key, &scopes, 0).err().unwrap().message, "Missing private_key in service account key");
    let not_text = Json::Object(vec![
        ("client_email".to_string(), Json::Str("a@b".to_string())),
        ("private_key".to_string(), Json::Number("1".to_string())),
    ]);
    assert_eq!(service_account_assertion(&not_text, &scopes, 0).err().unwrap().message, "Missing private_key in service account key");
    let bad_key = Json::Object(vec![
        ("client_email".to_string(), Json::Str("a@b".to_string())),
        ("private_key".to_string(), Json::Str("not a key".to_string())),
    ]);
    let r = service_account_assertion(&bad_key, &scopes, 0);
    let expected = jsonwebtoken::EncodingKey::from_rsa_pem(b"not a key").err().unwrap().to_string();
    assert_eq!(r.err().unwrap().message, expected);
}

#[test]
fn adc_steps() {
    assert!(matches!(adc_step(Some("/k.json".to_string()), &strings(&["s"])), AdcStep::ServiceAccount { key_file_path } if key_file_path == "/k.json"));
    match adc_step(None, &strings(&["a b", "c"])) {
        AdcStep::Metadata { url } => assert_eq!(
            url,
            "http://169.254.169.254/computeMetadata/v1/instance/service-accounts/default/token?scopes=a%20b%2Cc"
        ),
        _ => panic!("expected the metadata server"),
    }
    assert_eq!(adc_error().message, "ADC failed: not running on GCP and GOOGLE_APPLICATION_CREDENTIALS not set");
}

#[test]
fn init_scopes_default_and_given() {
    assert_eq!(
        init_scopes(None),
        strings(&[
            "https://www.googleapis.com/auth/gmail.modify",
            "https://www.googleapis.com/auth/drive",
            "https://www.googleapis.com/auth/documents",
            "https://www.googleapis.com/auth/spreadsheets",
        ])
    );
    assert_eq!(init_scopes(Some(strings(&["x"]))), strings(&["x"]));
}

#[test]
fn init_configurations() {
    assert_eq!(oauth_secret_path(None).err().unwrap().message, "--client-secret is required for OAuth");
    assert_eq!(oauth_secret_path(Some("cs.json".to_string())).ok().unwrap(), "cs.json");
    let c = init_config(AuthMethod::Oauth, Some("cs.json".to_string()), None, Some(token("t", 9))).ok().unwrap();
    assert!(matches!(c.auth, AuthConfig::OAuth { client_secret_path, token } if client_secret_path == "cs.json" && token.access_token == "t"));
    assert_eq!(init_config(AuthMethod::Oauth, None, None, Some(token("t", 9))).err().unwrap().message, "--client-secret is required for OAuth");
    assert_eq!(init_config(AuthMethod::Oauth, Some("cs.json".to_string()), None, None).err().unwrap().message, "Device authorization timed out");
    let c = init_config(AuthMethod::ServiceAccount, None, Some("k.json".to_string()), None).ok().unwrap();
    assert!(matches!(c.auth, AuthConfig::ServiceAccount { key_file_path } if key_file_path == "k.json"));
    assert_eq!(
        init_config(AuthMethod::ServiceAccount, None, None, None).err().unwrap().message,
        "--key-file is required for service-account auth"
    );
    assert!(matches!(init_config(AuthMethod::Adc, None, None, None).ok().unwrap().auth, AuthConfig::Adc));
}

#[test]
fn auth_outputs() {
    assert_eq!(show(&authenticated_output()), "{\"authenticated\":true}");
    assert_eq!(show(&status_output(None)), "{\"authenticated\":false}");
    assert_eq!(show(&status_output(Some("Adc".to_string()))), "{\"authenticated\":true,\"method\":\"Adc\"}");
}

#[test]
fn time_identifier_is_lower_hex() {
    let id = uuid();
    assert!(!id.is_empty());
    assert!(id.chars().all(|c| c.is_ascii_digit() || ('a'..='f').contains(&c)));
    assert!(u128::from_str_radix(&id, 16).unwrap() > 1_600_000_000_000);
}

#[test]
fn loading_the_configuration() {
    let r = loaded_config("/c/config.json", false, Some(Config { auth: AuthConfig::Adc }));
    assert_eq!(r.err().unwrap().message, "Not authenticated. Run: gws auth init");
    let r = loaded_config("/c/config.json", true, None);
    assert_eq!(r.err().unwrap().message, "Failed to parse config at /c/config.json");
    let r = loaded_config("/c/config.json", true, Some(Config { auth: AuthConfig::Adc }));
    assert!(matches!(r.ok().unwrap().auth, AuthConfig::Adc));
}

#[test]
fn device_flow_deadline() {
    let start = DeviceFlowStart {
        device_code: "dc".to_string(),
        user_code: "u".to_string(),
        verification_url: "v".to_string(),
        expires_in: 2,
        interval: 5,
    };
    assert!(before_deadline(0, &start));
    assert!(before_deadline(1999, &start));
    assert!(!before_deadline(2000, &start));
    let expired = DeviceFlowStart { expires_in: -1, ..start };
    assert!(!before_deadline(0, &expired));
}

#[test]
fn endpoints_and_setup_errors() {
    assert_eq!(token_url(), "https://oauth2.googleapis.com/token");
    assert_eq!(device_code_url(), "https://oauth2.googleapis.com/device/code");
    assert_eq!(redirect_listen_address(), "127.0.0.1:8000");
    assert_eq!(client_secret_parse_error().message, "Failed to parse client_secret JSON");
    assert_eq!(redirect_bind_error().message, "Failed to bind localhost:8000 — is another process using it?");
}

#[test]
fn configuration_paths_under_a_base() {
    assert_eq!(config_dir_in(Some("/home/u/.config".to_string())).ok().unwrap(), "/home/u/.config/gws-cli");
    assert_eq!(
        config_path_in(Some("/home/u/.config/".to_string())).ok().unwrap(),
        "/home/u/.config/gws-cli/config.json"
    );
    assert_eq!(config_dir_in(None).err().unwrap().message, "Could not determine config directory");
    assert_eq!(config_path_in(None).err().unwrap().message, "Could not determine config directory");
    assert_eq!(installed_app_state_for("18c0ff"), "gws_18c0ff");
}

#[test]
fn status_method_is_debug_form() {
    let a = AuthConfig::OAuth {
        client_secret_path: "/h/it's \"cs\".json".to_string(),
        token: OAuthToken { access_token: "ya29.a'b".to_string(), refresh_token: "1//r\n".to_string(), expires_at: 1700000000 },
    };
    let expected = format!(
        "OAuth {{ client_secret_path: {:?}, token: OAuthToken {{ access_token: {:?}, refresh_token: {:?}, expires_at: 1700000000 }} }}",
        std::path::Path::new("/h/it's \"cs\".json"),
        "ya29.a'b",
        "1//r\n"
    );
    assert_eq!(describe_auth(&a), expected);
    let sa = AuthConfig::ServiceAccount { key_file_path: "k.json".to_string() };
    assert_eq!(describe_auth(&sa), "ServiceAccount { key_file_path: \"k.json\" }");
    assert_eq!(describe_auth(&AuthConfig::Adc), "Adc");
}

#[test]
fn service_account_key_refused_by_ring() {
    // A PEM block of the RSA private-key kind holding a DER sequence of one zero:
    // readable as PEM, but no RSA key.
    let kind = "RSA PRIVATE KEY";
    let empty_key = format!("-----BEGIN {}-----\nMAMCAQA=\n-----END {}-----\n", kind, kind);
    let key = Json::Object(vec![
        ("client_email".to_string(), Json::Str("a@b".to_string())),
        ("private_key".to_string(), Json::Str(empty_key.clone())),
    ]);
    let message = service_account_assertion(&key, &strings(&["s"]), 0).err().unwrap().message;
    assert!(jsonwebtoken::EncodingKey::from_rsa_pem(empty_key.as_bytes()).is_ok());
    assert!(message.starts_with("RSA key invalid: "));
}
