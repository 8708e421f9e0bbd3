use gws_cli::json::Json;
use gws_cli::schema::{build_schema, command_schema, ArgInfo, CommandInfo};

fn show(j: &Json) -> String {
    match j {
        Json::Null => "null".to_string(),
        Json::Bool(b) => b.to_string(),
        Json::Number(n) => n.clone(),
        Json::Str(s) => format!("{:?}", s),
        Json::Array(v) => format!("[{}]", v.iter().map(show).collect::<Vec<_>>().join(",")),
        Json::Object(f) => format!(
            "{{{}}}",
            f.iter().map(|(k, v)| format!("{:?}:{}", k, show(v))).collect::<Vec<_>>().join(",")
        ),
    }
}

fn leaf(name: &str, about: Option<&str>, args: Vec<ArgInfo>) -> CommandInfo {
    CommandInfo { name: name.to_string(), about: about.map(|s| s.to_string()), args, subcommands: vec![] }
}

fn arg(id: &str, required: bool, help: Option<&str>, default: Option<&str>, action: &str) -> ArgInfo {
    ArgInfo {
        id: id.to_string(),
        required,
        help: help.map(|s| s.to_string()),
        default: default.map(|s| s.to_string()),
        action: action.to_string(),
    }
}

#[test]
fn command_without_subcommands() {
    let c = leaf(
        "trash",
        Some("Move a message to trash"),
        vec![arg("id", true, None, None, "Set"), arg("help", false, Some("Print help"), None, "Help")],
    );
    assert_eq!(
        show(&command_schema(&c)),
        "{\"about\":\"Move a message to trash\",\"args\":{\"id\":{\"required\":true,\"action\":\"Set\"},\"help\":{\"required\":false,\"help\":\"Print help\",\"action\":\"Help\"}}}"
    );
    let bare = leaf("labels", None, vec![]);
    assert_eq!(show(&command_schema(&bare)), "{\"args\":{}}");
}

#[test]
fn argument_default_is_listed() {
    let c = leaf("x", None, vec![arg("mode", false, None, Some("fast"), "Set")]);
    assert_eq!(
        show(&command_schema(&c)),
        "{\"args\":{\"mode\":{\"required\":false,\"default\":\"fast\",\"action\":\"Set\"}}}"
    );
}

#[test]
fn schema_of_whole_program() {
    let status = leaf("status", Some("Check authentication status"), vec![]);
    let auth = CommandInfo {
        name: "auth".to_string(),
        about: Some("Authentication commands".to_string()),
        args: vec![],
        subcommands: vec![status],
    };
    let schema_cmd = leaf("schema", Some("Output JSON schema of all available commands"), vec![]);
    let root = CommandInfo {
        name: "gws".to_string(),
        about: Some("Agent-native CLI for Google Workspace".to_string()),
        args: vec![arg("version", false, None, None, "Version")],
        subcommands: vec![auth, schema_cmd],
    };
    assert_eq!(
        show(&build_schema(&root)),
        "{\"auth\":{\"about\":\"Authentication commands\",\"args\":{},\"subcommands\":{\"status\":{\"about\":\"Check authentication status\",\"args\":{}}}},\"schema\":{\"about\":\"Output JSON schema of all available commands\",\"args\":{}}}"
    );
    assert_eq!(show(&build_schema(&leaf("empty", None, vec![]))), "{}");
}
