//! The last message of a boot.

use ci_modules::cc::final_message::{
    handle_with, substitutions, template, used_fallback, Datasource, Fixture, FINAL_MESSAGE_DEF,
};
use ci_modules::value::{Node, Object};

/// A value written as JSON.
fn json(text: &str) -> Node {
    node(&serde_json::from_str(text).unwrap())
}

fn node(v: &serde_json::Value) -> Node {
    match v {
        serde_json::Value::Null => Node::Null,
        serde_json::Value::Bool(b) => Node::Bool(*b),
        serde_json::Value::Number(n) => match n.as_i128() {
            Some(i) => Node::Int(i),
            None => Node::Float(n.to_string()),
        },
        serde_json::Value::String(s) => Node::Text(s.clone()),
        serde_json::Value::Array(items) => Node::Array(items.iter().map(node).collect()),
        serde_json::Value::Object(map) => {
            let mut o = Object::new();
            for (key, value) in map {
                o.insert(key, node(value));
            }
            Node::Object(o)
        }
    }
}

fn object(v: Node) -> Object {
    match v {
        Node::Object(o) => o,
        _ => Object::new(),
    }
}

const DONE: &str = "/var/lib/cloud/instance/boot-finished";

fn source(dsname: &str, sys_cfg: &str) -> Datasource {
    Datasource {
        class_name: "DataSourceNoCloudNet".to_owned(),
        dsname: dsname.to_owned(),
        sys_cfg: object(json(sys_cfg)),
    }
}

fn fixture() -> Fixture {
    Fixture {
        up: "12.5".to_owned(),
        now: "Thu, 01 Jan 2026 00:00:00 +0000".to_owned(),
        release: "26.1".to_owned(),
        rendered: vec![
            (FINAL_MESSAGE_DEF.to_owned(), "the default".to_owned()),
            ("${datasource}/${VERSION}".to_owned(), "DataSourceNoCloudNet/26.1".to_owned()),
            ("from args".to_owned(), "from args".to_owned()),
        ],
        broken: vec![("## template: jinja\n{% for x in %}".to_owned(), "line 2".to_owned())],
        ..Fixture::default()
    }
}

fn run(args: &str, cfg: &str, host: &mut Fixture) -> Result<(), String> {
    handle_with(&json(args), &object(json(cfg)), &Some(source("NoCloud", "{}")), DONE, host)
}

#[test]
fn the_default_template_names_the_datasource_class() {
    let mut host = fixture();
    assert_eq!(run("[]", "{}", &mut host), Ok(()));
    assert_eq!(host.messages, ["the default"]);
    assert!(FINAL_MESSAGE_DEF.contains("Datasource {{datasource}}.  Up "));
    assert!(FINAL_MESSAGE_DEF.starts_with("## template: jinja\nCloud-init v. {{version}} finished at "));
    let names = substitutions("u", "t", "v", "d");
    assert_eq!(names.get("datasource"), Some(&Node::text("d")));
    assert_eq!(names.get("DATASOURCE"), Some(&Node::text("d")));
    assert_eq!(names.len(), 8);
}

#[test]
fn boot_finished_records_uptime_timestamp_and_version() {
    let mut host = fixture();
    assert_eq!(run("[]", "{}", &mut host), Ok(()));
    assert_eq!(
        host.written,
        [(DONE.to_owned(), "12.5 - Thu, 01 Jan 2026 00:00:00 +0000 - v. 26.1\n".to_owned())]
    );
}

#[test]
fn a_configured_message_replaces_the_default_and_sees_both_spellings() {
    let mut host = fixture();
    let cfg = r#"{"final_message": "  ${datasource}/${VERSION}  "}"#;
    assert_eq!(run("[]", cfg, &mut host), Ok(()));
    assert_eq!(host.messages, ["DataSourceNoCloudNet/26.1"]);
}

#[test]
fn a_whitespace_only_message_falls_back_to_the_default() {
    let mut host = fixture();
    assert_eq!(run("[]", r#"{"final_message": " \n\t"}"#, &mut host), Ok(()));
    assert_eq!(host.messages, ["the default"]);
    assert_eq!(template(&Node::Null, &object(json(r#"{"final_message": "\u001c \u001f"}"#))), FINAL_MESSAGE_DEF);
}

#[test]
fn module_args_win_over_the_config_key() {
    let mut host = fixture();
    let cfg = r#"{"final_message": "from config"}"#;
    assert_eq!(run(r#"["from args", "ignored"]"#, cfg, &mut host), Ok(()));
    assert_eq!(host.messages, ["from args"]);
    assert_eq!(template(&json("[5]"), &object(json(cfg))), "5");
}

#[test]
fn a_broken_template_is_logged_but_does_not_fail_the_module() {
    let mut host = fixture();
    let cfg = r###"{"final_message": "## template: jinja\n{% for x in %}"}"###;
    assert_eq!(run("[]", cfg, &mut host), Ok(()));
    assert_eq!(host.warnings, ["Failed to render templated final message: line 2"]);
    assert!(host.written[0].1.ends_with(" - v. 26.1\n"));
    let mut host = fixture();
    assert_eq!(run("[]", r#"{"final_message": "unknown"}"#, &mut host), Ok(()));
    assert_eq!(host.warnings, ["Failed to render final message template"]);
}

#[test]
fn a_missing_instance_directory_is_logged_not_fatal() {
    let mut host = fixture();
    host.unwritable.push(DONE.to_owned());
    assert_eq!(run("[]", "{}", &mut host), Ok(()));
    assert_eq!(host.warnings, [format!("Failed to write boot finished file {DONE}")]);
}

#[test]
fn the_fallback_datasource_warning_is_only_for_an_unconfigured_none() {
    assert!(used_fallback(&source("None", "{}")));
    assert!(!used_fallback(&source("None", r#"{"datasource_list": ["None"]}"#)));
    assert!(used_fallback(&source("None", r#"{"datasource_list": ["NoCloud", "None"]}"#)));
    assert!(!used_fallback(&source("NoCloud", r#"{"datasource_list": ["NoCloud", "None"]}"#)));
    let mut host = fixture();
    let ds = Some(source("None", "{}"));
    assert_eq!(handle_with(&Node::Null, &Object::new(), &ds, DONE, &mut host), Ok(()));
    assert_eq!(host.warnings, ["Used fallback datasource"]);
}

#[test]
fn no_datasource_is_an_error_once_everything_is_done() {
    let mut host = fixture();
    assert_eq!(
        handle_with(&Node::Null, &Object::new(), &None, DONE, &mut host),
        Err("'NoneType' object has no attribute 'dsname'".to_owned())
    );
    assert_eq!(host.written.len(), 1);
}
