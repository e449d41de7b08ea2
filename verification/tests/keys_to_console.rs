//! Putting the fingerprints of the machine's keys on its console.

use ci_modules::cc::keys_to_console::{handle_with, helper_tool_path, Fixture};
use ci_modules::cc::CmdError;
use ci_modules::value::{Node, Object};

/// A value written as JSON.
fn json(text: &str) -> Node {
    node(&serde_json::from_str(text).unwrap())
}

fn node(v: &serde_json::Value) -> Node {
    match v {
        serde_json::Value::Null => Node::Null,
        serde_json::Value::Bool(b) => Node::Bool(*b),
        serde_json::Value::Number(n) => match n.as_i128() {
            Some(i) => Node::Int(i),
            None => Node::Float(n.to_string()),
        },
        serde_json::Value::String(s) => Node::Text(s.clone()),
        serde_json::Value::Array(items) => Node::Array(items.iter().map(node).collect()),
        serde_json::Value::Object(map) => {
            let mut o = Object::new();
            for (key, value) in map {
                o.insert(key, node(value));
            }
            Node::Object(o)
        }
    }
}

const HELPER: &str = "/usr/lib/cloud-init/write-ssh-key-fingerprints";

fn run(cfg: &Node, host: &mut Fixture) -> Result<(), String> {
    let cfg = match cfg {
        Node::Object(map) => map.clone(),
        _ => Object::new(),
    };
    handle_with("keys_to_console", &cfg, "/usr/lib", host)
}

#[test]
fn what_the_helper_printed_goes_to_the_console_with_one_newline() {
    let mut host = Fixture {
        present: vec![HELPER.to_owned()],
        commands: vec![(
            format!("{HELPER}  "),
            Ok("-----BEGIN SSH HOST KEY KEYS-----\nssh-ed25519 AAA\n\n".to_owned()),
        )],
        ..Fixture::default()
    };
    let outcome = run(&json(r#"{}"#), &mut host);
    assert!(outcome.is_ok());
    assert_eq!(
        host.console[0],
        "-----BEGIN SSH HOST KEY KEYS-----\nssh-ed25519 AAA\n"
    );
}

#[test]
fn the_two_blacklists_are_one_comma_joined_argument_each() {
    let mut host = Fixture {
        present: vec![HELPER.to_owned()],
        commands: vec![(
            format!("{HELPER} ssh-dss,ecdsa-sha2-nistp256 ssh-dss"),
            Ok(String::new()),
        )],
        ..Fixture::default()
    };
    let outcome = run(
        &json(r#"{"ssh_fp_console_blacklist": ["ssh-dss", "ecdsa-sha2-nistp256"], "ssh_key_console_blacklist": "ssh-dss"}"#),
        &mut host,
    );
    assert!(outcome.is_ok());
    assert!(host.calls.iter().any(|call| call
        == &format!("subp {HELPER} ssh-dss,ecdsa-sha2-nistp256 ssh-dss")));
}

#[test]
fn emit_keys_to_console_false_stops_before_the_helper_is_looked_for() {
    let mut host = Fixture::default();
    let outcome = run(
        &json(r#"{"ssh": {"emit_keys_to_console": false}}"#),
        &mut host,
    );
    assert!(outcome.is_ok());
    assert!(host.calls.is_empty());
    assert_eq!(
        host.log,
        ["cc_keys_to_console.py[DEBUG]: Skipping module named \
          keys_to_console, logging of SSH host keys disabled"]
    );
}

#[test]
fn a_missing_helper_is_a_warning_and_nothing_else() {
    let mut host = Fixture::default();
    let outcome = run(&json(r#"{}"#), &mut host);
    assert!(outcome.is_ok());
    assert_eq!(host.calls, [format!("exists {HELPER}")]);
    assert_eq!(
        host.log,
        [format!(
            "cc_keys_to_console.py[WARNING]: Unable to activate module \
             keys_to_console, helper tool not found at {HELPER}"
        )]
    );
}

#[test]
fn a_helper_that_fails_is_logged_and_re_raised() {
    let mut host = Fixture {
        present: vec![HELPER.to_owned()],
        commands: vec![(
            format!("{HELPER}  "),
            Err(CmdError {
                command: "x".to_owned(),
                exit_code: Some(1),
                stdout: String::new(),
                stderr: "no keys\n".to_owned(),
            }),
        )],
        ..Fixture::default()
    };
    let outcome = run(&json(r#"{}"#), &mut host);
    assert!(outcome.is_err());
    assert!(host.console.is_empty());
    assert!(host.log.iter().any(|line| line
        == "cc_keys_to_console.py[WARNING]: Writing keys to the system \
            console failed!"));
}

#[test]
fn an_ssh_key_that_is_not_a_mapping_has_no_get() {
    let mut host = Fixture::default();
    assert_eq!(
        run(&json(r#"{"ssh": "yes"}"#), &mut host),
        Err("'str' object has no attribute 'get'".to_owned())
    );
    assert_eq!(
        run(&json(r#"{"ssh": null}"#), &mut host),
        Err("'NoneType' object has no attribute 'get'".to_owned())
    );
}

#[test]
fn the_helper_is_in_its_directory() {
    assert_eq!(helper_tool_path("/usr/libexec"), "/usr/libexec/cloud-init/write-ssh-key-fingerprints");
}

#[test]
fn a_list_with_a_number_in_it_cannot_be_joined() {
    let mut host = Fixture {
        present: vec![HELPER.to_owned()],
        ..Fixture::default()
    };
    let outcome = run(&json(r#"{"ssh_key_console_blacklist": ["a", 5]}"#), &mut host);
    assert_eq!(outcome, Err("sequence item 1: expected str instance, int found".to_owned()));
    assert_eq!(host.calls.len(), 1);
    assert_eq!(host.log, ["cc_keys_to_console.py[WARNING]: Writing keys to the system console failed!"]);
}
