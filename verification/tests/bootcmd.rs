//! Running commands early in every boot.

use ci_modules::cc::bootcmd::{exit_outcome, handle_with, Fixture};
use ci_modules::value::{Node, Object};

/// A value written as JSON.
fn json(text: &str) -> Node {
    node(&serde_json::from_str(text).unwrap())
}

fn node(v: &serde_json::Value) -> Node {
    match v {
        serde_json::Value::Null => Node::Null,
        serde_json::Value::Bool(b) => Node::Bool(*b),
        serde_json::Value::Number(n) => match n.as_i128() {
            Some(i) => Node::Int(i),
            None => Node::Float(n.to_string()),
        },
        serde_json::Value::String(s) => Node::Text(s.clone()),
        serde_json::Value::Array(items) => Node::Array(items.iter().map(node).collect()),
        serde_json::Value::Object(map) => {
            let mut o = Object::new();
            for (key, value) in map {
                o.insert(key, node(value));
            }
            Node::Object(o)
        }
    }
}

fn object(v: Node) -> Object {
    match v {
        Node::Object(o) => o,
        _ => Object::new(),
    }
}

fn fixture() -> Fixture {
    Fixture { tmpdir: "/tmp/t".to_owned(), exit_code: Some(0), ..Fixture::default() }
}

fn run(cfg: &str, host: &mut Fixture) -> Result<(), String> {
    handle_with("bootcmd", &object(json(cfg)), &Some("i-test".to_owned()), host)
}

#[test]
fn a_config_without_the_key_runs_nothing() {
    let mut host = fixture();
    assert_eq!(run("{}", &mut host), Ok(()));
    assert!(host.calls.is_empty());
    assert_eq!(
        host.log,
        ["cc_bootcmd.py[DEBUG]: Skipping module named bootcmd, no 'bootcmd' key in configuration"]
    );
}

#[test]
fn the_commands_run_in_order_and_see_the_instance_id() {
    let mut host = fixture();
    run(r#"{"bootcmd": [["sh", "-c", "echo one"], "echo $INSTANCE_ID"]}"#, &mut host).unwrap();
    assert_eq!(
        host.calls,
        [
            "tempdir",
            "write_file /tmp/t/bootcmd.sh mode=0700",
            "sh /tmp/t/bootcmd.sh i-test timeout=3600",
            "remove_dir /tmp/t",
        ]
    );
    assert_eq!(host.scripts, ["#!/bin/sh\n'sh' '-c' 'echo one'\necho $INSTANCE_ID\n"]);
    assert_eq!(host.log, ["util.py[DEBUG]: Shellified 2 commands."]);
}

#[test]
fn a_failing_command_fails_the_module() {
    let mut host = Fixture { exit_code: Some(3), ..fixture() };
    let err = run(r#"{"bootcmd": ["exit 3"]}"#, &mut host).unwrap_err();
    assert!(err.contains("exited 3"), "{err}");
    assert_eq!(err, "Failed to run bootcmd module bootcmd: /bin/sh exited 3");
    assert_eq!(host.calls.last().unwrap(), "remove_dir /tmp/t");
}

#[test]
fn an_unshellifiable_bootcmd_never_reaches_the_shell() {
    let mut host = fixture();
    let err = run(r#"{"bootcmd": {"a": 1}}"#, &mut host).unwrap_err();
    assert!(err.contains("Expected list or tuple"), "{err}");
    assert!(host.calls.is_empty());
    assert_eq!(host.log, [format!("cc_bootcmd.py[WARNING]: Failed to shellify bootcmd: {err}")]);
}

#[test]
fn a_signal_is_no_exit_code() {
    assert_eq!(
        exit_outcome("x", None),
        Err("Failed to run bootcmd module x: /bin/sh exited on a signal".to_owned())
    );
    assert_eq!(exit_outcome("x", Some(0)), Ok(()));
    assert_eq!(
        exit_outcome("x", Some(-2)),
        Err("Failed to run bootcmd module x: /bin/sh exited -2".to_owned())
    );
}

#[test]
fn what_cannot_be_written_or_run_is_reported_under_the_name() {
    for call in ["tempdir", "write_file /tmp/t/bootcmd.sh mode=0700", "sh /tmp/t/bootcmd.sh i-test timeout=3600"] {
        let mut host = Fixture { errors: vec![(call.to_owned(), "no".to_owned())], ..fixture() };
        assert_eq!(
            run(r#"{"bootcmd": ["x"]}"#, &mut host),
            Err("Failed to run bootcmd module bootcmd: no".to_owned())
        );
    }
}
