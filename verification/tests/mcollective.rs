//! Setting up mcollective.

use ci_modules::cc::mcollective::{handle_with, Fixture, OsError, SERVER_CFG};
use ci_modules::value::{Node, Object};

/// A value written as JSON.
fn json(text: &str) -> Node {
    node(&serde_json::from_str(text).unwrap())
}

fn node(v: &serde_json::Value) -> Node {
    match v {
        serde_json::Value::Null => Node::Null,
        serde_json::Value::Bool(b) => Node::Bool(*b),
        serde_json::Value::Number(n) => match n.as_i128() {
            Some(i) => Node::Int(i),
            None => Node::Float(n.to_string()),
        },
        serde_json::Value::String(s) => Node::Text(s.clone()),
        serde_json::Value::Array(items) => Node::Array(items.iter().map(node).collect()),
        serde_json::Value::Object(map) => {
            let mut o = Object::new();
            for (key, value) in map {
                o.insert(key, node(value));
            }
            Node::Object(o)
        }
    }
}

fn object(v: Node) -> Object {
    match v {
        Node::Object(o) => o,
        _ => Object::new(),
    }
}

fn run_with(cfg: Node, host: &mut Fixture) -> Result<(), String> {
    handle_with("mcollective", &object(cfg), host)
}

fn run(cfg: Node) -> (Fixture, Result<(), String>) {
    let mut host = Fixture::default();
    let result = run_with(cfg, &mut host);
    (host, result)
}

#[test]
fn mcollective_no_key_is_a_skip() {
    let (host, result) = run(json(r#"{"other": 1}"#));
    assert!(result.is_ok());
    assert!(host.calls.is_empty());
    assert!(host.log[0].contains("no 'mcollective' key in configuration"));
}

#[test]
fn an_empty_mapping_installs_and_restarts_only() {
    let (host, result) = run(json(r#"{"mcollective": {}}"#));
    assert!(result.is_ok());
    assert_eq!(
        host.calls,
        [
            "install_packages ['mcollective']",
            "subp service mcollective restart",
        ]
    );
}

#[test]
fn a_missing_server_cfg_starts_from_an_empty_config() {
    let (host, result) = run(json(r#"{"mcollective": {"conf": {"a": "b"}}}"#));
    assert!(result.is_ok());
    assert_eq!(
        host.calls,
        [
            "install_packages ['mcollective']",
            "load_binary_file /etc/mcollective/server.cfg",
            "copy /etc/mcollective/server.cfg /etc/mcollective/server.cfg.old",
            "write_file /etc/mcollective/server.cfg mode=0644",
            "subp service mcollective restart",
        ]
    );
    assert_eq!(host.settings, ["a = b"]);
    assert!(host
        .log
        .iter()
        .any(|line| line.contains("starting with an empty config")));
}

#[test]
fn an_existing_file_is_merged_and_copied_aside() {
    let mut host = Fixture {
        files: vec![(
            SERVER_CFG.to_owned(),
            "# lead\nidentity = old  # keep\n[plugin]\nx = 1\n".to_owned(),
        )],
        sections: vec!["plugin".to_owned()],
        rendered: "whole file\n".to_owned(),
        ..Fixture::default()
    };
    let result = run_with(
        json(r#"{"mcollective": {"conf": {"identity": "new", "plugin": {"y": 2}}}}"#),
        &mut host,
    );
    assert!(result.is_ok());
    assert_eq!(
        host.calls[2],
        "copy /etc/mcollective/server.cfg /etc/mcollective/server.cfg.old"
    );
    assert_eq!(host.settings, ["identity = new", "[plugin] y = 2"]);
    assert_eq!(host.written[0].1, b"whole file\n");
}

#[test]
fn the_certificates_set_the_security_provider() {
    let (host, result) = run(json(r#"{"mcollective": {"conf": {"public-cert": "PUB", "private-cert": "PRI"}}}"#));
    assert!(result.is_ok());
    assert_eq!(
        host.calls,
        [
            "install_packages ['mcollective']",
            "load_binary_file /etc/mcollective/server.cfg",
            "write_file /etc/mcollective/ssl/server-public.pem mode=0644",
            "write_file /etc/mcollective/ssl/server-private.pem mode=0600",
            "copy /etc/mcollective/server.cfg /etc/mcollective/server.cfg.old",
            "write_file /etc/mcollective/server.cfg mode=0644",
            "subp service mcollective restart",
        ]
    );
    assert_eq!(host.written[0].1, b"PUB");
    assert_eq!(host.written[1].1, b"PRI");
    assert_eq!(
        host.settings,
        [
            "plugin.ssl_server_public = /etc/mcollective/ssl/server-public.pem",
            "securityprovider = ssl",
            "plugin.ssl_server_private = /etc/mcollective/ssl/server-private.pem",
            "securityprovider = ssl",
        ]
    );
}

#[test]
fn a_non_string_scalar_is_stringified() {
    let (host, result) = run(json(r#"{"mcollective": {"conf": {"a": 5, "b": true, "c": null, "d": ["x", "y"]}}}"#));
    assert!(result.is_ok());
    assert_eq!(host.settings, ["a = 5", "b = True", "c = None", "d = ['x', 'y']"]);
}

#[test]
fn a_scalar_mcollective_is_subscripted_anyway() {
    let (host, result) = run(json(r#"{"mcollective": "nothing here"}"#));
    assert!(result.is_ok());
    assert_eq!(
        host.calls,
        [
            "install_packages ['mcollective']",
            "subp service mcollective restart",
        ]
    );
    let (host, result) = run(json(r#"{"mcollective": "conf"}"#));
    assert_eq!(
        result,
        Err("string indices must be integers, not 'str'".to_owned())
    );
    assert_eq!(host.calls, ["install_packages ['mcollective']"]);
    let (_, result) = run(json(r#"{"mcollective": 5}"#));
    assert_eq!(
        result,
        Err("argument of type 'int' is not a container or iterable".to_owned())
    );
}

#[test]
fn a_non_mapping_conf_dies_after_the_old_file_is_read() {
    let (host, result) = run(json(r#"{"mcollective": {"conf": "hello"}}"#));
    assert_eq!(
        result,
        Err("'str' object has no attribute 'items'".to_owned())
    );
    assert_eq!(
        host.calls,
        [
            "install_packages ['mcollective']",
            "load_binary_file /etc/mcollective/server.cfg",
        ]
    );
}

#[test]
fn a_server_cfg_that_does_not_parse_stops_the_module() {
    let mut host = Fixture {
        files: vec![(SERVER_CFG.to_owned(), "garbage\n".to_owned())],
        unreadable: Some(
            "Invalid line ('garbage') (matched as neither section nor keyword) at line 1.".to_owned(),
        ),
        ..Fixture::default()
    };
    let result = run_with(json(r#"{"mcollective": {"conf": {}}}"#), &mut host);
    assert_eq!(
        result,
        Err("Invalid line ('garbage') (matched as neither \
             section nor keyword) at line 1."
            .to_owned())
    );
}

#[test]
fn a_read_failure_that_is_not_enoent_is_reraised() {
    let mut host = Fixture {
        failures: vec![(SERVER_CFG.to_owned(), 13)],
        ..Fixture::default()
    };
    let result = run_with(json(r#"{"mcollective": {"conf": {}}}"#), &mut host);
    assert_eq!(
        result,
        Err("[Errno 13] Permission denied: \
             '/etc/mcollective/server.cfg'"
            .to_owned())
    );
}

#[test]
fn a_non_string_certificate_raises_before_the_file_is_written() {
    let (host, result) = run(json(r#"{"mcollective": {"conf": {"public-cert": 5}}}"#));
    assert_eq!(
        result,
        Err("'int' object has no attribute 'encode'".to_owned())
    );
    assert!(host.written.is_empty());
}

#[test]
fn a_non_ascii_value_survives_the_merge_and_kills_the_write() {
    let mut host = Fixture {
        unwritable: Some(
            "'ascii' codec can't encode character \
             '\\xe9' in position 14: ordinal not in range(128)"
                .to_owned(),
        ),
        ..Fixture::default()
    };
    let result = run_with(json(r#"{"mcollective": {"conf": {"identity": "café"}}}"#), &mut host);
    assert_eq!(
        result,
        Err("'ascii' codec can't encode character \
             '\\xe9' in position 14: ordinal not in range(128)"
            .to_owned())
    );
    assert_eq!(
        host.calls.last().unwrap(),
        "copy /etc/mcollective/server.cfg /etc/mcollective/server.cfg.old"
    );
}

#[test]
fn a_restart_failure_is_the_module_failure() {
    let mut host = Fixture {
        errors: vec![(
            "subp service mcollective restart".to_owned(),
            "no such service".to_owned(),
        )],
        ..Fixture::default()
    };
    let result = run_with(json(r#"{"mcollective": {}}"#), &mut host);
    assert!(result.unwrap_err().contains("no such service"));
}

#[test]
fn a_file_that_is_not_there_has_its_error() {
    let error = OsError::not_found("/x");
    assert_eq!(error.errno, 2);
    assert_eq!(error.display, "[Errno 2] No such file or directory: '/x'");
}

#[test]
fn a_section_that_is_not_there_is_added() {
    let (host, result) = run(json(r#"{"mcollective": {"conf": {"plugin": {"a": [1, "x"]}}}}"#));
    assert!(result.is_ok());
    assert_eq!(host.settings, ["[plugin]", "[plugin] a = [1, 'x']"]);
}

#[test]
fn a_failed_copy_ends_it_unless_there_was_nothing_to_copy() {
    let mut host = Fixture {
        files: vec![(SERVER_CFG.to_owned(), "a = b\n".to_owned())],
        ..Fixture::default()
    };
    assert!(run_with(json(r#"{"mcollective": {"conf": {}}}"#), &mut host).is_ok());
    let mut host = Fixture {
        errors: vec![("install_packages ['mcollective']".to_owned(), "no".to_owned())],
        ..Fixture::default()
    };
    assert_eq!(run_with(json(r#"{"mcollective": {}}"#), &mut host), Err("no".to_owned()));
    assert_eq!(host.calls.len(), 1);
}
