//! Setting up puppet.

use ci_modules::cc::puppet::{clean, handle_with, Constants, Fixture, AIO_INSTALL_URL};
use ci_modules::value::{Node, Object};

/// A value written as JSON.
fn json(text: &str) -> Node {
    node(&serde_json::from_str(text).unwrap())
}

fn node(v: &serde_json::Value) -> Node {
    match v {
        serde_json::Value::Null => Node::Null,
        serde_json::Value::Bool(b) => Node::Bool(*b),
        serde_json::Value::Number(n) => match n.as_i128() {
            Some(i) => Node::Int(i),
            None => Node::Float(n.to_string()),
        },
        serde_json::Value::String(s) => Node::Text(s.clone()),
        serde_json::Value::Array(items) => Node::Array(items.iter().map(node).collect()),
        serde_json::Value::Object(map) => {
            let mut o = Object::new();
            for (key, value) in map {
                o.insert(key, node(value));
            }
            Node::Object(o)
        }
    }
}

fn object(v: Node) -> Object {
    match v {
        Node::Object(o) => o,
        _ => Object::new(),
    }
}

fn run(cfg: Node) -> (Fixture, Result<(), String>) {
    let mut host = fixture();
    let outcome = handle_with("puppet", &object(cfg), &mut host);
    (host, outcome)
}

fn fixture() -> Fixture {
    Fixture {
        stdout: vec![
            (
                "subp puppet config print config capture=True".to_owned(),
                "/etc/puppet/puppet.conf\n".to_owned(),
            ),
            (
                "subp puppet config print ssldir capture=True".to_owned(),
                "/var/lib/puppet/ssl\n".to_owned(),
            ),
            (
                "subp puppet config print csr_attributes capture=True".to_owned(),
                "/etc/puppet/csr_attributes.yaml\n".to_owned(),
            ),
        ],
        files: vec![(
            "/etc/puppet/puppet.conf".to_owned(),
            "[main]\norig = yes\n".to_owned(),
        )],
        fqdn: "host.example.com".to_owned(),
        iid: "i-abc".to_owned(),
        tmpdir: "/var/tmp/t".to_owned(),
        unreadable: vec![(
            "[main]\nfoo = bar\nmore".to_owned(),
            "Source contains parsing errors: '/etc/puppet/puppet.conf'\n\t[line  3]: 'more'".to_owned(),
        )],
        refused: vec![("default".to_owned(), "No section: 'default'".to_owned())],
        rendered: vec![
            "[main]\norig = yes\na = 1\n\n".to_owned(),
            "[main]\norig = yes\na = 1\n\n[agent]\nb = 2\n\n".to_owned(),
        ],
        yaml: vec![("{'custom_attributes': {'a': 'b'}}".to_owned(), "custom_attributes:\n  a: b\n".to_owned())],
        ..Fixture::default()
    }
}


#[test]
fn no_puppet_key_is_a_debug_line_and_nothing_else() {
    let (host, outcome) = run(json(r#"{}"#));
    assert!(outcome.is_ok());
    assert!(host.calls.is_empty());
    assert_eq!(
        host.log,
        ["cc_puppet.py[DEBUG]: Skipping module named puppet, no 'puppet' configuration found"]
    );
}

#[test]
fn the_package_names_are_tried_in_order_until_one_installs() {
    let mut host = fixture();
    host.failures.push((
        "install_packages ['puppet-agent']".to_owned(),
        "nope".to_owned(),
    ));
    handle_with("puppet", &object(json(r#"{"puppet": {}}"#)), &mut host).unwrap();
    assert_eq!(host.calls[0], "install_packages ['puppet-agent']");
    assert_eq!(host.calls[1], "install_packages ['puppet']");
}

#[test]
fn every_package_failing_is_a_warning_rather_than_an_error() {
    let mut host = fixture();
    for name in ["puppet-agent", "puppet"] {
        host.failures
            .push((format!("install_packages ['{name}']"), "nope".to_owned()));
    }
    handle_with("puppet", &object(json(r#"{"puppet": {}}"#)), &mut host).unwrap();
    assert_eq!(host.calls[0], "install_packages ['puppet-agent']");
    assert_eq!(host.calls[1], "install_packages ['puppet']");
    assert!(host
        .log
        .iter()
        .any(|line| line.contains("No installable puppet package in any of")));
    assert_eq!(
        host.log,
        [
            "cc_puppet.py[DEBUG]: Attempting to install puppet latest from packages",
            "cc_puppet.py[WARNING]: No installable puppet package in any of: puppet-agent, puppet",
        ]
    );
}

#[test]
fn puppet_config_print_runs_even_when_every_path_is_configured() {
    let (host, outcome) = run(json(r#"{"puppet": {"install": false, "conf_file": "/c", "ssl_dir": "/s", "csr_attributes_path": "/a"}}"#));
    assert!(outcome.is_ok());
    assert_eq!(
        host.calls
            .iter()
            .filter(|call| call.contains("config print"))
            .count(),
        3
    );
}

#[test]
fn the_backup_is_taken_once_per_section_not_once_per_run() {
    let (host, outcome) = run(json(r#"{"puppet": {"install": false, "conf": {"main": {"a": "1"}, "agent": {"b": "2"}}}}"#));
    assert!(outcome.is_ok());
    assert_eq!(
        host.calls
            .iter()
            .filter(|c| c.starts_with("rename "))
            .count(),
        2
    );
    let old = &host
        .written
        .iter()
        .find(|(path, _)| path == "/etc/puppet/puppet.conf.old")
        .unwrap()
        .1;
    assert_eq!(old, "[main]\norig = yes\na = 1\n\n");
}

#[test]
fn certname_expands_the_fqdn_and_instance_id_and_is_downcased() {
    let (host, outcome) = run(json(r#"{"puppet": {"install": false, "conf": {"agent": {"certname": "%f-%i-UPPER"}}}}"#));
    assert!(outcome.is_ok());
    assert_eq!(
        host.settings,
        [("agent.certname".to_owned(), "host.example.com-i-abc-upper".to_owned())]
    );
}

#[test]
fn a_lowercase_default_section_is_the_error_upstream_raises() {
    let (_, outcome) = run(json(r#"{"puppet": {"install": false, "conf": {"default": {"a": "1"}}}}"#));
    assert_eq!(outcome.unwrap_err(), "No section: 'default'");
}

#[test]
fn a_continuation_line_in_the_existing_file_fails_to_parse() {
    let mut host = fixture();
    host.files[0].1 = "[main]\nfoo = bar\n\tmore\n".to_owned();
    let outcome = handle_with("puppet", &object(json(r#"{"puppet": {"install": false, "conf": {"main": {"a": "1"}}}}"#)), &mut host);
    assert!(outcome.unwrap_err().contains("[line  3]: 'more'"));
}

#[test]
fn exec_args_of_the_wrong_type_falls_back_to_the_default_args() {
    let (host, outcome) = run(json(r#"{"puppet": {"install": false, "exec": true, "exec_args": 5, "start_service": false}}"#));
    assert!(outcome.is_ok());
    assert!(host
        .calls
        .contains(&"subp puppet agent --test capture=False".to_owned()));
}

#[test]
fn csr_attributes_are_dumped_at_pyyamls_own_indent_of_two() {
    let (host, outcome) = run(json(r#"{"puppet": {"install": false, "start_service": false, "csr_attributes": {"custom_attributes": {"a": "b"}}}}"#));
    assert!(outcome.is_ok());
    assert_eq!(host.written[0].1, "custom_attributes:\n  a: b\n");
}

#[test]
fn a_version_with_install_false_does_nothing_but_warn() {
    let (host, outcome) = run(json(r#"{"puppet": {"install": false, "version": "7", "start_service": false}}"#));
    assert!(outcome.is_ok());
    assert!(host.log.iter().any(|line| line.contains("doing nothing")));
    assert!(!host
        .calls
        .iter()
        .any(|call| call.starts_with("install_packages")));
}

#[test]
fn the_paths_of_certificates_follow_from_their_directory() {
    let at = Constants::new("/c", "/s/", "/a");
    assert_eq!(at.ssl_cert_dir, "/s/certs");
    assert_eq!(at.ssl_cert_path, "/s/certs/ca.pem");
    assert_eq!(at.conf_path, "/c");
    assert_eq!(at.csr_attributes_path, "/a");
}

#[test]
fn every_line_is_cleaned_at_its_start_only() {
    assert_eq!(clean("[main]\r\n  a = 1  \n\tb\n"), "[main]\na = 1  \nb");
    assert_eq!(clean(""), "");
}

#[test]
fn a_certificate_is_placed_with_its_directories() {
    let (host, outcome) = run(json(r#"{"puppet": {"install": false, "start_service": false, "conf": {"ca_cert": "PEM"}}}"#));
    assert!(outcome.is_ok());
    assert_eq!(
        host.calls[4..],
        [
            "ensure_dir /var/lib/puppet/ssl mode=0771",
            "chownbyname /var/lib/puppet/ssl puppet root",
            "ensure_dir /var/lib/puppet/ssl/certs",
            "chownbyname /var/lib/puppet/ssl/certs puppet root",
            "write_file /var/lib/puppet/ssl/certs/ca.pem",
            "chownbyname /var/lib/puppet/ssl/certs/ca.pem puppet root",
            "rename /etc/puppet/puppet.conf /etc/puppet/puppet.conf.old",
            "write_file /etc/puppet/puppet.conf",
        ]
    );
}

#[test]
fn the_installer_of_everything_is_fetched_and_run() {
    let mut host = fixture();
    host.stdout.push((format!("readurl {AIO_INSTALL_URL}"), "script".to_owned()));
    let cfg = json(r#"{"puppet": {"install_type": "aio", "version": "7", "collection": "c", "start_service": false}}"#);
    assert!(handle_with("puppet", &object(cfg), &mut host).is_ok());
    assert_eq!(host.calls[1], "tempdir");
    assert_eq!(host.calls[2], "write_file /var/tmp/t/puppet-install mode=0700");
    assert_eq!(host.calls[3], "subp /var/tmp/t/puppet-install -v 7 -c c --cleanup capture=False");
    assert_eq!(host.calls[4], "subp /opt/puppetlabs/bin/puppet config print config capture=True");
    assert_eq!(host.written[0].1, "script");
}

#[test]
fn an_unknown_way_to_install_runs_no_agent() {
    let (host, outcome) = run(json(r#"{"puppet": {"install_type": "gem", "exec": true, "start_service": false}}"#));
    assert!(outcome.is_ok());
    assert!(host.calls.iter().all(|call| call.contains("config print")));
}

#[test]
fn a_version_is_asked_for_with_the_package() {
    let (host, _) = run(json(r#"{"puppet": {"version": "7", "package_name": "p"}}"#));
    assert_eq!(host.calls[0], "install_packages [['p', '7']]");
    let (host, _) = run(json(r#"{"puppet": {}}"#));
    assert_eq!(host.calls[4], "manage_service enable puppet-agent.service");
    assert_eq!(host.calls[5], "manage_service start puppet-agent.service");
}

#[test]
fn what_is_no_mapping_is_an_error() {
    let (host, outcome) = run(json(r#"{"puppet": "x"}"#));
    assert_eq!(outcome.unwrap_err(), "argument of type 'str' is not a container or iterable");
    assert!(host.calls.is_empty());
    let (_, outcome) = run(json(r#"{"puppet": {"install": false, "conf": {"main": "x"}}}"#));
    assert_eq!(outcome.unwrap_err(), "'str' object has no attribute 'items'");
}

#[test]
fn what_cannot_be_used_is_warned_of() {
    let (host, outcome) = run(json(r#"{"puppet": {"install_type": "gem", "exec": true, "start_service": false}}"#));
    assert!(outcome.is_ok());
    assert_eq!(host.log[1], "cc_puppet.py[WARNING]: Unknown puppet install type 'gem'");
    assert_eq!(host.log.len(), 2);
    let (host, _) = run(json(r#"{"puppet": {"install": false, "exec": true, "exec_args": 5, "start_service": false}}"#));
    assert_eq!(
        host.log,
        [
            "cc_puppet.py[DEBUG]: Running puppet-agent",
            "cc_puppet.py[WARNING]: Unknown type <class 'int'> provided for puppet 'exec_args' expected list, tuple, or string",
        ]
    );
    let mut host = fixture();
    for name in ["puppet-agent", "puppet"] {
        host.failures.push((format!("manage_service enable {name}.service"), "nope".to_owned()));
    }
    handle_with("puppet", &object(json(r#"{"puppet": {"install": false}}"#)), &mut host).unwrap();
    assert_eq!(
        host.log,
        ["cc_puppet.py[WARNING]: Could not 'enable' any of the following services: puppet-agent, puppet"]
    );
}
