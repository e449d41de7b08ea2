//! Setting up ansible.

use ci_modules::cc::ansible::{handle_with, su_command, validate_config, version_from, Fixture, Version};
use ci_modules::value::{Node, Object};

/// A value written as JSON.
fn json(text: &str) -> Node {
    node(&serde_json::from_str(text).unwrap())
}

fn node(v: &serde_json::Value) -> Node {
    match v {
        serde_json::Value::Null => Node::Null,
        serde_json::Value::Bool(b) => Node::Bool(*b),
        serde_json::Value::Number(n) => match n.as_i128() {
            Some(i) => Node::Int(i),
            None => Node::Float(n.to_string()),
        },
        serde_json::Value::String(s) => Node::Text(s.clone()),
        serde_json::Value::Array(items) => Node::Array(items.iter().map(node).collect()),
        serde_json::Value::Object(map) => {
            let mut o = Object::new();
            for (key, value) in map {
                o.insert(key, node(value));
            }
            Node::Object(o)
        }
    }
}

fn object(v: Node) -> Object {
    match v {
        Node::Object(o) => o,
        _ => Object::new(),
    }
}

fn run(cfg: Node, host: &mut Fixture) -> Result<(), String> {
    handle_with(&object(cfg), "/usr/bin/python3", "/root", host)
}

fn distro_host() -> Fixture {
    Fixture {
        present: vec!["ansible".to_owned()],
        stdout: vec![(
            "subp ansible-pull --version env=[HOME=/root] cwd=".to_owned(),
            "ansible-pull [core 2.17.6]\n".to_owned(),
        )],
        ..Fixture::default()
    }
}

#[test]
fn no_ansible_key_does_nothing_at_all() {
    let mut host = Fixture::default();
    let outcome = run(json(r#"{}"#), &mut host);
    assert!(outcome.is_ok());
    assert!(host.calls.is_empty());
}

#[test]
fn the_required_keys_are_named_in_the_error() {
    let mut host = Fixture::default();
    let outcome = run(json(r#"{"ansible": {"package_name": "ansible"}}"#), &mut host);
    assert_eq!(
        outcome.unwrap_err(),
        "Missing required key 'install_method' from {'package_name': 'ansible'}"
    );
}

#[test]
fn a_bad_install_method_gets_the_message_that_forgot_its_f_prefix() {
    let mut host = Fixture::default();
    let outcome = run(
        json(r#"{"ansible": {"install_method": "apt", "package_name": "ansible"}}"#),
        &mut host,
    );
    assert_eq!(outcome.unwrap_err(), "Invalid install method {install}");
}

#[test]
fn an_already_present_ansible_is_not_installed_again() {
    let mut host = distro_host();
    let outcome = run(
        json(r#"{"ansible": {"install_method": "distro", "package_name": "ansible"}}"#),
        &mut host,
    );
    assert!(outcome.is_ok());
    assert!(!host.calls.iter().any(|c| c.starts_with("install_packages")));
}

#[test]
fn a_missing_ansible_after_install_is_the_check_deps_error() {
    let mut host = Fixture::default();
    let outcome = run(
        json(r#"{"ansible": {"install_method": "distro", "package_name": "ansible"}}"#),
        &mut host,
    );
    assert_eq!(outcome.unwrap_err(), "command: ansible is not installed");
}

#[test]
fn a_modern_ansible_pulls_every_playbook_in_one_command() {
    let mut host = distro_host();
    let outcome = run(
        json(r#"{"ansible": {"install_method": "distro", "package_name": "ansible", "pull": {"url": "u", "playbook_names": ["a.yml", "b.yml"]}}}"#),
        &mut host,
    );
    assert!(outcome.is_ok());
    assert!(host
        .calls
        .iter()
        .any(|call| call.contains("ansible-pull --url=u a.yml b.yml")));
}

#[test]
fn an_old_ansible_pulls_them_one_at_a_time() {
    let mut host = distro_host();
    host.stdout[0].1 = "ansible-pull 2.10.8\n".to_owned();
    let outcome = run(
        json(r#"{"ansible": {"install_method": "distro", "package_name": "ansible", "pull": {"url": "u", "playbook_names": ["a.yml", "b.yml"]}}}"#),
        &mut host,
    );
    assert!(outcome.is_ok());
    assert!(host
        .calls
        .iter()
        .any(|call| call.contains("ansible-pull --url=u a.yml env=")));
    assert!(host
        .calls
        .iter()
        .any(|call| call.contains("ansible-pull --url=u b.yml env=")));
}

#[test]
fn a_false_argument_is_dropped_and_a_true_one_loses_its_value() {
    let mut host = distro_host();
    let outcome = run(
        json(r#"{"ansible": {"install_method": "distro", "package_name": "ansible", "pull": {"url": "u", "playbook_name": "a.yml", "full": true, "clean": false, "accept_host_key": true}}}"#),
        &mut host,
    );
    assert!(outcome.is_ok());
    let call = host
        .calls
        .iter()
        .find(|call| call.contains("ansible-pull") && !call.contains("--version"))
        .unwrap();
    assert!(call.contains("--full"));
    assert!(call.contains("--accept-host-key"));
    assert!(!call.contains("clean"));
}

#[test]
fn a_run_user_routes_through_su_and_loses_the_environment() {
    let mut host = Fixture {
        present: vec!["ansible".to_owned()],
        stdout: vec![(
            "do_as ann ansible-pull --version cwd=".to_owned(),
            "ansible-pull [core 2.17.6]\n".to_owned(),
        )],
        ..Fixture::default()
    };
    let outcome = run(
        json(r#"{"ansible": {"install_method": "distro", "package_name": "ansible", "run_user": "ann", "ansible_config": "/etc/ansible.cfg", "pull": {"url": "u", "playbook_name": "a.yml"}}}"#),
        &mut host,
    );
    assert!(outcome.is_ok());
    assert!(host
        .calls
        .iter()
        .all(|call| !call.contains("ansible_config")));
}

#[test]
fn an_unparsable_version_is_a_warning_and_the_pull_still_runs() {
    let mut host = distro_host();
    host.stdout[0].1 = "no version here\n".to_owned();
    let outcome = run(
        json(r#"{"ansible": {"install_method": "distro", "package_name": "ansible", "pull": {"url": "u", "playbook_name": "a.yml"}}}"#),
        &mut host,
    );
    assert!(outcome.is_ok());
    assert!(host
        .log
        .iter()
        .any(|line| line.contains("Cannot parse ansible version")));
    assert!(host
        .calls
        .iter()
        .any(|call| call == "subp ansible-pull --url=u a.yml env=[HOME=/root] cwd="));
}

#[test]
fn an_old_ansible_asked_for_a_diff_is_an_error_with_a_missing_space() {
    let mut host = distro_host();
    host.stdout[0].1 = "ansible-pull 2.6.0\n".to_owned();
    let outcome = run(
        json(r#"{"ansible": {"install_method": "distro", "package_name": "ansible", "pull": {"url": "u", "playbook_name": "a.yml", "diff": true}}}"#),
        &mut host,
    );
    assert_eq!(
        outcome.unwrap_err(),
        "Ansible version 2.6.0doesn't support --diff flag, exiting."
    );
}

#[test]
fn the_controller_loses_the_keys_it_pops() {
    let mut host = distro_host();
    let outcome = run(
        json(r#"{"ansible": {"install_method": "distro", "package_name": "ansible", "setup_controller": {"run_ansible": [{"playbook_dir": "/d", "playbook_name": "p.yml", "extra": 1}]}}}"#),
        &mut host,
    );
    assert!(outcome.is_ok());
    assert!(host.calls.iter().any(|call| call
        == "subp ansible-playbook p.yml --extra=1 env=[HOME=/root] cwd=/d"));
}

#[test]
fn versions_sort_with_the_more_specific_number_larger() {
    assert!(Version::from_str("3.9.9.9").unwrap() < Version::new(3, 10, -1));
    assert!(
        Version::from_str("2.9.1").unwrap() > Version::from_str("2.9").unwrap()
    );
    assert_eq!(
        Version::from_str("2.").unwrap_err(),
        "invalid literal for int() with base 10: ''"
    );
}

fn ansible(block: &str) -> Object {
    object(json(block))
}

#[test]
fn a_refused_configuration_leaves_the_machine_alone() {
    let mut host = distro_host();
    let outcome = run(
        json(r#"{"ansible": {"install_method": "distro", "package_name": "ansible", "pull": "x"}}"#),
        &mut host,
    );
    assert_eq!(
        outcome.unwrap_err(),
        "Invalid value ansible.pull. Expected either dict of list of dicts but found x"
    );
    assert!(host.calls.is_empty());
}

#[test]
fn every_fault_of_an_entry_to_pull_has_its_message() {
    for (pull, message) in [
        (r#"[5]"#, "Invalid value of ansible.pull. Expected dict but found 5"),
        (r#"{"a": 1}"#, "Missing required key 'url' from {'a': 1}"),
        (r#"{"url": "u"}"#, "Missing required key 'playbook_names' from {'url': 'u'}"),
        (
            r#"{"url": "u", "playbook_name": "a", "playbook_names": ["b"]}"#,
            "Key 'ansible.pull.playbook_name' and 'ansible.pull.playbook_names' are mutually exclusive. Please \
             use 'playbook_names' in {'url': 'u', 'playbook_name': 'a', 'playbook_names': ['b']}",
        ),
    ] {
        let cfg = ansible(&format!(
            r#"{{"install_method": "pip", "package_name": "ansible", "pull": {pull}}}"#
        ));
        assert_eq!(validate_config(&cfg).unwrap_err(), message);
    }
}

#[test]
fn the_controller_needs_something_to_do() {
    let cfg = ansible(r#"{"install_method": "pip", "package_name": "ansible", "setup_controller": {"a": 1}}"#);
    assert_eq!(validate_config(&cfg).unwrap_err(), "Missing required key from {'a': 1}");
    let cfg = ansible(r#"{"install_method": "pip", "package_name": "ansible", "setup_controller": [1]}"#);
    assert_eq!(validate_config(&cfg).unwrap_err(), "'list' object has no attribute 'get'");
    let cfg = ansible(
        r#"{"install_method": "pip", "package_name": "ansible", "setup_controller": {"repositories": [1]}}"#,
    );
    assert!(validate_config(&cfg).is_ok());
}

#[test]
fn pip_is_installed_brought_up_to_date_and_used() {
    let mut host = Fixture::default();
    let outcome = run(
        json(r#"{"ansible": {"install_method": "pip", "package_name": "ansible-core"}}"#),
        &mut host,
    );
    assert_eq!(outcome.unwrap_err(), "command: ansible is not installed");
    assert_eq!(
        host.calls,
        [
            "import pip",
            "install_packages ['python3-pip']",
            "subp /usr/bin/python3 -m pip list env=[HOME=/root] cwd=",
            "externally_managed",
            "subp /usr/bin/python3 -m pip install --upgrade pip env=[HOME=/root] cwd=",
            "subp /usr/bin/python3 -m pip install ansible-core env=[HOME=/root] cwd=",
            "subp /usr/bin/python3 -m pip list env=[HOME=/root] cwd=",
        ]
    );
    assert_eq!(
        host.log,
        [
            "cc_ansible.py[INFO]: Upgrading pip",
            "cc_ansible.py[INFO]: Upgraded pip",
            "cc_ansible.py[INFO]: Installing the ansible-core package",
            "cc_ansible.py[INFO]: Installed the ansible-core package",
        ]
    );
}

#[test]
fn galaxy_actions_are_run_before_anything_is_pulled() {
    let mut host = distro_host();
    let outcome = run(
        json(r#"{"ansible": {"install_method": "distro", "package_name": "ansible",
            "galaxy": {"actions": [["ansible-galaxy", "install", 5]]},
            "pull": {"url": "u", "playbook_name": "a.yml"}}}"#),
        &mut host,
    );
    assert!(outcome.is_ok());
    assert_eq!(host.calls[2], "subp ansible-galaxy install 5 env=[HOME=/root] cwd=");
    let outcome = run(
        json(r#"{"ansible": {"install_method": "distro", "package_name": "ansible",
            "galaxy": {"actions": ["x"]}}}"#),
        &mut distro_host(),
    );
    assert_eq!(outcome.unwrap_err(), "'str' object is not iterable");
}

#[test]
fn what_a_pull_printed_is_printed() {
    let mut host = distro_host();
    host.stdout.push((
        "subp ansible-pull --url=u a.yml env=[HOME=/root] cwd=".to_owned(),
        "done\n".to_owned(),
    ));
    let outcome = run(
        json(r#"{"ansible": {"install_method": "distro", "package_name": "ansible",
            "pull": [{"url": "u", "playbook_name": "a.yml"}]}}"#),
        &mut host,
    );
    assert!(outcome.is_ok());
    assert_eq!(host.console, ["done\n"]);
}

#[test]
fn the_line_for_a_user_quotes_every_word() {
    let argv = vec!["echo".to_owned(), "it's".to_owned(), "".to_owned()];
    assert_eq!(
        su_command(&argv, "ann", Some("/srv")),
        ["su", "-", "ann", "-c", "cd /srv && env PATH=$PATH echo 'it'\"'\"'s' ''"]
    );
}

#[test]
fn a_version_is_the_first_run_of_digits_and_points() {
    assert_eq!(version_from("ansible-pull [core 2.17.6]\nx 9\n").unwrap(), Some(Version::new(2, 17, 6)));
    assert_eq!(version_from("none\n").unwrap(), None);
    assert_eq!(version_from("").unwrap_err(), "pop from empty list");
}
