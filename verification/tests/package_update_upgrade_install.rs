//! Bringing packages up to date, and installing some.

use ci_modules::cc::package_update_upgrade_install::{
    handle_with, multi_cfg_bool_get, option_list, plan, refresh_hold, run, Fixture, Manager, Plan, State, Step,
};
use ci_modules::value::{Node, Object};

/// A value written as JSON.
fn json(text: &str) -> Node {
    node(&serde_json::from_str(text).unwrap())
}

fn node(v: &serde_json::Value) -> Node {
    match v {
        serde_json::Value::Null => Node::Null,
        serde_json::Value::Bool(b) => Node::Bool(*b),
        serde_json::Value::Number(n) => match n.as_i128() {
            Some(i) => Node::Int(i),
            None => Node::Float(n.to_string()),
        },
        serde_json::Value::String(s) => Node::Text(s.clone()),
        serde_json::Value::Array(items) => Node::Array(items.iter().map(node).collect()),
        serde_json::Value::Object(map) => {
            let mut o = Object::new();
            for (key, value) in map {
                o.insert(key, node(value));
            }
            Node::Object(o)
        }
    }
}

fn object(v: Node) -> Object {
    match v {
        Node::Object(o) => o,
        _ => Object::new(),
    }
}

fn state(marker: Option<&str>) -> State {
    State {
        apt_available: true,
        snap_available: true,
        snap_refresh_hold: None,
        reboot_marker: marker.map(str::to_owned),
    }
}

fn step(words: &[&str]) -> Step {
    Step {
        argv: words.iter().map(|w| (*w).to_owned()).collect(),
        env: vec![("DEBIAN_FRONTEND".to_owned(), "noninteractive".to_owned())],
        semaphore: None,
    }
}

fn fixture() -> Fixture {
    Fixture {
        update: vec![step(&["apt-get", "update"])],
        upgrade: vec![step(&["apt-get", "dist-upgrade"]), step(&["snap", "refresh"])],
        install: vec![step(&["apt-get", "install", "git"])],
        ..Fixture::default()
    }
}

fn ubuntu() -> Vec<Manager> {
    vec![Manager::Apt, Manager::Snap]
}

fn plan_ubuntu(text: &str, state: &State) -> Plan {
    plan(&object(json(text)), &ubuntu(), state, &mut fixture()).unwrap()
}

#[test]
fn multi_cfg_bool_get_is_translate_bool() {
    let keys = &["a", "b"];
    for (text, expected) in [
        (r#"{}"#, false),
        (r#"{"a": true}"#, true),
        (r#"{"b": true}"#, true),
        (r#"{"a": false}"#, false),
        (r#"{"a": "false"}"#, false),
        (r#"{"a": "no"}"#, false),
        (r#"{"a": "off"}"#, false),
        (r#"{"a": "0"}"#, false),
        (r#"{"a": "yes"}"#, true),
        (r#"{"a": "on"}"#, true),
        (r#"{"a": "1"}"#, true),
        (r#"{"a": "TRUE"}"#, true),
        (r#"{"a": "maybe"}"#, false),
        (r#"{"a": ""}"#, false),
        (r#"{"a": 0}"#, false),
        (r#"{"a": 1}"#, true),
        (r#"{"a": []}"#, false),
        (r#"{"a": ["x"]}"#, false),
        (r#"{"a": {}}"#, false),
        (r#"{"a": null}"#, false),
        (r#"{"a": false, "b": true}"#, true),
    ] {
        assert_eq!(multi_cfg_bool_get(&object(json(text)), keys), expected, "for {text:?}");
    }
}

#[test]
fn option_list_shapes() {
    let list = |text: &str| option_list(&object(json(text)), "packages");
    assert!(list(r#"{}"#).is_empty());
    assert!(list(r#"{"packages": null}"#).is_empty());
    assert!(list(r#"{"packages": []}"#).is_empty());
    assert_eq!(list(r#"{"packages": "git"}"#), vec![Node::text("git")]);
    assert_eq!(list(r#"{"packages": 5}"#), vec![Node::text("5")]);
    assert_eq!(list(r#"{"packages": true}"#), vec![Node::text("True")]);
    assert_eq!(list(r#"{"packages": ["git", "curl"]}"#).len(), 2);
}

#[test]
fn probe_picks_the_first_reboot_marker() {
    let probe = |files: &[&str]| {
        let mut host = Fixture {
            files: files.iter().map(|f| (*f).to_owned()).collect(),
            ..Fixture::default()
        };
        State::probe(&vec![], &mut host).reboot_marker
    };
    assert_eq!(probe(&[]), None);
    assert_eq!(probe(&["/run/reboot-needed"]).as_deref(), Some("/run/reboot-needed"));
    assert_eq!(
        probe(&["/run/reboot-needed", "/var/run/reboot-required"]).as_deref(),
        Some("/var/run/reboot-required")
    );
}

#[test]
fn probe_only_looks_for_managers_the_distro_registers() {
    let mut host = Fixture {
        present: vec!["apt-get".to_owned(), "snap".to_owned()],
        ..Fixture::default()
    };
    let found = State::probe(&vec![], &mut host);
    assert!(!found.apt_available);
    assert!(!found.snap_available);
    let found = State::probe(&ubuntu(), &mut host);
    assert!(found.apt_available);
    assert!(found.snap_available);
}

#[test]
fn the_hold_is_read_out_of_the_printed_settings() {
    let mut host = Fixture {
        present: vec!["snap".to_owned()],
        snap: Some(r#"{"refresh": {"hold": "forever"}}"#.to_owned()),
        ..Fixture::default()
    };
    assert_eq!(State::probe(&ubuntu(), &mut host).snap_refresh_hold.as_deref(), Some("forever"));
    host.snap = Some("not json".to_owned());
    assert_eq!(State::probe(&ubuntu(), &mut host).snap_refresh_hold, None);
    assert_eq!(refresh_hold(&json(r#"{"refresh": {"hold": 5}}"#)), None);
    assert_eq!(refresh_hold(&json(r#"{"refresh": {"hold": "x"}}"#)), Some("x".to_owned()));
}

#[test]
fn empty_config_plans_nothing() {
    assert_eq!(plan_ubuntu("{}", &state(None)), Plan::default());
}

#[test]
fn update_runs_for_update_or_upgrade() {
    let state = state(None);
    assert_eq!(plan_ubuntu(r#"{"package_update": true}"#, &state).update.len(), 1);
    assert_eq!(plan_ubuntu(r#"{"apt_update": true}"#, &state).update.len(), 1);
    assert_eq!(plan_ubuntu(r#"{"package_upgrade": true}"#, &state).update.len(), 1);
    assert!(plan_ubuntu("{}", &state).update.is_empty());
    assert_eq!(
        plan_ubuntu(r#"{"package_update": true, "package_upgrade": true}"#, &state).update.len(),
        1
    );
}

#[test]
fn upgrade_is_unsupported_without_apt() {
    let cfg = object(json(r#"{"package_upgrade": true}"#));
    let plan = plan(&cfg, &vec![], &state(None), &mut fixture()).unwrap();
    assert!(plan.upgrade_unsupported);
    assert!(plan.upgrade.is_empty());
}

#[test]
fn malformed_entry_fails_the_plan() {
    let mut host = fixture();
    host.errors.push((
        "plan_install".to_owned(),
        "Invalid 'packages' yaml specification. Check schema definition.".to_owned(),
    ));
    let error = plan(&object(json(r#"{"packages": [5]}"#)), &ubuntu(), &state(None), &mut host).unwrap_err();
    assert_eq!(error, "Invalid 'packages' yaml specification. Check schema definition.");
}

#[test]
fn a_malformed_entry_is_reported_once_the_rest_is_done() {
    let mut host = fixture();
    host.errors.push((
        "plan_install".to_owned(),
        "Invalid 'packages' yaml specification. Check schema definition.".to_owned(),
    ));
    assert_eq!(
        handle_with(&object(json(r#"{"package_update": true, "packages": [5]}"#)), &ubuntu(), &mut host),
        Err("Invalid 'packages' yaml specification. Check schema definition.".to_owned())
    );
    assert!(host.calls.contains(&"run apt-get update".to_owned()));
    assert_eq!(
        host.log,
        [
            "cc_package_update_upgrade_install.py[WARNING]: Failure when attempting to install packages\n\
             Invalid 'packages' yaml specification. Check schema definition.",
            "cc_package_update_upgrade_install.py[WARNING]: 1 failed with exceptions, re-raising the last one",
        ]
    );
}

#[test]
fn reboot_needs_a_marker_a_flag_and_a_reason() {
    let marked = state(Some("/run/reboot-needed"));
    let both = state(None);
    assert_eq!(plan_ubuntu(r#"{"packages": ["git"]}"#, &marked).reboot, None);
    assert_eq!(plan_ubuntu(r#"{"apt_reboot_if_required": true}"#, &marked).reboot, None);
    assert_eq!(
        plan_ubuntu(r#"{"apt_reboot_if_required": true, "packages": ["git"]}"#, &both).reboot,
        None
    );
    assert_eq!(
        plan_ubuntu(r#"{"apt_reboot_if_required": true, "packages": ["git"]}"#, &marked).reboot.as_deref(),
        Some("/run/reboot-needed")
    );
    assert_eq!(
        plan_ubuntu(r#"{"package_reboot_if_required": true, "package_upgrade": true}"#, &marked).reboot.as_deref(),
        Some("/run/reboot-needed")
    );
}

#[test]
fn an_error_does_not_keep_the_rest_from_being_done_and_the_last_one_counts() {
    let cfg = object(json(r#"{"package_upgrade": true, "packages": ["git"]}"#));
    let mut host = fixture();
    host.errors.push(("run apt-get update".to_owned(), "first".to_owned()));
    host.errors.push(("run apt-get install git".to_owned(), "last".to_owned()));
    assert_eq!(handle_with(&cfg, &ubuntu(), &mut host), Err("last".to_owned()));
    assert_eq!(
        host.log,
        [
            "cc_package_update_upgrade_install.py[WARNING]: Package update failed\nfirst",
            "cc_package_update_upgrade_install.py[WARNING]: Failure when attempting to install packages\nlast",
            "cc_package_update_upgrade_install.py[WARNING]: 2 failed with exceptions, re-raising the last one",
        ]
    );
    assert!(host.calls.contains(&"run apt-get dist-upgrade; snap refresh".to_owned()));
    let mut host = fixture();
    host.not_installed = Some("could not plan".to_owned());
    assert_eq!(handle_with(&cfg, &ubuntu(), &mut host), Err("could not plan".to_owned()));
    assert_eq!(
        handle_with(&object(json(r#"{"package_upgrade": true}"#)), &vec![], &mut fixture()),
        Err("Unable to install packages. Debian family distros only.".to_owned())
    );
    assert_eq!(handle_with(&cfg, &ubuntu(), &mut fixture()), Ok(()));
}

#[test]
fn a_reboot_that_does_not_come_is_waited_for_and_reported() {
    let mut host = fixture();
    let plan = plan_ubuntu(
        r#"{"apt_reboot_if_required": true, "packages": ["git"]}"#,
        &state(Some("/run/reboot-needed")),
    );
    assert_eq!(run(&plan, &mut host), Err("Reboot did not happen after 63 seconds!".to_owned()));
    assert_eq!(
        host.calls[3..],
        ["reboot", "sleep 1", "sleep 2", "sleep 4", "sleep 8", "sleep 16", "sleep 32"]
    );
    assert_eq!(
        host.log[0],
        "cc_package_update_upgrade_install.py[INFO]: ***WARNING*** Rebooting after upgrade or install per \
         /run/reboot-needed"
    );
    assert_eq!(
        host.log[1],
        "cc_package_update_upgrade_install.py[WARNING]: Requested reboot did not happen!\n\
         Reboot did not happen after 63 seconds!"
    );
    let mut host = fixture();
    host.errors.push(("reboot".to_owned(), "no".to_owned()));
    assert_eq!(run(&plan, &mut host), Err("no".to_owned()));
}
