//! Changing the certificates that the machine trusts.

use ci_modules::cc::ca_certs::{
    deselect, disable_system_ca_certs, distro_config, handle_with, plan, run, Fixture, Step, HEADER_COMMENT,
};
use ci_modules::value::{Node, Object};

/// A value written as JSON.
fn json(text: &str) -> Node {
    node(&serde_json::from_str(text).unwrap())
}

fn node(v: &serde_json::Value) -> Node {
    match v {
        serde_json::Value::Null => Node::Null,
        serde_json::Value::Bool(b) => Node::Bool(*b),
        serde_json::Value::Number(n) => match n.as_i128() {
            Some(i) => Node::Int(i),
            None => Node::Float(n.to_string()),
        },
        serde_json::Value::String(s) => Node::Text(s.clone()),
        serde_json::Value::Array(items) => Node::Array(items.iter().map(node).collect()),
        serde_json::Value::Object(map) => {
            let mut o = Object::new();
            for (key, value) in map {
                o.insert(key, node(value));
            }
            Node::Object(o)
        }
    }
}

fn object(v: Node) -> Object {
    match v {
        Node::Object(o) => o,
        _ => Object::new(),
    }
}

fn plan_for(text: &str, distro: &str) -> Result<Vec<Step>, String> {
    plan("cc_ca_certs", &object(json(text)), distro, &mut Fixture::default())
}

#[test]
fn an_absent_key_skips_the_module_entirely() {
    assert_eq!(plan_for("{}", "ubuntu").unwrap(), Vec::<Step>::new());
}

#[test]
fn a_present_but_empty_mapping_still_refreshes_the_trust_store() {
    assert_eq!(
        plan_for(r#"{"ca_certs": {}}"#, "ubuntu").unwrap(),
        vec![Step::UpdateCaCerts {
            argv: vec!["update-ca-certificates".to_owned()],
        }]
    );
}

#[test]
fn a_non_mapping_reproduces_upstreams_unformatted_message() {
    assert_eq!(
        plan_for(r#"{"ca_certs": []}"#, "ubuntu").unwrap_err(),
        "unexpected type: {ca_cert_cfg}"
    );
}

#[test]
fn certificates_are_numbered_from_one() {
    let steps =
        plan_for(r#"{"ca_certs": {"trusted": ["a", "b"]}}"#, "ubuntu").unwrap();
    assert_eq!(
        steps[0],
        Step::WriteCert {
            path: "/usr/local/share/ca-certificates/cloud-init-ca-cert-1.crt"
                .to_owned(),
            contents: "a".to_owned(),
        }
    );
    assert_eq!(
        steps[1],
        Step::WriteCert {
            path: "/usr/local/share/ca-certificates/cloud-init-ca-cert-2.crt"
                .to_owned(),
            contents: "b".to_owned(),
        }
    );
}

#[test]
fn a_scalar_trusted_value_becomes_one_certificate() {
    let steps = plan_for(r#"{"ca_certs": {"trusted": 5}}"#, "ubuntu").unwrap();
    assert_eq!(
        steps[0],
        Step::WriteCert {
            path: "/usr/local/share/ca-certificates/cloud-init-ca-cert-1.crt"
                .to_owned(),
            contents: "5".to_owned(),
        }
    );
}

#[test]
fn removing_defaults_on_ubuntu_deselects_and_answers_debconf() {
    let steps =
        plan_for(r#"{"ca_certs": {"remove_defaults": true}}"#, "ubuntu").unwrap();
    assert_eq!(
        steps[0],
        Step::DisableSystemCaCerts {
            path: "/etc/ca-certificates.conf".to_owned(),
        }
    );
    assert_eq!(
        steps[1],
        Step::DebconfSetSelections {
            data: "ca-certificates ca-certificates/trust_new_crts select no"
                .to_owned(),
        }
    );
}

#[test]
fn removing_defaults_on_rhel_empties_both_directories() {
    let steps =
        plan_for(r#"{"ca_certs": {"remove_defaults": true}}"#, "rhel").unwrap();
    assert_eq!(
        steps[0],
        Step::RemoveDirContents {
            path: "/etc/pki/ca-trust/".to_owned(),
        }
    );
    assert_eq!(
        steps[1],
        Step::RemoveDirContents {
            path: "/usr/share/pki/ca-trust-source/".to_owned(),
        }
    );
}

#[test]
fn centos_shares_rhels_paths_but_not_its_removal_arm() {
    let steps =
        plan_for(r#"{"ca_certs": {"remove_defaults": true}}"#, "centos").unwrap();
    assert_eq!(
        steps,
        vec![Step::UpdateCaCerts {
            argv: vec!["update-ca-trust".to_owned()],
        }]
    );
}

#[test]
fn the_fedora_filename_carries_a_directory_component() {
    assert_eq!(
        distro_config("fedora").full_path(),
        "/usr/share/pki/ca-trust-source/anchors/cloud-init-ca-cert-{cert_index}.crt"
    );
}

#[test]
fn deselect_comments_out_only_enabled_entries() {
    let original =
        "# a comment\n\n!already/off\nmozilla/one.crt\nmozilla/two.crt\n";
    assert_eq!(
        deselect(original),
        format!(
            "# a comment\n\n!already/off\n{HEADER_COMMENT}\n!mozilla/one.crt\n!mozilla/two.crt\n"
        )
    );
}

#[test]
fn deselect_is_idempotent() {
    let once = deselect("mozilla/one.crt\n");
    assert_eq!(deselect(&once), once);
}

#[test]
fn deselect_terminates_a_file_that_had_no_final_newline() {
    assert_eq!(
        deselect("mozilla/one.crt"),
        format!("{HEADER_COMMENT}\n!mozilla/one.crt\n")
    );
}

#[test]
fn an_empty_selection_file_is_left_alone() {
    let mut host = Fixture {
        files: vec![("/etc/ca-certificates.conf".to_owned(), String::new())],
        ..Fixture::default()
    };
    disable_system_ca_certs("/etc/ca-certificates.conf", &mut host).unwrap();
    assert!(host.written.is_empty());
}

#[test]
fn a_missing_selection_file_is_not_an_error() {
    let mut host = Fixture::default();
    disable_system_ca_certs("/absent.conf", &mut host).unwrap();
    assert!(host.written.is_empty());
}

#[test]
fn a_selection_file_is_written_with_its_entries_deselected() {
    let mut host = Fixture {
        files: vec![("/etc/ca-certificates.conf".to_owned(), "one.crt\n".to_owned())],
        ..Fixture::default()
    };
    disable_system_ca_certs("/etc/ca-certificates.conf", &mut host).unwrap();
    assert_eq!(
        host.written,
        [("/etc/ca-certificates.conf".to_owned(), format!("{HEADER_COMMENT}\n!one.crt\n"))]
    );
}

#[test]
fn away_from_the_machine_itself_certificates_are_written_and_nothing_is_run() {
    let steps = plan_for(r#"{"ca_certs": {"trusted": ["PEM"], "remove_defaults": true}}"#, "ubuntu").unwrap();
    let mut host = Fixture::default();
    run(&steps, false, &mut host).unwrap();
    assert_eq!(
        host.calls,
        [
            "selection /etc/ca-certificates.conf",
            "write_file /usr/local/share/ca-certificates/cloud-init-ca-cert-1.crt",
        ]
    );
    assert_eq!(host.written[0].1, "PEM");
    let mut host = Fixture::default();
    run(&steps, true, &mut host).unwrap();
    assert_eq!(host.calls[1], "set_selections ca-certificates ca-certificates/trust_new_crts select no");
    assert_eq!(host.calls[3], "subp update-ca-certificates");
}

#[test]
fn the_first_step_that_fails_ends_it() {
    let mut host = Fixture {
        errors: vec![("remove_contents /etc/pki/ca-trust/".to_owned(), "denied".to_owned())],
        ..Fixture::default()
    };
    let cfg = object(json(r#"{"ca-certs": {"remove-defaults": "yes", "trusted": "x"}}"#));
    assert_eq!(handle_with("cc_ca_certs", &cfg, "rhel", true, &mut host).unwrap_err(), "denied");
    assert_eq!(host.calls.len(), 1);
}

#[test]
fn every_distribution_has_its_places() {
    for (name, path, command) in [
        ("aosc", "/etc/ssl/certs/cloud-init-ca-cert-{cert_index}.pem", "update-ca-bundle"),
        (
            "rocky",
            "/usr/share/pki/ca-trust-source/anchors/cloud-init-ca-cert-{cert_index}.crt",
            "update-ca-trust",
        ),
        (
            "sles",
            "/usr/share/pki/trust/anchors/cloud-init-ca-cert-{cert_index}.crt",
            "update-ca-certificates",
        ),
        ("photon", "/etc/ssl/certs/cloud-init-ca-cert-{cert_index}.pem", "rehash_ca_certificates.sh"),
        (
            "debian",
            "/usr/local/share/ca-certificates/cloud-init-ca-cert-{cert_index}.crt",
            "update-ca-certificates",
        ),
    ] {
        let cfg = distro_config(name);
        assert_eq!(cfg.full_path(), path, "{name}");
        assert_eq!(cfg.ca_cert_update_cmd, [command], "{name}");
    }
}

#[test]
fn what_is_decided_is_said() {
    let said = |text: &str, distro: &str| {
        let mut host = Fixture::default();
        let _ = plan("ca_certs", &object(json(text)), distro, &mut host);
        host.log
    };
    assert_eq!(
        said("{}", "ubuntu"),
        ["cc_ca_certs.py[DEBUG]: Skipping module named ca_certs, no 'ca_certs' key in configuration"]
    );
    assert_eq!(
        said(r#"{"ca-certs": {"remove-defaults": true, "trusted": ["a", "b"]}, "ca_certs": {"remove-defaults": true, "trusted": ["a", "b"]}}"#, "rhel"),
        [
            "lifecycle.py[DEPRECATED]: Key 'ca-certs' is deprecated in 22.1 and scheduled to be removed in 27.1. Use 'ca_certs' instead.",
            "cc_ca_certs.py[WARNING]: Found both ca-certs (deprecated) and ca_certs config keys. Ignoring ca-certs.",
            "lifecycle.py[DEPRECATED]: Key 'remove-defaults' is deprecated in 22.1 and scheduled to be removed in 27.1. Use 'remove_defaults' instead.",
            "cc_ca_certs.py[DEBUG]: Disabling/removing default certificates",
            "cc_ca_certs.py[DEBUG]: Deleting system CA certificates",
            "cc_ca_certs.py[DEBUG]: Adding 2 certificates",
            "cc_ca_certs.py[DEBUG]: Updating certificates",
        ]
    );
    let mut host = Fixture::default();
    handle_with("ca_certs", &object(json(r#"{"ca_certs": {}}"#)), "ubuntu", true, &mut host).unwrap();
    assert_eq!(
        host.log,
        [
            "cc_ca_certs.py[DEBUG]: Updating certificates",
            "cc_ca_certs.py[DEBUG]: Running update-ca-certificates",
        ]
    );
}
