//! Setting the locale.

use ci_modules::cc::locale::{config_file, configured, handle_with, Fixture, Step};
use ci_modules::show::is_false;
use ci_modules::value::{Node, Object};

/// A value written as JSON.
fn json(text: &str) -> Node {
    node(&serde_json::from_str(text).unwrap())
}

fn node(v: &serde_json::Value) -> Node {
    match v {
        serde_json::Value::Null => Node::Null,
        serde_json::Value::Bool(b) => Node::Bool(*b),
        serde_json::Value::Number(n) => match n.as_i128() {
            Some(i) => Node::Int(i),
            None => Node::Float(n.to_string()),
        },
        serde_json::Value::String(s) => Node::Text(s.clone()),
        serde_json::Value::Array(items) => Node::Array(items.iter().map(node).collect()),
        serde_json::Value::Object(map) => {
            let mut o = Object::new();
            for (key, value) in map {
                o.insert(key, node(value));
            }
            Node::Object(o)
        }
    }
}

fn object(v: Node) -> Object {
    match v {
        Node::Object(o) => o,
        _ => Object::new(),
    }
}

/// The locale of a distribution that has one.
const UBUNTU: Option<&str> = Some("C.UTF-8");

fn from_cfg(distro: Option<&str>, text: &str) -> String {
    configured(&Node::Null, &object(json(text)), &distro.map(str::to_owned))
}

#[test]
fn the_config_wins() {
    assert_eq!(from_cfg(UBUNTU, r#"{"locale": "fr_FR.UTF-8"}"#), "fr_FR.UTF-8");
}

#[test]
fn without_a_key_the_distros_hardcoded_default_is_used() {
    assert_eq!(from_cfg(UBUNTU, r#"{"other": 1}"#), "C.UTF-8");
}

#[test]
fn without_a_key_a_set_system_locale_beats_the_hardcoded_default() {
    assert_eq!(
        configured(&Node::Null, &object(json(r#"{"other": 1}"#)), &Some("en_GB.UTF-8".to_owned())),
        "en_GB.UTF-8"
    );
}

#[test]
fn a_distro_that_cannot_answer_ignores_the_system_locale_too() {
    assert_eq!(
        configured(&Node::Null, &object(json(r#"{"other": 1}"#)), &None),
        "en_US.UTF-8"
    );
}

#[test]
fn a_distro_that_cannot_answer_gets_the_datasources_default() {
    assert_eq!(from_cfg(None, r#"{"other": 1}"#), "en_US.UTF-8");
}

#[test]
fn the_false_strings_disable_the_module() {
    for word in ["false", "0", "no", "off", "  OFF  "] {
        assert!(is_false(&Node::text(word)), "{word}");
    }
}

#[test]
fn an_empty_locale_is_not_a_false_string_and_so_reaches_the_distro() {
    assert!(!is_false(&Node::text("")));
    assert_eq!(from_cfg(UBUNTU, r#"{"locale": ""}"#), "");
}

#[test]
fn a_module_argument_wins_over_the_config() {
    let args = Node::Array(vec![Node::text("fr_FR.UTF-8")]);
    assert_eq!(
        configured(&args, &object(json(r#"{"locale": "de_DE.UTF-8"}"#)), &Some("C.UTF-8".to_owned())),
        "fr_FR.UTF-8"
    );
}

#[test]
fn a_non_string_locale_is_stringified() {
    assert_eq!(from_cfg(UBUNTU, r#"{"locale": 1}"#), "1");
    assert_eq!(from_cfg(UBUNTU, r#"{"locale": null}"#), "None");
}

#[test]
fn a_file_without_a_name_is_no_file() {
    assert_eq!(config_file(&object(json(r#"{"locale_configfile": ""}"#))), None);
    assert_eq!(config_file(&object(json(r#"{"locale_configfile": "/x"}"#))), Some("/x".to_owned()));
    assert_eq!(config_file(&object(json(r#"{}"#))), None);
}

fn fixture() -> Fixture {
    Fixture {
        distro: Some("C.UTF-8".to_owned()),
        paths: vec!["/x".to_owned()],
        present: vec!["locale-gen".to_owned()],
        steps: vec![
            Step::LocaleGen { locale: "fr_FR.UTF-8".to_owned() },
            Step::UpdateLocale { argv: vec!["update-locale".to_owned(), "LANG=fr_FR.UTF-8".to_owned()] },
        ],
        ..Fixture::default()
    }
}

#[test]
fn the_steps_are_run_on_the_machine_itself_only() {
    let cfg = object(json(r#"{"locale": "fr_FR.UTF-8", "locale_configfile": "/x"}"#));
    let mut host = fixture();
    handle_with("locale", &Node::Null, &cfg, true, &mut host).unwrap();
    assert_eq!(
        host.calls,
        [
            "system_locale",
            "distro_locale",
            "exists /x",
            "which locale-gen",
            "which update-locale",
            "plan fr_FR.UTF-8",
            "subp locale-gen fr_FR.UTF-8",
            "subp update-locale LANG=fr_FR.UTF-8",
        ]
    );
    let mut host = fixture();
    handle_with("locale", &Node::Null, &cfg, false, &mut host).unwrap();
    assert_eq!(host.calls.len(), 6);
    assert_eq!(host.log, ["cc_locale.py[DEBUG]: Setting locale to fr_FR.UTF-8"]);
}

#[test]
fn a_word_for_no_sets_nothing() {
    let mut host = fixture();
    handle_with("locale", &Node::Null, &object(json(r#"{"locale": "Off"}"#)), true, &mut host).unwrap();
    assert_eq!(host.calls, ["system_locale", "distro_locale"]);
    assert_eq!(host.log, ["cc_locale.py[DEBUG]: Skipping module named locale, disabled by config: Off"]);
}

#[test]
fn packages_cannot_be_installed_on_the_way() {
    let mut host = fixture();
    host.steps = vec![Step::InstallPackages { packages: vec!["locales".to_owned()] }];
    let cfg = object(json(r#"{"locale": "fr_FR.UTF-8"}"#));
    assert_eq!(
        handle_with("locale", &Node::Null, &cfg, true, &mut host).unwrap_err(),
        "install_packages is not ported here; locales would have been installed to apply a locale"
    );
    assert!(handle_with("locale", &Node::Null, &cfg, false, &mut host).is_ok());
}

#[test]
fn a_locale_that_cannot_be_read_is_an_error() {
    let mut host = fixture();
    host.errors.push(("system_locale".to_owned(), "bad file".to_owned()));
    assert_eq!(handle_with("locale", &Node::Null, &Object::new(), true, &mut host).unwrap_err(), "bad file");
}
