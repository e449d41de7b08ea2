//! Setting up chef.

use ci_modules::cc::chef::{
    dirname, get_ruby_packages, get_template_params, handle_with, option_int, Fixture, CHEF_VALIDATION_PEM_PATH,
    OMNIBUS_URL, OMNIBUS_URL_RETRIES,
};
use ci_modules::value::{Node, Object};

/// A value written as JSON.
fn json(text: &str) -> Node {
    node(&serde_json::from_str(text).unwrap())
}

fn node(v: &serde_json::Value) -> Node {
    match v {
        serde_json::Value::Null => Node::Null,
        serde_json::Value::Bool(b) => Node::Bool(*b),
        serde_json::Value::Number(n) => match n.as_i128() {
            Some(i) => Node::Int(i),
            None => Node::Float(n.to_string()),
        },
        serde_json::Value::String(s) => Node::Text(s.clone()),
        serde_json::Value::Array(items) => Node::Array(items.iter().map(node).collect()),
        serde_json::Value::Object(map) => {
            let mut o = Object::new();
            for (key, value) in map {
                o.insert(key, node(value));
            }
            Node::Object(o)
        }
    }
}

fn object(v: Node) -> Object {
    match v {
        Node::Object(o) => o,
        _ => Object::new(),
    }
}

fn run_with(cfg: Node, host: &mut Fixture) -> Result<(), String> {
    handle_with("cc_chef", &object(cfg), host)
}

fn bare() -> Fixture {
    Fixture {
        templates_dir: "/no/such/templates".to_owned(),
        ..Fixture::default()
    }
}

fn templated() -> Fixture {
    Fixture {
        templates_dir: "/no/such/templates".to_owned(),
        files: vec![(
            "/no/such/templates/chef_client.rb.tmpl".to_owned(),
            "log_level :info\n".to_owned(),
        )],
        ..Fixture::default()
    }
}

#[test]
fn chef_no_key_is_a_skip() {
    let mut host = bare();
    let result = run_with(json(r#"{"other": 1}"#), &mut host);
    assert!(result.is_ok());
    assert!(host.calls.is_empty());
    assert!(host.log[0].contains("no 'chef' key in configuration"));
}

#[test]
fn the_six_directories_come_first_and_etc_chef_again() {
    let mut host = bare();
    let result = run_with(json(r#"{"chef": {}}"#), &mut host);
    assert!(result.is_ok());
    assert_eq!(
        host.calls[..7],
        [
            "ensure_dir /etc/chef",
            "ensure_dir /var/log/chef",
            "ensure_dir /var/lib/chef",
            "ensure_dir /var/chef/cache",
            "ensure_dir /var/chef/backup",
            "ensure_dir /var/run/chef",
            "ensure_dir /etc/chef",
        ]
    );
}

#[test]
fn directories_replace_the_defaults_but_not_the_required_ones() {
    let mut host = bare();
    let result = run_with(json(r#"{"chef": {"directories": ["/opt/chef"]}}"#), &mut host);
    assert!(result.is_ok());
    assert_eq!(
        host.calls[..2],
        ["ensure_dir /opt/chef", "ensure_dir /etc/chef"]
    );
}

#[test]
fn an_empty_directories_list_falls_back_to_the_defaults() {
    let mut host = bare();
    let result = run_with(json(r#"{"chef": {"directories": []}}"#), &mut host);
    assert!(result.is_ok());
    assert_eq!(host.calls[0], "ensure_dir /etc/chef");
    assert_eq!(host.calls[5], "ensure_dir /var/run/chef");
}

#[test]
fn a_string_chef_block_survives_long_enough_to_make_the_directories() {
    let mut host = bare();
    let result = run_with(json(r#"{"chef": "yes"}"#), &mut host);
    assert_eq!(
        result,
        Err("'str' object has no attribute 'get'".to_owned())
    );
    assert_eq!(host.calls.len(), 9);
}

#[test]
fn a_missing_server_url_is_a_key_error_after_the_directories() {
    let mut host = templated();
    let result = run_with(json(r#"{"chef": {"validation_name": "v"}}"#), &mut host);
    assert_eq!(result, Err("'server_url'".to_owned()));
    assert!(host.calls.iter().any(|call| call == "make_header"));
}

#[test]
fn a_missing_template_warns_twice_and_renders_nothing() {
    let mut host = bare();
    let result = run_with(json(r#"{"chef": {}}"#), &mut host);
    assert!(result.is_ok());
    assert!(host
        .written
        .iter()
        .all(|(path, _)| path != "/etc/chef/client.rb"));
    assert!(host.log.iter().any(|line| line.contains("No template found in /no/such/templates for template")));
    assert!(host.log.iter().any(|line| line.contains("not rendering to /etc/chef/client.rb")));
}

#[test]
fn the_firstboot_file_is_written_even_with_nothing_in_it() {
    let mut host = bare();
    let result = run_with(json(r#"{"chef": {}}"#), &mut host);
    assert!(result.is_ok());
    assert_eq!(
        host.written
            .iter()
            .find(|(path, _)| path == "/etc/chef/firstboot.json"),
        Some(&("/etc/chef/firstboot.json".to_owned(), "{}".to_owned()))
    );
}

#[test]
fn a_run_list_and_attributes_share_the_firstboot_file() {
    let mut host = bare();
    let result = run_with(
        json(r#"{"chef": {"run_list": ["recipe[a]"], "initial_attributes": {"k": "v"}}}"#),
        &mut host,
    );
    assert!(result.is_ok());
    let (_, body) = host
        .written
        .iter()
        .find(|(path, _)| path == "/etc/chef/firstboot.json")
        .unwrap();
    assert_eq!(body, r#"{"run_list": ["recipe[a]"], "k": "v"}"#);
}

#[test]
fn a_validation_cert_is_written_with_the_default_mode() {
    let mut host = bare();
    let result = run_with(json(r#"{"chef": {"validation_cert": "KEY"}}"#), &mut host);
    assert!(result.is_ok());
    assert!(host
        .calls
        .iter()
        .any(|call| call == "write_file /etc/chef/validation.pem mode=0644"));
}

#[test]
fn the_word_system_means_the_key_is_already_there() {
    let mut host = bare();
    let result = run_with(json(r#"{"chef": {"validation_cert": "system"}}"#), &mut host);
    assert!(result.is_ok());
    assert!(host
        .calls
        .iter()
        .all(|call| !call.starts_with("write_file /etc/chef/validation.pem")));
    assert!(host.log.iter().any(|line| line.contains("chef validation_cert provided as 'system'")));
}

#[test]
fn legacy_directories_are_migrated_file_by_file() {
    let mut host = Fixture {
        dirs: vec![("/var/cache/chef".to_owned(), vec!["a".to_owned()])],
        ..bare()
    };
    let result = run_with(json(r#"{"chef": {}}"#), &mut host);
    assert!(result.is_ok());
    assert!(host
        .calls
        .iter()
        .any(|call| call == "move /var/cache/chef/a /var/chef/cache"));
    assert!(host.log.iter().any(|line| line.contains("Moving /var/cache/chef/a to /var/chef/cache.")));
}

#[test]
fn a_migration_collision_is_skipped() {
    let mut host = Fixture {
        dirs: vec![("/var/cache/chef".to_owned(), vec!["a".to_owned()])],
        files: vec![("/var/chef/cache/a".to_owned(), "old".to_owned())],
        ..bare()
    };
    let result = run_with(json(r#"{"chef": {}}"#), &mut host);
    assert!(result.is_ok());
    assert!(host.calls.iter().all(|call| !call.starts_with("move ")));
    assert!(host.log.iter().any(|line| line.contains("Ignoring migration of /var/cache/chef/a. File already exists in /var/chef/cache.")));
}

#[test]
fn an_installed_client_is_not_installed_again() {
    let mut host = Fixture {
        exes: vec!["/usr/bin/chef-client".to_owned()],
        ..bare()
    };
    let result = run_with(json(r#"{"chef": {}}"#), &mut host);
    assert!(result.is_ok());
    assert!(host
        .calls
        .iter()
        .all(|call| !call.starts_with("install_packages")));
}

#[test]
fn force_install_reinstalls_over_an_installed_client() {
    let mut host = Fixture {
        exes: vec!["/usr/bin/chef-client".to_owned()],
        ..bare()
    };
    let result = run_with(json(r#"{"chef": {"force_install": true}}"#), &mut host);
    assert!(result.is_ok());
    assert!(host
        .calls
        .iter()
        .any(|call| call == "install_packages ['chef']"));
}

#[test]
fn omnibus_downloads_a_script_and_runs_it_from_a_tempdir() {
    let mut host = Fixture {
        urls: vec![(OMNIBUS_URL.to_owned(), "#!/bin/sh\ntrue\n".to_owned())],
        ..bare()
    };
    let result = run_with(json(r#"{"chef": {"install_type": "omnibus"}}"#), &mut host);
    assert!(result.is_ok());
    assert!(host
        .calls
        .iter()
        .any(|call| call == &format!("readurl {OMNIBUS_URL} retries=0")));
    assert!(host
        .calls
        .iter()
        .any(|call| call.starts_with("subp /tmp/tmpdir/")));
}

#[test]
fn the_omnibus_retry_default_is_unreachable() {
    assert_eq!(OMNIBUS_URL_RETRIES, 5);
    let mut host = Fixture {
        urls: vec![(OMNIBUS_URL.to_owned(), "x".to_owned())],
        ..bare()
    };
    let _ = run_with(json(r#"{"chef": {"install_type": "omnibus"}}"#), &mut host);
    assert!(host.calls.iter().any(|call| call.ends_with("retries=0")));
}

#[test]
fn a_gem_version_becomes_one_argument_with_a_space_in_it() {
    let mut host = bare();
    let result = run_with(
        json(r#"{"chef": {"install_type": "gems", "version": "12.0"}}"#),
        &mut host,
    );
    assert!(result.is_ok());
    assert!(host.calls.iter().any(|call| call
        == "subp /usr/bin/gem install chef -v 12.0 --no-ri --no-rdoc \
            --bindir /usr/bin -q"
        || call.contains("-v 12.0")));
}

#[test]
fn an_unknown_install_type_warns_and_does_not_run() {
    let mut host = bare();
    let result = run_with(json(r#"{"chef": {"install_type": "snap"}}"#), &mut host);
    assert!(result.is_ok());
    assert!(host.calls.iter().all(|call| !call.starts_with("subp ")));
    assert!(host.log.iter().any(|line| line.contains("Unknown chef install type 'snap'")));
}

#[test]
fn exec_runs_the_client_with_the_default_arguments() {
    let mut host = Fixture {
        exes: vec!["/usr/bin/chef-client".to_owned()],
        ..bare()
    };
    let result = run_with(json(r#"{"chef": {"exec": true}}"#), &mut host);
    assert!(result.is_ok());
    assert!(host
        .calls
        .iter()
        .any(|call| call == "subp /usr/bin/chef-client -d -i 1800 -s 20"));
}

#[test]
fn a_string_exec_arguments_is_appended_whole() {
    let mut host = Fixture {
        exes: vec!["/usr/bin/chef-client".to_owned()],
        ..bare()
    };
    let result = run_with(
        json(r#"{"chef": {"exec": true, "exec_arguments": "-l debug"}}"#),
        &mut host,
    );
    assert!(result.is_ok());
    assert!(host
        .calls
        .iter()
        .any(|call| call == "subp /usr/bin/chef-client -l debug"));
}

#[test]
fn the_validation_pem_is_deleted_after_a_run_when_asked() {
    let mut host = Fixture {
        exes: vec!["/usr/bin/chef-client".to_owned()],
        files: vec![(CHEF_VALIDATION_PEM_PATH.to_owned(), "pem".to_owned())],
        ..bare()
    };
    let result = run_with(
        json(r#"{"chef": {"exec": true, "delete_validation_post_exec": true}}"#),
        &mut host,
    );
    assert!(result.is_ok());
    assert!(host
        .calls
        .iter()
        .any(|call| call == "unlink /etc/chef/validation.pem"));
}

#[test]
fn dirname_follows_posixpath_exactly() {
    assert_eq!(dirname("/a/b"), "/a");
    assert_eq!(dirname("/a"), "/");
    assert_eq!(dirname("a"), "");
    assert_eq!(dirname("//a"), "//");
    assert_eq!(dirname("///a"), "///");
    assert_eq!(dirname("/a/b/"), "/a/b");
    assert_eq!(dirname(""), "");
}

#[test]
fn a_directory_that_cannot_be_made_ends_it() {
    let mut host = Fixture {
        errors: vec![("ensure_dir /var/lib/chef".to_owned(), "no".to_owned())],
        ..bare()
    };
    assert_eq!(run_with(json(r#"{"chef": {}}"#), &mut host), Err("no".to_owned()));
    assert_eq!(host.calls.len(), 3);
}

#[test]
fn the_packages_for_a_version_of_ruby() {
    assert_eq!(get_ruby_packages("1.8"), ["ruby1.8", "ruby1.8-dev", "libopenssl-ruby1.8", "rubygems1.8"]);
    assert_eq!(get_ruby_packages("2.0"), ["ruby2.0", "ruby2.0-dev"]);
}

#[test]
fn the_names_of_a_template_are_the_defaults_and_what_is_configured() {
    let cfg = object(json(r#"{"server_url": "u", "validation_name": "v", "log_level": ":debug"}"#));
    let params = get_template_params(&cfg, "i-1", "# header".to_owned()).unwrap();
    assert_eq!(params.get("log_level"), Some(&Node::text(":debug")));
    assert_eq!(params.get("node_name"), Some(&Node::text("i-1")));
    assert_eq!(params.get("server_url"), Some(&Node::text("u")));
    assert_eq!(params.get("file_cache_path"), Some(&Node::text("/var/chef/cache")));
    let cfg = object(json(r#"{"server_url": "u"}"#));
    assert_eq!(get_template_params(&cfg, "i-1", String::new()).unwrap_err(), "'validation_name'");
}

#[test]
fn a_number_that_is_none_is_an_error() {
    assert_eq!(option_int(&object(json(r#"{"a": "12"}"#)), "a", 0), Ok(12));
    assert_eq!(option_int(&Object::new(), "a", 7), Ok(7));
    assert!(option_int(&object(json(r#"{"a": "x"}"#)), "a", 0).is_err());
}
