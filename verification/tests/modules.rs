//! The table of modules, and scripts.

use ci_modules::cc::script::{quote, shellify};
use ci_modules::cc::table::table;
use ci_modules::cc::{handler, Handler};
use ci_modules::shlex::{shell_quote, split};
use ci_modules::value::{Node, Object};

/// A value written as JSON.
fn json(text: &str) -> Node {
    node(&serde_json::from_str(text).unwrap())
}

fn node(v: &serde_json::Value) -> Node {
    match v {
        serde_json::Value::Null => Node::Null,
        serde_json::Value::Bool(b) => Node::Bool(*b),
        serde_json::Value::Number(n) => match n.as_i128() {
            Some(i) => Node::Int(i),
            None => Node::Float(n.to_string()),
        },
        serde_json::Value::String(s) => Node::Text(s.clone()),
        serde_json::Value::Array(items) => Node::Array(items.iter().map(node).collect()),
        serde_json::Value::Object(map) => {
            let mut o = Object::new();
            for (key, value) in map {
                o.insert(key, node(value));
            }
            Node::Object(o)
        }
    }
}

#[test]
fn the_handler_table_is_sorted_so_the_binary_search_holds() {
    let mut sorted: Vec<&str> = table().iter().map(|(name, _)| *name).collect();
    let as_written = sorted.clone();
    sorted.sort_unstable();
    assert_eq!(as_written, sorted);
}

#[test]
fn an_unported_module_has_no_body() {
    assert!(handler("cc_write_files").is_some());
    assert!(handler("cc_mounts").is_some());
    assert!(handler("cc_not_a_module").is_none());
}

#[test]
fn every_row_of_the_table_is_found_by_its_name() {
    let rows = table();
    assert_eq!(rows.len(), 37);
    for (name, row) in rows {
        assert_eq!(handler(name), Some(row), "{name}");
    }
    assert_eq!(handler("cc_ansible"), Some(Handler::Ansible));
    assert_eq!(handler("cc_write_files_deferred"), Some(Handler::WriteFilesDeferred));
    assert_eq!(handler(""), None);
    assert_eq!(handler("cc_zzz"), None);
}

#[test]
fn shellify_quotes_list_items_and_passes_strings_through() {
    let (script, made) = shellify(&json(r#"["echo hi > /tmp/x", ["echo", "it's", 5], null]"#)).unwrap();
    assert_eq!(script, "#!/bin/sh\necho hi > /tmp/x\n'echo' 'it'\\''s' '5'\n");
    assert_eq!(made, 2);
}

#[test]
fn shellify_rejects_what_python_rejects() {
    assert_eq!(
        shellify(&json(r#""echo hi""#)),
        Err("Input to shellify was type 'str'. Expected list or tuple.".to_owned())
    );
    assert_eq!(
        shellify(&json("[5]")),
        Err("Unable to shellify type 'int'. Expected list, string, tuple. Got: 5".to_owned())
    );
}

#[test]
fn quoted_arguments_are_read_back_as_they_were() {
    for word in ["", "plain", "it's", "a b", "$x `y` \\ \"z\"", "''", "new\nline"] {
        assert_eq!(split(&quote(word)).unwrap(), [word]);
        assert_eq!(split(&shell_quote(word)).unwrap(), [word]);
    }
    assert_eq!(shell_quote("plain"), "plain");
    assert_eq!(shell_quote(""), "''");
}
