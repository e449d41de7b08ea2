//! Values, versions and the small formats that the modules share.

use ci_modules::b64::decode;
use ci_modules::cc::disk_setup::layout::partition_type_matches;
use ci_modules::cc::version::{is_older, read_version, Version};
use ci_modules::cc::{cfg_option_list, dict_get, sub_option};
use ci_modules::dumps::dumps;
use ci_modules::number::{dec_int_of, octal4_of, parse_digits, parse_i64};
use ci_modules::order::{insert_text, is_before};
use ci_modules::paths::{basename, dirname, path_join};
use ci_modules::rootdev::{root_from_cmdline, Root};
use ci_modules::show::{is_false, kind_name, py_str, py_truthy, repr_str, translate_bool};
use ci_modules::value::{Node, Object};
use ci_modules::walk::{py_iter, py_len};

fn entries(pairs: &[(&str, i128)]) -> Object {
    let mut o = Object::new();
    for (key, value) in pairs {
        o.insert(key, Node::Int(*value));
    }
    o
}

fn keys(o: &Object) -> Vec<&str> {
    (0..o.len()).map(|i| o.key_at(i).as_str()).collect()
}

#[test]
fn a_set_key_has_its_value_and_the_others_keep_theirs() {
    let mut o = entries(&[("a", 1), ("b", 2)]);
    o.insert("a", Node::Int(3));
    o.insert("c", Node::Int(4));
    assert_eq!(keys(&o), ["a", "b", "c"]);
    assert_eq!(o.get("a"), Some(&Node::Int(3)));
    assert_eq!(o.get("b"), Some(&Node::Int(2)));
    assert_eq!(o.get("c"), Some(&Node::Int(4)));
    assert_eq!(o.get("d"), None);
}

#[test]
fn a_removed_key_holds_nothing_and_the_others_keep_their_values() {
    let mut o = entries(&[("a", 1), ("b", 2), ("c", 3)]);
    assert_eq!(o.remove("a"), Some(Node::Int(1)));
    assert!(!o.contains_key("a"));
    assert_eq!(keys(&o), ["c", "b"]);
    let mut o = entries(&[("a", 1), ("b", 2), ("c", 3)]);
    assert_eq!(o.shift_remove("a"), Some(Node::Int(1)));
    assert_eq!(keys(&o), ["b", "c"]);
    assert_eq!(o.shift_remove("a"), None);
}

#[test]
fn what_is_no_mapping_cannot_be_asked_for_a_key() {
    let block = Node::Object(entries(&[("k", 1)]));
    assert_eq!(dict_get(&block, "k"), Ok(Some(Node::Int(1))));
    assert_eq!(dict_get(&block, "other"), Ok(None));
    assert_eq!(
        dict_get(&Node::text("k"), "k"),
        Err("'str' object has no attribute 'get'".to_owned())
    );
    assert_eq!(sub_option(&block, "k"), Ok(Some(Node::Int(1))));
    assert_eq!(
        sub_option(&Node::text("a key"), "key"),
        Err("string indices must be integers, not 'str'".to_owned())
    );
    assert_eq!(sub_option(&Node::text("a"), "key"), Ok(None));
    assert_eq!(
        sub_option(&Node::Array(vec![Node::text("key")]), "key"),
        Err("list indices must be integers or slices, not str".to_owned())
    );
    assert_eq!(
        sub_option(&Node::Int(5), "key"),
        Err("argument of type 'int' is not a container or iterable".to_owned())
    );
}

#[test]
fn a_single_value_is_a_list_of_its_printed_form() {
    let o = entries(&[("one", 1)]);
    assert_eq!(cfg_option_list(&o, "one", vec![]), [Node::text("1")]);
    assert_eq!(cfg_option_list(&o, "none", vec![Node::Null]), [Node::Null]);
}

#[test]
fn values_are_printed_as_they_are_written() {
    let list = Node::Array(vec![Node::text("it's"), Node::Bool(true), Node::Null, Node::Int(-5)]);
    assert_eq!(py_str(&list), "[\"it's\", True, None, -5]");
    assert_eq!(py_str(&Node::text("it's")), "it's");
    assert_eq!(repr_str("a\nb"), "'a\\nb'");
    assert_eq!(kind_name(&Node::Float("1.5".to_owned())), "float");
    assert!(!py_truthy(&Node::Int(0)));
    assert!(py_truthy(&Node::text("0")));
    assert!(translate_bool(&Node::text(" YES ")));
    assert!(is_false(&Node::text("Off")));
}

#[test]
fn ascii_json_escapes_what_is_beyond_ascii() {
    let mut o = Object::new();
    o.insert("k", Node::text("é\u{1f600}\"\n"));
    assert_eq!(dumps(&Node::Object(o)), "{\"k\": \"\\u00e9\\ud83d\\ude00\\\"\\n\"}");
}

#[test]
fn a_longer_version_is_larger_than_the_one_it_begins_with() {
    let two = Version::from_str("2.12").unwrap();
    let three = Version::from_str("2.12.0").unwrap();
    assert!(is_older(two, three));
    assert!(two < three);
    assert!(!is_older(three, two));
    assert!(!is_older(two, two));
    assert!(is_older(Version::new(2, 9, 5), two));
    assert_eq!(read_version("2.12").unwrap(), two);
    assert!(Version::from_str("1.2.3.4.5").is_err());
}

#[test]
fn texts_are_put_in_order_once() {
    let mut list: Vec<String> = Vec::new();
    for word in ["b", "a", "b", "ab"] {
        insert_text(&mut list, word);
    }
    assert_eq!(list, ["a", "ab", "b"]);
    assert!(is_before("a", "ab"));
    assert!(!is_before("b", "ab"));
    assert!(!is_before("a", "a"));
}

#[test]
fn a_key_in_base64_is_read() {
    assert_eq!(decode("MTIzNA=="), Some(b"1234".to_vec()));
    assert_eq!(decode("MTIzNDU2"), Some(b"123456".to_vec()));
    assert_eq!(decode(""), Some(Vec::new()));
    assert_eq!(decode("MTIzN"), None);
}

#[test]
fn a_command_line_names_the_root_device() {
    assert!(matches!(root_from_cmdline("quiet"), Root::Unnamed));
    assert!(matches!(root_from_cmdline("root=/dev/vda1 ro"), Root::At(at) if at == "/dev/vda1"));
    assert!(
        matches!(root_from_cmdline("root=UUID=AB-CD"), Root::At(at) if at == "/dev/disk/by-uuid/ab-cd")
    );
    assert!(
        matches!(root_from_cmdline("root=LABEL=Up"), Root::At(at) if at == "/dev/disk/by-label/Up")
    );
    assert!(matches!(
        root_from_cmdline("root=PARTUUID=AB"),
        Root::Partition(at, criterion)
            if at == "/dev/disk/by-partuuid/ab" && criterion == "PARTUUID=AB"
    ));
}

#[test]
fn types_agree_in_whatever_case_and_length() {
    let ids = vec![(
        "8300".to_owned(),
        "0FC63DAF-8483-4772-8E79-3D69D8477DE4".to_owned(),
    )];
    assert_eq!(partition_type_matches("ef", "EF00", &ids), Ok(true));
    assert_eq!(partition_type_matches("ef00", "EF", &ids), Ok(true));
    assert_eq!(partition_type_matches("83", "82", &ids), Ok(false));
    assert_eq!(
        partition_type_matches("83", "0fc63daf-8483-4772-8e79-3d69d8477de4", &ids),
        Ok(true)
    );
    assert_eq!(
        partition_type_matches("0fc63daf-8483-4772-8e79-3d69d8477de4", "83", &ids),
        Ok(true)
    );
    assert_eq!(
        partition_type_matches("abc", "83", &ids),
        Err("Unknown partition type found: ABC".to_owned())
    );
    assert_eq!(
        partition_type_matches("82", "abc", &ids),
        Err("Unknown partition type specified: 82".to_owned())
    );
    assert_eq!(
        partition_type_matches("82", "0fc63daf-8483-4772-8e79-3d69d8477de4", &ids),
        Err("Cannot find GPT GUID for found type 8200".to_owned())
    );
}

#[test]
fn numbers_are_read_and_written() {
    assert_eq!(dec_int_of(-170141183460469231731687303715884105728), "-170141183460469231731687303715884105728");
    assert_eq!(octal4_of(0o644), "0644");
    assert_eq!(parse_digits("18446744073709551615", u64::MAX), Some(u64::MAX));
    assert_eq!(parse_digits("18446744073709551616", u64::MAX), None);
    assert_eq!(parse_i64("-9223372036854775808"), Some(i64::MIN));
    assert_eq!(parse_i64("9223372036854775808"), None);
    assert_eq!(parse_i64("+7"), Some(7));
    assert_eq!(parse_i64(""), None);
}

#[test]
fn paths_have_a_parent_and_a_name() {
    assert_eq!(dirname("/a/b"), "/a");
    assert_eq!(dirname("/a"), "/");
    assert_eq!(basename("/a/b"), "b");
    assert_eq!(path_join("/a", "b"), "/a/b");
}

#[test]
fn a_text_is_walked_letter_by_letter() {
    assert_eq!(py_iter(&Node::text("ab")).unwrap(), [Node::text("a"), Node::text("b")]);
    assert_eq!(py_len(&Node::text("é")).unwrap(), 1);
    assert_eq!(py_iter(&Node::Int(1)).unwrap_err(), "'int' object is not iterable");
    assert_eq!(py_len(&Node::Null).unwrap_err(), "object of type 'NoneType' has no len()");
}
