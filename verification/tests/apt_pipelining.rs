//! How many requests apt may have open on one connection.

use ci_modules::cc::apt_pipelining::{decide, render, told, Action};
use ci_modules::machine::Level;
use ci_modules::value::Node;

fn decided(value: &Node) -> Action {
    decide(Some(value))
}

#[test]
fn absent_key_leaves_apt_alone() {
    assert_eq!(decide(None), Action::Leave);
}

#[test]
fn os_none_and_unchanged_leave_apt_alone() {
    for word in ["os", "none", "unchanged", "OS", "  None  ", "UNCHANGED"] {
        assert_eq!(decided(&Node::text(word)), Action::Leave, "{word}");
    }
}

#[test]
fn a_bare_key_reads_as_none() {
    assert_eq!(decided(&Node::Null), Action::Leave);
}

#[test]
fn false_writes_depth_zero() {
    assert_eq!(decided(&Node::Bool(false)), Action::Write("0".to_owned()));
    assert_eq!(
        decided(&Node::text("false")),
        Action::Write("0".to_owned())
    );
    assert_eq!(
        decided(&Node::text("False")),
        Action::Write("0".to_owned())
    );
}

#[test]
fn true_is_not_a_depth() {
    assert_eq!(
        decided(&Node::Bool(true)),
        Action::Invalid("True".to_owned())
    );
}

#[test]
fn zero_through_five_are_depths() {
    for depth in 0..=5i128 {
        assert_eq!(
            decided(&Node::Int(depth)),
            Action::Write(depth.to_string()),
            "{depth}"
        );
    }
}

#[test]
fn six_is_out_of_range() {
    assert_eq!(decided(&Node::Int(6)), Action::Invalid("6".to_owned()));
}

#[test]
fn the_warning_quotes_the_value_not_the_normalised_form() {
    assert_eq!(
        decided(&Node::text("  Yes  ")),
        Action::Invalid("  Yes  ".to_owned())
    );
}

#[test]
fn a_list_is_stringified_rather_than_rejected() {
    let value = Node::Array(vec![Node::Int(1)]);
    assert_eq!(decided(&value), Action::Invalid("[1]".to_owned()));
}

#[test]
fn a_padded_digit_is_not_a_depth_but_a_padded_word_is() {
    assert_eq!(
        decided(&Node::text("  3  ")),
        Action::Write("3".to_owned())
    );
    assert_eq!(
        decided(&Node::text("05")),
        Action::Invalid("05".to_owned())
    );
}

#[test]
fn the_snippet_names_the_key_that_produced_it() {
    assert_eq!(
        render("0"),
        "//Written by cloud-init per 'apt_pipelining'\nAcquire::http::Pipeline-Depth \"0\";\n"
    );
}

#[test]
fn only_the_six_numbers_are_ever_written() {
    for word in ["-1", "6", "55", "0x0", "fals", "FALSE ", "\t4\n", "5 5"] {
        match decide(Some(&Node::text(word))) {
            Action::Write(depth) => assert!(["0", "1", "2", "3", "4", "5"].contains(&depth.as_str()), "{word}"),
            Action::Leave => panic!("{word}"),
            Action::Invalid(shown) => assert_eq!(shown, word),
        }
    }
}

/// What was written and what is not known are told of; what leaves apt alone is not.
#[test]
fn what_was_decided_is_told() {
    assert_eq!(
        told(&decided(&Node::Bool(false))),
        Some((
            Level::Debug,
            "Wrote /etc/apt/apt.conf.d/90cloud-init-pipelining with apt pipeline depth setting 0"
                .to_owned()
        ))
    );
    assert_eq!(told(&Action::Leave), None);
    assert_eq!(
        told(&decided(&Node::text("Six"))),
        Some((Level::Warning, "Invalid option for apt_pipelining: Six".to_owned()))
    );
}
