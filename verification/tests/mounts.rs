//! Mounts and swap.

use ci_modules::cc::mounts::devices::{
    is_device_name, is_meta_device_name, is_network_device, parse_fstab, read_fstab, sanitize_devname,
    sanitized_devname_is_valid,
};
use ci_modules::cc::mounts::entries::{
    add_comment, add_default_mounts_to_cfg, plan_fstab, remove_nonexistent_devices, sanitize_mounts_configuration,
};
use ci_modules::cc::mounts::swap::{statvfs_available, suggested_swapsize, GB};
use ci_modules::cc::mounts::{expand_dotted_devname, handle_with, run, Fixture, Step, SwapMethod};
use ci_modules::value::{Node, Object};

/// A value written as JSON.
fn json(text: &str) -> Node {
    node(&serde_json::from_str(text).unwrap())
}

fn node(v: &serde_json::Value) -> Node {
    match v {
        serde_json::Value::Null => Node::Null,
        serde_json::Value::Bool(b) => Node::Bool(*b),
        serde_json::Value::Number(n) => match n.as_i128() {
            Some(i) => Node::Int(i),
            None => Node::Float(n.to_string()),
        },
        serde_json::Value::String(s) => Node::Text(s.clone()),
        serde_json::Value::Array(items) => Node::Array(items.iter().map(node).collect()),
        serde_json::Value::Object(map) => {
            let mut o = Object::new();
            for (key, value) in map {
                o.insert(key, node(value));
            }
            Node::Object(o)
        }
    }
}

fn object(v: Node) -> Object {
    match v {
        Node::Object(o) => o,
        _ => Object::new(),
    }
}

fn strs(tokens: &[&str]) -> Vec<Node> {
    tokens
        .iter()
        .map(|t| Node::text(t))
        .collect()
}

fn debugs(steps: &[Step]) -> Vec<&str> {
    steps
        .iter()
        .filter_map(|step| match step {
            Step::Debug(message) | Step::Warning(message) => Some(message.as_str()),
            _ => None,
        })
        .collect()
}

fn fixture() -> Fixture {
    Fixture {
        paths: [
            "/dev/sda",
            "/dev/sda1",
            "/dev/sdb",
            "/sys/block/sda",
            "/sys/block/sda/sda1",
            "/sys/block/sdb",
        ]
        .iter()
        .map(|path| (*path).to_owned())
        .collect(),
        ..Fixture::default()
    }
}

#[test]
fn expand_dotted_devname_splits_on_the_last_dot() {
    assert_eq!(expand_dotted_devname("sda"), ("sda".to_owned(), None));
    assert_eq!(expand_dotted_devname("sda.1"), ("sda".to_owned(), Some("1".to_owned())));
    assert_eq!(expand_dotted_devname("a.b.2"), ("a.b".to_owned(), Some("2".to_owned())));
    assert_eq!(expand_dotted_devname("sda."), ("sda".to_owned(), Some("".to_owned())));
    assert_eq!(expand_dotted_devname(""), ("".to_owned(), None));
}

#[test]
fn meta_device_names_are_the_metadata_aliases() {
    for name in ["ami", "root", "swap", "ephemeral", "ephemeral0", "ebs1"] {
        assert!(is_meta_device_name(name), "{name}");
    }
    for name in ["ephemeral0:x", "sda", "", "Root", "ebs:1"] {
        assert!(!is_meta_device_name(name), "{name}");
    }
}

#[test]
fn network_names_need_a_colon_with_something_before_it() {
    assert!(is_network_device("server:/path"));
    assert!(is_network_device("a:"));
    assert!(is_network_device("a:b\nc"));
    assert!(!is_network_device(":/path"));
    assert!(!is_network_device("nocolon"));
    assert!(!is_network_device("a\nb:c"));
}

#[test]
fn the_device_filter_accepts_a_trailing_newline_like_python() {
    for name in ["sda", "sda1", "xvda", "xvdb1", "hda", "vdd1", "sr0", "sr12"] {
        assert!(is_device_name(name), "{name}");
    }
    assert!(is_device_name("sda1\n"));
    for name in ["sda1\nx", "SDA1", "xxvda", "nvme0n1", "", "sda1 "] {
        assert!(!is_device_name(name), "{name}");
    }
}

#[test]
fn a_whole_disk_resolves_and_a_missing_one_does_not() {
    let mut host = fixture();
    let mut steps = Vec::new();
    assert_eq!(
        sanitize_devname("sdb", &Vec::new(), &Object::new(), &mut steps, &mut host),
        Some("/dev/sdb".to_owned())
    );
    assert_eq!(
        debugs(&steps),
        ["Attempting to determine the real name of sdb"]
    );

    let mut steps = Vec::new();
    assert_eq!(
        sanitize_devname("sdz", &Vec::new(), &Object::new(), &mut steps, &mut host),
        None
    );
}

#[test]
fn a_disk_with_a_first_partition_resolves_to_the_partition() {
    let mut host = fixture();
    let mut steps = Vec::new();
    assert_eq!(
        sanitize_devname("sda", &Vec::new(), &Object::new(), &mut steps, &mut host),
        Some("/dev/sda1".to_owned())
    );
}

#[test]
fn a_dotted_name_never_reaches_dev() {
    let mut host = fixture();
    let mut steps = Vec::new();
    assert_eq!(
        sanitize_devname("sda.1", &Vec::new(), &Object::new(), &mut steps, &mut host),
        None
    );
    let mut aliases = Object::new();
    aliases.insert("sda", Node::text("/dev/sda"));
    let mut steps = Vec::new();
    assert_eq!(
        sanitize_devname("sda.1", &Vec::new(), &aliases, &mut steps, &mut host),
        Some("/dev/sda1".to_owned())
    );
    assert!(debugs(&steps).contains(&"Mapped device alias sda to /dev/sda"));
}

#[test]
fn ephemeral_is_rewritten_then_handed_to_the_datasource() {
    let mut host = fixture();
    let mut steps = Vec::new();
    let devices = vec![("ephemeral0".to_owned(), "sdb".to_owned())];
    assert_eq!(
        sanitize_devname("ephemeral", &devices, &Object::new(), &mut steps, &mut host),
        Some("/dev/sdb".to_owned())
    );
    assert_eq!(
        debugs(&steps),
        [
            "Attempting to determine the real name of ephemeral",
            "Adjusted mount option from ephemeral to ephemeral0",
            "Mapped metadata name ephemeral0 to /dev/sdb",
        ]
    );
}

#[test]
fn an_empty_answer_from_the_datasource_is_no_device() {
    let mut host = fixture();
    let mut steps = Vec::new();
    let devices = vec![("ephemeral0".to_owned(), String::new())];
    assert_eq!(
        sanitize_devname("ephemeral0", &devices, &Object::new(), &mut steps, &mut host),
        None
    );
}

#[test]
fn a_network_mount_is_passed_through_untouched() {
    let mut host = fixture();
    let mut steps = Vec::new();
    assert_eq!(
        sanitize_devname("server:/export", &Vec::new(), &Object::new(), &mut steps, &mut host),
        Some("server:/export".to_owned())
    );
}

#[test]
fn parse_fstab_separates_the_lines_this_module_owns() {
    let mut host = Fixture {
        paths: vec!["/etc/fstab".to_owned()],
        files: vec![(
            "/etc/fstab".to_owned(),
        "/dev/sda1 / ext4 defaults 0 1\n\
         \n\
         /dev/sdb /mnt auto defaults,comment=cloudconfig 0 2\n\
         /dev/sdc /srv ext4 defaults 0 2\n"
            .to_owned(),
        )],
        ..Fixture::default()
    };

    let fstab = parse_fstab(&mut host);
    assert_eq!(
        fstab.lines,
        [
            "/dev/sda1 / ext4 defaults 0 1",
            "/dev/sdc /srv ext4 defaults 0 2",
        ]
    );
    assert_eq!(
        fstab.removed,
        ["/dev/sdb /mnt auto defaults,comment=cloudconfig 0 2"]
    );
    assert_eq!(fstab.devs.len(), 2);
    assert!(fstab.devs.contains_key("/dev/sda1"));
}

#[test]
fn a_missing_fstab_is_empty_rather_than_an_error() {
    let fstab = parse_fstab(&mut Fixture::default());
    assert!(fstab.lines.is_empty());
    assert!(fstab.devs.is_empty());
    assert!(fstab.removed.is_empty());
}

fn defaults() -> Vec<Node> {
    vec![
        Node::Null,
        Node::Null,
        Node::text("auto"),
        Node::text("defaults,nobootwait"),
        Node::text("0"),
        Node::text("2"),
    ]
}

fn sanitize(mounts: &Node, defaults: &Vec<Node>) -> Result<Vec<Vec<Node>>, String> {
    let mut host = fixture();
    let mut steps = Vec::new();
    sanitize_mounts_configuration(mounts, &Object::new(), &Vec::new(), &Object::new(), defaults, &mut steps, &mut host)
}

#[test]
fn a_short_entry_is_padded_from_the_defaults() {
    let mounts = Node::Array(vec![Node::Array(strs(&["sdb"]))]);
    let got = sanitize(&mounts, &defaults()).unwrap();
    assert_eq!(got.len(), 1);
    assert_eq!(got[0][0], Node::text("/dev/sdb"));
    assert_eq!(got[0][1], Node::Null);
    assert_eq!(got[0].len(), 6);
}

#[test]
fn an_empty_entry_is_an_index_error() {
    let mounts = Node::Array(vec![Node::Array(Vec::new())]);
    assert_eq!(
        sanitize(&mounts, &defaults()),
        Err("list index out of range".to_owned())
    );
}

#[test]
fn a_null_past_the_end_of_the_defaults_is_an_index_error() {
    let mut entry = strs(&["a", "b", "c", "d", "e", "f"]);
    entry.push(Node::Null);
    let mounts = Node::Array(vec![Node::Array(entry)]);
    assert_eq!(
        sanitize(&mounts, &defaults()),
        Err("list index out of range".to_owned())
    );
}

#[test]
fn a_seven_field_entry_without_a_null_is_left_alone() {
    let entry = strs(&["a", "b", "c", "d", "e", "f", "g"]);
    let mounts = Node::Array(vec![Node::Array(entry.clone())]);
    assert_eq!(sanitize(&mounts, &defaults()).unwrap(), vec![entry]);
}

#[test]
fn empty_defaults_pad_nothing() {
    let mounts = Node::Array(vec![Node::Array(strs(&["sdb"]))]);
    let got = sanitize(&mounts, &Vec::new()).unwrap();
    assert_eq!(got, vec![strs(&["/dev/sdb"])]);
}

#[test]
fn a_non_list_entry_is_warned_about_and_skipped() {
    let mounts = Node::Array(vec![Node::text("sdb")]);
    let mut host = fixture();
    let mut steps = Vec::new();
    let got = sanitize_mounts_configuration(&mounts, &Object::new(), &Vec::new(), &Object::new(), &defaults(), &mut steps, &mut host)
    .unwrap();
    assert!(got.is_empty());
    assert_eq!(
        steps,
        [Step::Warning(
            "Mount option not a list, ignoring: sdb".to_owned()
        )]
    );
}

#[test]
fn a_string_config_iterates_its_characters() {
    let mounts = Node::text("ab");
    let mut host = fixture();
    let mut steps = Vec::new();
    let got = sanitize_mounts_configuration(&mounts, &Object::new(), &Vec::new(), &Object::new(), &defaults(), &mut steps, &mut host)
    .unwrap();
    assert!(got.is_empty());
    assert_eq!(steps.len(), 2);
}

#[test]
fn a_scalar_config_is_not_iterable() {
    let mounts = Node::Null;
    assert_eq!(
        sanitize(&mounts, &defaults()),
        Err("'NoneType' object is not iterable".to_owned())
    );
}

#[test]
fn an_entry_without_a_mountpoint_is_dropped() {
    let mounts = vec![
        strs(&["/dev/sdb", "/mnt", "auto", "defaults", "0", "2"]),
        vec![
            Node::text("/dev/sdc"),
            Node::Null,
            Node::text("auto"),
        ],
    ];
    let mut steps = Vec::new();
    let got = remove_nonexistent_devices(&mounts, &mut steps).unwrap();
    assert_eq!(got, vec![mounts[0].clone()]);
    assert_eq!(
        debugs(&steps),
        ["Skipping nonexistent device named /dev/sdc"]
    );
}

#[test]
fn a_later_bad_entry_suppresses_an_earlier_good_one() {
    let mounts = vec![
        strs(&["/dev/sdb", "/mnt", "auto", "defaults", "0", "2"]),
        vec![Node::text("/dev/sdb"), Node::Null],
    ];
    let mut steps = Vec::new();
    assert!(remove_nonexistent_devices(&mounts, &mut steps)
        .unwrap()
        .is_empty());
}

#[test]
fn an_entry_shorter_than_two_tokens_is_an_index_error() {
    let mounts = vec![strs(&["sda1"])];
    let mut steps = Vec::new();
    assert_eq!(
        remove_nonexistent_devices(&mounts, &mut steps),
        Err("list index out of range".to_owned())
    );
}

#[test]
fn add_comment_tags_the_options_field() {
    let mounts = vec![strs(&["a", "b", "c", "d", "e", "f"])];
    assert_eq!(
        add_comment(&mounts).unwrap(),
        vec![strs(&["a", "b", "c", "d,comment=cloudconfig", "e", "f"])]
    );
}

#[test]
fn add_comment_needs_a_fourth_field() {
    assert_eq!(
        add_comment(&vec![strs(&["a"])]),
        Err("list index out of range".to_owned())
    );
}

#[test]
fn defaults_are_added_only_when_the_device_is_real() {
    let mut host = fixture();
    let mut steps = Vec::new();
    let devices = vec![("ephemeral0".to_owned(), "sdb".to_owned())];
    let got = add_default_mounts_to_cfg(&Vec::new(), "defaults,nobootwait", &Object::new(), &devices, &Object::new(), &mut steps, &mut host);
    assert_eq!(
        got,
        vec![strs(&[
            "/dev/sdb",
            "/mnt",
            "auto",
            "defaults,nobootwait",
            "0",
            "2"
        ])]
    );
    assert!(
        debugs(&steps).contains(&"Ignoring nonexistent default named mount swap")
    );
}

#[test]
fn a_default_already_in_the_config_is_not_added_twice() {
    let mut host = fixture();
    let mut steps = Vec::new();
    let devices = vec![
        ("ephemeral0".to_owned(), "sdb".to_owned()),
        ("swap".to_owned(), "sdb".to_owned()),
    ];
    let existing = vec![strs(&["/dev/sdb", "/data", "auto", "defaults", "0", "2"])];
    let got = add_default_mounts_to_cfg(&existing, "defaults,nobootwait", &Object::new(), &devices, &Object::new(), &mut steps, &mut host);
    assert_eq!(got, existing);
    assert!(debugs(&steps)
        .contains(&"Not including ephemeral0, already previously included"));
}

#[test]
fn a_device_already_in_fstab_is_left_to_the_image() {
    let mut fstab_devs = Object::new();
    fstab_devs.insert(
        "/dev/sdb",
        Node::text("/dev/sdb /srv ext4 defaults 0 2"),
    );
    let mut steps = Vec::new();
    assert!(!sanitized_devname_is_valid(
        "sdb",
        Some("/dev/sdb"),
        &fstab_devs,
        &mut steps
    ));
    assert_eq!(
        debugs(&steps),
        [
            "changed sdb => /dev/sdb",
            "Device /dev/sdb already defined in fstab: /dev/sdb /srv ext4 defaults 0 2",
        ]
    );
}

/// A machine that knows how sizes are printed, and two roots.
fn sizes() -> Fixture {
    let mut prints = vec![
        (1, "9.5367431640625e-07".to_owned()),
        (2, "1.9073486328125e-06".to_owned()),
    ];
    let whole = [0, GB, 2 * GB, 4 * GB, 6 * GB, 8 * GB, 16 * GB, 32 * GB, 64 * GB, 128 * GB];
    let others = [14_167_855_104, 14_167_855_104 / 4, 14_167_855_104 * 9 / 10, 1_000_000_000_000_000];
    for size in whole.into_iter().chain(others) {
        prints.push((size, format!("{:?}", size as f64 / 1_048_576.0)));
    }
    Fixture { prints, roots: vec![(32 * GB, 6), (64 * GB, 8)], ..Fixture::default() }
}

#[test]
fn suggested_swapsize_matches_upstream_without_a_filesystem() {
    let cases: [(u64, Option<u64>, u64, &str); 6] = [
        (2 * GB, None, 2 * GB,
         "suggest 2048.0 MB swap for 2048.0 MB memory with 'na' disk given max=None [max=4096.0 MB]'"),
        (2 * GB, Some(GB), GB,
         "suggest 1024.0 MB swap for 2048.0 MB memory with 'na' disk given max=1024.0 MB [max=1024.0 MB]'"),
        (8 * GB, None, 4 * GB,
         "suggest 4096.0 MB swap for 8192.0 MB memory with 'na' disk given max=None [max=16384.0 MB]'"),
        (32 * GB, None, 6 * GB,
         "suggest 6144.0 MB swap for 32768.0 MB memory with 'na' disk given max=None [max=65536.0 MB]'"),
        (64 * GB, None, 8 * GB,
         "suggest 8192.0 MB swap for 65536.0 MB memory with 'na' disk given max=None [max=131072.0 MB]'"),
        (0, None, 0,
         "suggest 0.0 MB swap for 0.0 MB memory with 'na' disk given max=None [max=0.0 MB]'"),
    ];
    for (memsize, maxsize, want, log) in cases {
        let mut steps = Vec::new();
        assert_eq!(suggested_swapsize(memsize, maxsize, None, &mut steps, &mut sizes()), want);
        assert_eq!(debugs(&steps), [log], "mem={memsize}");
    }
}

#[test]
fn suggested_swapsize_prints_a_tiny_memory_in_exponent_form() {
    let mut steps = Vec::new();
    assert_eq!(suggested_swapsize(1, None, None, &mut steps, &mut sizes()), 1);
    assert_eq!(
        debugs(&steps),
        ["suggest 9.5367431640625e-07 MB swap for 9.5367431640625e-07 MB memory \
          with 'na' disk given max=None [max=1.9073486328125e-06 MB]'"]
    );
}

#[test]
fn suggested_swapsize_matches_upstream_with_a_filesystem() {
    let avail = 14_167_855_104_u64;
    let cases: [(u64, Option<u64>, u64, &str); 3] = [
        (2 * GB, None, 2 * GB,
         "suggest 2048.0 MB swap for 2048.0 MB memory with '13511.51953125 MB' disk given max=None [max=3377.8798828125 MB]'"),
        (2 * GB, Some(1_000_000_000_000_000), 2 * GB,
         "suggest 2048.0 MB swap for 2048.0 MB memory with '13511.51953125 MB' disk given max=953674316.40625 MB [max=12160.367577552795 MB]'"),
        (2 * GB, Some(GB), GB,
         "suggest 1024.0 MB swap for 2048.0 MB memory with '13511.51953125 MB' disk given max=1024.0 MB [max=1024.0 MB]'"),
    ];
    for (memsize, maxsize, want, log) in cases {
        let mut steps = Vec::new();
        assert_eq!(
            suggested_swapsize(memsize, maxsize, Some(avail), &mut steps, &mut sizes()),
            want
        );
        assert_eq!(debugs(&steps), [log], "mem={memsize} max={maxsize:?}");
    }
}

#[test]
fn what_was_written_is_known_again_and_other_lines_are_kept() {
    let fstab = read_fstab("/dev/sda1 / ext4 defaults 0 1\n");
    let mounts = vec![strs(&["/dev/sdb", "/mnt", "auto", "defaults,comment=cloudconfig", "0", "2"])];
    let steps = plan_fstab(&mounts, &fstab, false).unwrap();
    let text = steps
        .iter()
        .find_map(|step| match step {
            Step::WriteFstab(text) => Some(text.clone()),
            _ => None,
        })
        .unwrap();
    let again = read_fstab(&text);
    assert_eq!(again.lines, ["/dev/sda1 / ext4 defaults 0 1"]);
    assert_eq!(again.removed.len(), 1);
}

#[test]
fn a_configured_mount_ends_up_in_the_table() {
    let mut host = fixture();
    let cfg = object(json(r#"{"mounts": [["sdb", "/data", "ext4"]]}"#));
    handle_with(&cfg, false, &mut host).unwrap();
    assert_eq!(host.written.len(), 1);
    assert_eq!(host.written[0].0, "/etc/fstab");
    assert!(host.written[0].1.contains("/dev/sdb\t/data\text4\tdefaults,nobootwait,comment=cloudconfig\t0\t2"));
}

/// A name of the metadata stands for no device of the machine and is written as it is.
#[test]
fn a_metadata_name_stays_as_it_is_written() {
    let mut host = fixture();
    let cfg = object(json(r#"{"mounts": [["ephemeral0", "/data", "ext4"]]}"#));
    handle_with(&cfg, false, &mut host).unwrap();
    assert!(host.written[0].1.contains("ephemeral0\t/data\text4\t"));
}

#[test]
fn a_step_that_fails_ends_the_run() {
    let mut host = Fixture {
        errors: vec![("write /etc/fstab".to_owned(), "no".to_owned())],
        ..Fixture::default()
    };
    let steps = vec![Step::WriteFstab("x".to_owned()), Step::SwapOn];
    assert_eq!(run(&steps, true, &mut host), Err("no".to_owned()));
    assert_eq!(host.calls, ["write /etc/fstab"]);
}

#[test]
fn away_from_the_machine_itself_no_command_is_run() {
    let steps = vec![
        Step::EnsureDir("/mnt".to_owned()),
        Step::BtrfsPrepare("/swap".to_owned()),
        Step::CreateSwap {
            path: "/swap".to_owned(),
            mib: "1".to_owned(),
            method: SwapMethod::Fallocate,
            fstype: "ext4".to_owned(),
        },
        Step::Mkswap("/swap".to_owned()),
        Step::WriteFstab("x".to_owned()),
        Step::SwapOn,
        Step::MountAll { daemon_reload: true, changes_made: true, dirs: vec![] },
    ];
    let mut host = Fixture::default();
    assert_eq!(run(&steps, false, &mut host), Ok(()));
    assert_eq!(host.calls, ["ensure_dir /mnt", "write /etc/fstab"]);
    let mut host = Fixture::default();
    assert_eq!(run(&steps, true, &mut host), Ok(()));
    assert_eq!(
        host.calls,
        [
            "ensure_dir /mnt",
            "subp truncate -s 0 /swap",
            "subp chattr +C /swap",
            "subp fallocate -l 1M /swap",
            "subp mkswap /swap",
            "write /etc/fstab",
            "subp swapon -a",
            "subp mount -a",
            "subp systemctl daemon-reload",
        ]
    );
}

#[test]
fn what_is_mounted_already_is_left_alone() {
    let step = |changes_made| {
        vec![Step::MountAll {
            daemon_reload: false,
            changes_made,
            dirs: vec!["/mnt".to_owned(), "/srv".to_owned()],
        }]
    };
    let host = || Fixture {
        mounted: vec!["/mnt".to_owned(), "/srv".to_owned()],
        ..Fixture::default()
    };
    let mut all = host();
    assert_eq!(run(&step(false), true, &mut all), Ok(()));
    assert!(all.calls.is_empty());
    let mut changed = host();
    assert_eq!(run(&step(true), true, &mut changed), Ok(()));
    assert_eq!(changed.calls, ["subp mount -a"]);
    let mut one = host();
    one.mounted.pop();
    assert_eq!(run(&step(false), true, &mut one), Ok(()));
    assert_eq!(one.calls, ["subp mount -a"]);
}

#[test]
fn a_swap_file_that_cannot_be_allocated_is_copied_together() {
    let steps = vec![Step::CreateSwap {
        path: "/swap".to_owned(),
        mib: "2".to_owned(),
        method: SwapMethod::Fallocate,
        fstype: "ext4".to_owned(),
    }];
    let mut host = Fixture {
        errors: vec![("subp fallocate -l 2M /swap".to_owned(), "no room".to_owned())],
        ..Fixture::default()
    };
    assert_eq!(run(&steps, true, &mut host), Ok(()));
    assert_eq!(
        host.calls,
        [
            "subp fallocate -l 2M /swap",
            "remove /swap",
            "subp dd if=/dev/zero of=/swap bs=1M count=2",
        ]
    );
}

#[test]
fn the_room_is_the_product_of_two_printed_numbers() {
    assert_eq!(statvfs_available(" 10 4096\n"), Some(40960));
    assert_eq!(statvfs_available("10"), None);
    assert_eq!(statvfs_available("x 4096"), None);
}
