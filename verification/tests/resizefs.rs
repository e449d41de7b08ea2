//! Growing the root file system.

use ci_modules::cc::resizefs::{
    forked_resize, handle_with, resizer_for, translate_bool_noblock, CommandResult, Fixture, Mount, Resizer,
};
use ci_modules::cc::version::read_version;
use ci_modules::value::{Node, Object};

/// A value written as JSON.
fn json(text: &str) -> Node {
    node(&serde_json::from_str(text).unwrap())
}

fn node(v: &serde_json::Value) -> Node {
    match v {
        serde_json::Value::Null => Node::Null,
        serde_json::Value::Bool(b) => Node::Bool(*b),
        serde_json::Value::Number(n) => match n.as_i128() {
            Some(i) => Node::Int(i),
            None => Node::Float(n.to_string()),
        },
        serde_json::Value::String(s) => Node::Text(s.clone()),
        serde_json::Value::Array(items) => Node::Array(items.iter().map(node).collect()),
        serde_json::Value::Object(map) => {
            let mut o = Object::new();
            for (key, value) in map {
                o.insert(key, node(value));
            }
            Node::Object(o)
        }
    }
}

fn mount(devpth: &str, fs_type: &str, opts: &str) -> Vec<(String, Mount)> {
    vec![(
        "/".to_owned(),
        Mount {
            devpth: devpth.to_owned(),
            fs_type: fs_type.to_owned(),
            mount_point: "/".to_owned(),
            opts: opts.to_owned(),
        },
    )]
}

fn block(path: &str) -> Vec<(String, u32)> {
    vec![(path.to_owned(), 0o60_660)]
}

fn commands(items: &[(&str, i32, &str, &str)]) -> Vec<(String, CommandResult)> {
    items
        .iter()
        .map(|(key, code, stdout, stderr)| {
            (
                (*key).to_owned(),
                CommandResult {
                    exit_code: *code,
                    stdout: (*stdout).to_owned(),
                    stderr: (*stderr).to_owned(),
                },
            )
        })
        .collect()
}

fn run(cfg: &Node, fixture: Fixture) -> (Result<(), String>, Vec<String>, Vec<String>) {
    let mut host = fixture;
    let cfg = match cfg {
        Node::Object(map) => map.clone(),
        _ => Object::new(),
    };
    let outcome = handle_with("resizefs", &cfg, &Node::Array(Vec::new()), &mut host);
    (outcome, host.log, host.calls)
}

#[test]
fn an_ext4_root_is_grown_with_resize2fs() {
    let (outcome, log, calls) = run(
        &json(r#"{}"#),
        Fixture {
            mounts: mount("/dev/sda1", "ext4", "rw,relatime"),
            stat: block("/dev/sda1"),
            commands: commands(&[("resize2fs /dev/sda1", 0, "", "")]),
            ..Fixture::default()
        },
    );
    assert!(outcome.is_ok());
    assert!(calls.contains(&"subp resize2fs /dev/sda1".to_owned()));
    assert!(log.iter().any(|line| line
        == "cc_resizefs.py[DEBUG]: Resizing / (ext4) using resize2fs /dev/sda1"));
    assert!(log.iter().any(|line| line
        == "cc_resizefs.py[DEBUG]: Resized root filesystem (type=ext4, val=True)"));
}

#[test]
fn resize_rootfs_false_stops_before_the_mount_table_is_read() {
    let (outcome, log, calls) = run(
        &json(r#"{"resize_rootfs": false}"#),
        Fixture::default(),
    );
    assert!(outcome.is_ok());
    assert!(calls.is_empty());
    assert_eq!(
        log,
        ["cc_resizefs.py[DEBUG]: Skipping module named resizefs, resizing disabled"]
    );
}

#[test]
fn noblock_forks_instead_of_waiting() {
    let (outcome, log, calls) = run(
        &json(r#"{"resize_rootfs": "noblock"}"#),
        Fixture {
            mounts: mount("/dev/sda1", "ext4", "rw"),
            stat: block("/dev/sda1"),
            ..Fixture::default()
        },
    );
    assert!(outcome.is_ok());
    assert!(calls.contains(&"fork resize2fs /dev/sda1".to_owned()));
    assert!(log.iter().any(|line| line
        == "cc_resizefs.py[DEBUG]: Resizing (via forking) root filesystem \
            (type=ext4, val=noblock)"));
}

#[test]
fn a_failed_resize_is_logged_twice_and_re_raised() {
    let (outcome, log, _) = run(
        &json(r#"{}"#),
        Fixture {
            mounts: mount("/dev/sda1", "ext4", "rw"),
            stat: block("/dev/sda1"),
            commands: commands(&[("resize2fs /dev/sda1", 1, "", "bad magic\n")]),
            ..Fixture::default()
        },
    );
    assert!(outcome.is_err());
    assert!(outcome.unwrap_err().contains("Stderr: bad magic"));
    assert_eq!(
        log.iter()
            .filter(|line| line.contains(
                "Failed to resize filesystem (cmd=('resize2fs', '/dev/sda1'))"
            ))
            .count(),
        2
    );
}

#[test]
fn a_read_only_btrfs_root_is_grown_through_its_snapshot_subvolume() {
    let (outcome, _, calls) = run(
        &json(r#"{}"#),
        Fixture {
            mounts: mount("/dev/sda1", "btrfs", "ro,relatime"),
            stat: block("/dev/sda1"),
            dirs: vec!["//.snapshots".to_owned()],
            commands: commands(&[
                ("btrfs --version", 0, "btrfs-progs v6.2\n", ""),
                (
                    "btrfs filesystem resize --enqueue max //.snapshots",
                    0,
                    "",
                    "",
                ),
            ]),
            ..Fixture::default()
        },
    );
    assert!(outcome.is_ok());
    assert!(calls.contains(
        &"subp btrfs filesystem resize --enqueue max //.snapshots".to_owned()
    ));
}

#[test]
fn an_old_btrfs_does_not_get_the_enqueue_flag() {
    let (outcome, _, calls) = run(
        &json(r#"{}"#),
        Fixture {
            mounts: mount("/dev/sda1", "btrfs", "rw"),
            stat: block("/dev/sda1"),
            commands: commands(&[
                ("btrfs --version", 0, "btrfs-progs v5.4.1\n", ""),
                ("btrfs filesystem resize max /", 0, "", ""),
            ]),
            ..Fixture::default()
        },
    );
    assert!(outcome.is_ok());
    assert!(calls.contains(&"subp btrfs filesystem resize max /".to_owned()));
}

#[test]
fn dev_root_is_resolved_through_the_kernel_command_line() {
    let (outcome, log, _) = run(
        &json(r#"{}"#),
        Fixture {
            mounts: mount("/dev/root", "xfs", "rw"),
            stat: block("/dev/sda1"),
            cmdline: "root=/dev/sda1 ro".to_owned(),
            commands: commands(&[("xfs_growfs /", 0, "", "")]),
            ..Fixture::default()
        },
    );
    assert!(outcome.is_ok());
    assert!(log.iter().any(|line| line
        == "cc_resizefs.py[DEBUG]: Converted /dev/root to '/dev/sda1' per \
            kernel cmdline"));
}

#[test]
fn a_device_that_is_not_a_block_device_warns_and_stops() {
    let (outcome, log, _) = run(
        &json(r#"{}"#),
        Fixture {
            mounts: mount("/dev/loop0", "ext4", "rw"),
            stat: vec![("/dev/loop0".to_owned(), 0o100_644)],
            ..Fixture::default()
        },
    );
    assert!(outcome.is_ok());
    assert!(log.iter().any(|line| line.starts_with(
        "cc_resizefs.py[WARNING]: device '/dev/loop0' not a block device."
    )));
}

#[test]
fn an_unknown_filesystem_type_is_left_alone() {
    let (outcome, log, _) = run(
        &json(r#"{}"#),
        Fixture {
            mounts: mount("/dev/sda1", "reiserfs", "rw"),
            stat: block("/dev/sda1"),
            ..Fixture::default()
        },
    );
    assert!(outcome.is_ok());
    assert!(log.iter().any(|line| line
        == "cc_resizefs.py[WARNING]: Not resizing unknown filesystem type \
            reiserfs for /"));
}

#[test]
fn a_ufs_root_that_is_already_big_enough_is_skipped() {
    let (outcome, log, _) = run(
        &json(r#"{}"#),
        Fixture {
            mounts: mount("/dev/da0p3", "ufs", "rw"),
            stat: block("/dev/da0p3"),
            commands: commands(&[(
                "growfs -N /dev/da0p3",
                1,
                "",
                "growfs: requested size 4.0GB is not larger than the current \
                 filesystem size 4.0GB\n",
            )]),
            ..Fixture::default()
        },
    );
    assert!(outcome.is_ok());
    assert!(log.iter().any(|line| line
        == "cc_resizefs.py[DEBUG]: Skip resize filesystem type ufs for /"));
}

#[test]
fn a_version_compares_lexicographically_with_a_missing_field_as_minus_one() {
    assert!(
        read_version("5.10").unwrap() >= read_version("5.10").unwrap()
    );
    assert!(
        read_version("6.2").unwrap() >= read_version("5.10").unwrap()
    );
    assert!(
        read_version("5.10.0").unwrap() >= read_version("5.10").unwrap()
    );
    assert!(
        read_version("4.20").unwrap() < read_version("5.10").unwrap()
    );
    assert!(
        read_version("5.4.1").unwrap() < read_version("5.10").unwrap()
    );
    assert_eq!(
        read_version("6.x").unwrap_err(),
        "invalid literal for int() with base 10: 'x'"
    );
}

#[test]
fn every_known_kind_has_its_tool() {
    assert_eq!(resizer_for("ext4"), Some(Resizer::Ext));
    assert_eq!(resizer_for("xfs"), Some(Resizer::Xfs));
    assert_eq!(resizer_for("btrfs"), Some(Resizer::Btrfs));
    assert_eq!(resizer_for("ntfs"), None);
}

#[test]
fn the_word_for_not_waiting_is_a_word_for_yes() {
    assert!(translate_bool_noblock(&Node::text("NoBlock ")));
    assert!(translate_bool_noblock(&Node::Bool(true)));
    assert!(!translate_bool_noblock(&Node::text("no")));
}

#[test]
fn a_resize_that_nobody_waits_for_says_twice_over_that_it_failed() {
    let mut host = Fixture {
        commands: commands(&[("resize2fs /dev/sda1", 1, "", "bad magic\n")]),
        ..Fixture::default()
    };
    forked_resize(&vec!["resize2fs".to_owned(), "/dev/sda1".to_owned()], &mut host);
    assert_eq!(
        host.log,
        [
            "log_util.py[WARNING]: Failed to resize filesystem (cmd=('resize2fs', '/dev/sda1'))",
            "log_util.py[DEBUG]: Failed to resize filesystem (cmd=('resize2fs', '/dev/sda1'))",
            "log_util.py[WARNING]: Failed forking and calling callback do_resize",
            "log_util.py[DEBUG]: Failed forking and calling callback do_resize",
        ]
    );
}

#[test]
fn a_container_is_warned_less_loudly() {
    let pool = |container: bool| {
        let (_, log, _) = run(
            &json(r#"{}"#),
            Fixture {
                mounts: mount("zroot/ROOT", "zfs", "rw"),
                paths: vec!["/dev/zfs".to_owned()],
                commands: commands(&[("zpool status zroot", 0, "nothing\n", "")]),
                container,
                ..Fixture::default()
            },
        );
        log
    };
    assert_eq!(pool(true), ["cc_resizefs.py[DEBUG]: No zpool found: [zroot]: out: [nothing\n] err: "]);
    assert_eq!(pool(false), ["cc_resizefs.py[WARNING]: No zpool found: [zroot]: out: [nothing\n] err: "]);
}
