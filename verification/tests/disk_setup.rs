//! Setting up disks and filesystems.

use ci_modules::cc::disk_setup::format::{lookup_force_flag, percent_format};
use ci_modules::cc::disk_setup::layout::partition_type_matches;
use ci_modules::cc::disk_setup::make::ljust;
use ci_modules::cc::disk_setup::probe::value_splitter;
use ci_modules::cc::disk_setup::{
    alias_to_device, handle_with, update_disk_setup_devices, update_fs_setup_devices, Fixture,
};
use ci_modules::cc::growpart::CommandResult;
use ci_modules::value::{Node, Object};

/// A value written as JSON.
fn json(text: &str) -> Node {
    node(&serde_json::from_str(text).unwrap())
}

fn node(v: &serde_json::Value) -> Node {
    match v {
        serde_json::Value::Null => Node::Null,
        serde_json::Value::Bool(b) => Node::Bool(*b),
        serde_json::Value::Number(n) => match n.as_i128() {
            Some(i) => Node::Int(i),
            None => Node::Float(n.to_string()),
        },
        serde_json::Value::String(s) => Node::Text(s.clone()),
        serde_json::Value::Array(items) => Node::Array(items.iter().map(node).collect()),
        serde_json::Value::Object(map) => {
            let mut o = Object::new();
            for (key, value) in map {
                o.insert(key, node(value));
            }
            Node::Object(o)
        }
    }
}

fn object(v: Node) -> Object {
    match v {
        Node::Object(o) => o,
        _ => Object::new(),
    }
}

fn owned(items: &[&str]) -> Vec<String> {
    items.iter().map(|item| (*item).to_owned()).collect()
}

fn pairs(items: &[(&str, &str)]) -> Vec<(String, String)> {
    items
        .iter()
        .map(|(key, value)| ((*key).to_owned(), (*value).to_owned()))
        .collect()
}

fn commands(items: &[(&str, &str)]) -> Vec<(String, CommandResult)> {
    items
        .iter()
        .map(|(key, stdout)| {
            (
                (*key).to_owned(),
                CommandResult {
                    exit_code: 0,
                    stdout: (*stdout).to_owned(),
                    stderr: String::new(),
                },
            )
        })
        .collect()
}

fn machine() -> Fixture {
    Fixture {
        commands: commands(&[
            ("udevadm settle", ""),
            ("partprobe /dev/sdb", ""),
            (
                "lsblk --pairs --output NAME,TYPE,FSTYPE,LABEL /dev/sdb --nodeps",
                "NAME=\"sdb\" TYPE=\"disk\" FSTYPE=\"\" LABEL=\"\"\n",
            ),
            (
                "lsblk --pairs --output NAME,TYPE,FSTYPE,LABEL /dev/sdb",
                "NAME=\"sdb\" TYPE=\"disk\" FSTYPE=\"\" LABEL=\"\"\n",
            ),
            ("sgdisk -p /dev/sdb", "Number  Start End Size Code Name\n"),
            ("blockdev --getsize64 /dev/sdb", "429496729600\n"),
            ("blockdev --getss /dev/sdb", "512\n"),
            ("sgdisk -Z /dev/sdb", ""),
            ("sgdisk -n 1:0:0 /dev/sdb", ""),
            ("sgdisk -n 1:0:+419430400 /dev/sdb", ""),
            ("sgdisk -n 2:0:0 /dev/sdb", ""),
            ("sgdisk -t 1:8300 /dev/sdb", ""),
            ("sgdisk -t 2:8200 /dev/sdb", ""),
        ]),
        which: pairs(&[
            ("sgdisk", "/usr/sbin/sgdisk"),
            ("partprobe", "/usr/sbin/partprobe"),
            ("udevadm", "/usr/bin/udevadm"),
        ]),
        exists: owned(&["/dev/sdb"]),
        shares: vec![("429496729600 512 50".to_owned(), 419_430_400)],
        ..Fixture::default()
    }
}

fn run(cfg: &Node, host: &mut Fixture) {
    let cfg = match cfg {
        Node::Object(map) => map.clone(),
        _ => Object::new(),
    };
    handle_with(&cfg, &ids(), host).unwrap();
}

/// The GUIDs behind two of the codes.
fn ids() -> Vec<(String, String)> {
    pairs(&[
        ("8200", "0657FD6D-A4AB-43C4-84E5-0933C84B4F4F"),
        ("8300", "0FC63DAF-8483-4772-8E79-3D69D8477DE4"),
    ])
}

#[test]
fn a_two_partition_gpt_layout_becomes_four_sgdisk_calls() {
    let mut host = machine();
    run(
        &json(r#"{"disk_setup": {"/dev/sdb": {"table_type": "gpt", "layout": [[50, 83], [50, 82]], "overwrite": true}}}"#),
        &mut host,
    );

    let sgdisk: Vec<&String> = host
        .calls
        .iter()
        .filter(|call| {
            call.contains("subp sgdisk -") && !call.contains("sgdisk -p")
        })
        .collect();
    assert_eq!(
        sgdisk,
        [
            "subp sgdisk -Z /dev/sdb env= data=- rcs=0",
            "subp sgdisk -n 1:0:+419430400 /dev/sdb env= data=- rcs=0",
            "subp sgdisk -t 1:8300 /dev/sdb env= data=- rcs=0",
            "subp sgdisk -n 2:0:0 /dev/sdb env= data=- rcs=0",
            "subp sgdisk -t 2:8200 /dev/sdb env= data=- rcs=0",
        ]
    );
}

#[test]
fn the_partition_type_is_padded_to_four_characters() {
    assert_eq!(ljust("82", 4, '0'), "8200");
    assert_eq!(ljust("Linux", 4, '0'), "Linux");
    assert_eq!(ljust("", 4, '0'), "0000");
}

#[test]
fn two_digit_and_four_digit_types_meet_as_guids() {
    assert!(partition_type_matches("83", "8300", &ids()).unwrap());
    assert!(
        partition_type_matches("8300", "0FC63DAF-8483-4772-8E79-3D69D8477DE4", &ids())
            .unwrap()
    );
    assert!(!partition_type_matches("8200", "0FC63DAF-8483-4772-8E79-3D69D8477DE4", &ids())
    .unwrap());
    assert_eq!(
        partition_type_matches("FFFF", "0FC63DAF-8483-4772-8E79-3D69D8477DE4", &ids()),
        Err("Cannot find GPT GUID for found type FFFF".to_owned())
    );
    assert!(!partition_type_matches("8300", "FFFF", &ids()).unwrap());
    assert_eq!(
        partition_type_matches("0FC63DAF-8483-4772-8E79-3D69D8477DE4", "FFFF", &ids()),
        Err("Cannot find GPT GUID for expected type \
             0FC63DAF-8483-4772-8E79-3D69D8477DE4"
            .to_owned())
    );
    assert_eq!(
        partition_type_matches("830", "8300", &ids()),
        Err("Unknown partition type found: 830".to_owned())
    );
    assert_eq!(
        partition_type_matches("8300", "830", &ids()),
        Err("Unknown partition type specified: 8300".to_owned())
    );
}

#[test]
fn an_lsblk_value_with_an_equals_sign_in_it_ends_the_walk() {
    assert_eq!(
        value_splitter("NAME=\"sdb\" LABEL=\"a=b\"", 0),
        Err("too many values to unpack (expected 2, got 3)".to_owned())
    );
    assert_eq!(
        value_splitter("NAME=\"sdb\" bare", 0),
        Err("not enough values to unpack (expected 2, got 1)".to_owned())
    );
    assert_eq!(
        value_splitter("/dev/sdb: TYPE=\"ext4\"", 1),
        Ok(vec![("TYPE".to_owned(), "ext4".to_owned())])
    );
}

#[test]
fn a_configured_command_is_filled_in_by_name() {
    let mapping = pairs(&[("label", "data"), ("filesystem", "ext4"), ("device", "/dev/sdb1")]);
    assert_eq!(
        percent_format("mkfs -t %(filesystem)s -L %(label)s %(device)s", &mapping),
        Ok("mkfs -t ext4 -L data /dev/sdb1".to_owned())
    );
    assert_eq!(
        percent_format("echo 100%% of %(device)s", &mapping),
        Ok("echo 100% of /dev/sdb1".to_owned())
    );
    assert_eq!(
        percent_format("mkfs %(nope)s", &mapping),
        Err("'nope'".to_owned())
    );
}

#[test]
fn a_disk_that_is_already_laid_out_is_left_alone() {
    let mut host = machine();
    host.commands.push((
        "sgdisk -p /dev/sdb".to_owned(),
        CommandResult {
            exit_code: 0,
            stdout: "Number Start End Size Code Name\n 1 2048 838860766 400G 8300 Linux\n"
                .to_owned(),
            stderr: String::new(),
        },
    ));
    host.commands.retain(|(name, result)| {
        name != "sgdisk -p /dev/sdb" || result.stdout.contains("2048")
    });

    run(
        &json(r#"{"disk_setup": {"/dev/sdb": {"table_type": "gpt", "layout": true}}}"#),
        &mut host,
    );

    assert!(!host.calls.iter().any(|call| call.contains("sgdisk -Z")));
    assert!(host
        .log
        .iter()
        .any(|line| line.ends_with("Device partitioning layout matches")));
}

#[test]
fn a_disk_that_is_not_there_is_not_partitioned() {
    let mut host = machine();
    host.exists.clear();

    run(
        &json(r#"{"disk_setup": {"/dev/sdb": {"table_type": "gpt", "layout": true}}}"#),
        &mut host,
    );

    assert!(!host.calls.iter().any(|call| call.contains("sgdisk")));
    assert!(host.log.iter().any(|line| line.contains(
        "Device /dev/sdb did not exist and was not created with a udevadm settle."
    )));
    assert_eq!(
        host.log
            .iter()
            .filter(|line| line.starts_with("log_util.py") && line.contains("Failed partitioning operation\nDevice "))
            .count(),
        2
    );
}

#[test]
fn an_occupied_disk_is_not_written_to() {
    let mut host = machine();
    for entry in &mut host.commands {
        if entry.0 == "lsblk --pairs --output NAME,TYPE,FSTYPE,LABEL /dev/sdb" {
            entry.1.stdout = "NAME=\"sdb\" TYPE=\"disk\" FSTYPE=\"\" LABEL=\"\"\n\
                              NAME=\"sdb1\" TYPE=\"part\" FSTYPE=\"ext4\" LABEL=\"\"\n"
                .to_owned();
        }
    }
    run(
        &json(r#"{"disk_setup": {"/dev/sdb": {"table_type": "gpt", "layout": true}}}"#),
        &mut host,
    );
    assert!(!host.calls.iter().any(|call| call.contains("sgdisk -Z")));
}

#[test]
fn an_alias_moves_a_definition_and_leaves_its_name_behind() {
    let aliases = json(r#"{"data": "/dev/sdb"}"#);
    let disks = object(json(r#"{"data": {"layout": true}, "/dev/sdc": {"layout": false}}"#));
    let moved = update_disk_setup_devices(&disks, &aliases, &mut Fixture::default()).unwrap();
    assert_eq!(
        Node::Object(moved),
        json(r#"{"/dev/sdc": {"layout": false}, "/dev/sdb": {"layout": true, "_origname": "data"}}"#)
    );
    assert_eq!(alias_to_device(&aliases, "data").unwrap(), Some("/dev/sdb".to_owned()));
    assert_eq!(alias_to_device(&aliases, "other").unwrap(), None);
}

#[test]
fn a_dotted_device_names_a_partition() {
    let aliases = json(r#"{"data": "/dev/sdb"}"#);
    let out = update_fs_setup_devices(&vec![json(r#"{"device": "data.1", "partition": "auto"}"#)], &aliases, &mut Fixture::default()).unwrap();
    assert_eq!(
        out[0],
        json(r#"{"device": "/dev/sdb", "partition": "1", "_origname": "data.1", "_partition": "auto"}"#)
    );
    let err = update_fs_setup_devices(&vec![json(r#"{"device": 5}"#)], &aliases, &mut Fixture::default()).unwrap_err();
    assert_eq!(err, "'int' object has no attribute 'rsplit'");
}

#[test]
fn the_letter_that_forces_depends_on_the_kind() {
    assert_eq!(lookup_force_flag("ext4", &mut Fixture::default()), "-F");
    assert_eq!(lookup_force_flag("xfs", &mut Fixture::default()), "-f");
}

#[test]
fn what_has_no_effect_beside_a_command_line_is_warned_of() {
    let mut host = machine();
    host.shell.push((
        "mkfs -t ext4 -L data /dev/sdb".to_owned(),
        CommandResult { exit_code: 0, stdout: String::new(), stderr: String::new() },
    ));
    run(
        &json(
            r#"{"fs_setup": [{"device": "/dev/sdb", "partition": "none", "label": "data", "filesystem": "ext4",
                "cmd": "mkfs -t %(filesystem)s -L %(label)s %(device)s", "overwrite": true, "extra_opts": ["-x"]}, 5]}"#,
        ),
        &mut host,
    );
    assert!(host.calls.iter().any(|call| call == "shell mkfs -t ext4 -L data /dev/sdb"));
    for line in [
        "cc_disk_setup.py[WARNING]: entry in disk_setup not a dict: 5",
        "cc_disk_setup.py[DEBUG]: Using the raw device to place filesystem data on",
        "cc_disk_setup.py[DEBUG]: File system type 'ext4' with label 'data' will be created on /dev/sdb",
        "cc_disk_setup.py[WARNING]: fs_setup:overwrite ignored because cmd was specified: mkfs -t ext4 -L data /dev/sdb",
        "cc_disk_setup.py[WARNING]: fs_setup:extra_opts ignored because cmd was specified: mkfs -t ext4 -L data /dev/sdb",
        "cc_disk_setup.py[DEBUG]: Creating file system data on /dev/sdb",
        "cc_disk_setup.py[WARNING]: Invalid file system definition: 5",
    ] {
        assert!(host.log.iter().any(|said| said == line), "{line}");
    }
}

#[test]
fn what_is_renamed_and_what_is_unknown_is_said() {
    let aliases = json(r#"{"data": "/dev/sdb"}"#);
    let mut host = Fixture::default();
    let disks = match json(r#"{"data": {}, "/dev/sdb": {}}"#) {
        Node::Object(map) => map,
        _ => Object::new(),
    };
    update_disk_setup_devices(&disks, &aliases, &mut host).unwrap();
    assert_eq!(
        host.log,
        [
            "cc_disk_setup.py[INFO]: Replacing data in disk_setup for translation of /dev/sdb",
            "cc_disk_setup.py[DEBUG]: updated disk_setup device entry 'data' to '/dev/sdb'",
        ]
    );
    let mut host = Fixture::default();
    assert_eq!(lookup_force_flag("vfat", &mut host), "");
    assert_eq!(host.log, ["cc_disk_setup.py[WARNING]: Force flag for vfat is unknown."]);
    let mut host = Fixture::default();
    update_fs_setup_devices(&vec![json(r#"{"device": "data.1", "partition": "auto"}"#)], &aliases, &mut host).unwrap();
    assert_eq!(
        host.log,
        [
            "cc_disk_setup.py[DEBUG]: data.1 is mapped to disk=/dev/sdb part=1",
            "cc_disk_setup.py[WARNING]: Partition '1' from dotted device name 'data.1' overrides 'partition' key in \
             {'device': '/dev/sdb', 'partition': 'auto', '_origname': 'data.1'}",
        ]
    );
}
