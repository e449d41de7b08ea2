//! Growing partitions.

use ci_modules::cc::growpart::host::{Answer, Call};
use ci_modules::cc::growpart::resize::contains_update_flag;
use ci_modules::cc::growpart::{
    handle_with, plan, resizer_factory, CommandResult, FactoryError, Fixture, Host, Mounted, OpenError, Outcome, ProcError, Resize, Resizer,
};
use ci_modules::machine::{Level, Machine};
use ci_modules::value::{Node, Object};

/// A value written as JSON.
fn json(text: &str) -> Node {
    node(&serde_json::from_str(text).unwrap())
}

fn node(v: &serde_json::Value) -> Node {
    match v {
        serde_json::Value::Null => Node::Null,
        serde_json::Value::Bool(b) => Node::Bool(*b),
        serde_json::Value::Number(n) => match n.as_i128() {
            Some(i) => Node::Int(i),
            None => Node::Float(n.to_string()),
        },
        serde_json::Value::String(s) => Node::Text(s.clone()),
        serde_json::Value::Array(items) => Node::Array(items.iter().map(node).collect()),
        serde_json::Value::Object(map) => {
            let mut o = Object::new();
            for (key, value) in map {
                o.insert(key, node(value));
            }
            Node::Object(o)
        }
    }
}

fn object(v: Node) -> Object {
    match v {
        Node::Object(o) => o,
        _ => Object::new(),
    }
}

fn owned(items: &[&str]) -> Vec<String> {
    items.iter().map(|item| (*item).to_owned()).collect()
}

fn pairs(items: &[(&str, &str)]) -> Vec<(String, String)> {
    items
        .iter()
        .map(|(key, value)| ((*key).to_owned(), (*value).to_owned()))
        .collect()
}

fn commands(items: &[(&str, &str)]) -> Vec<(String, CommandResult)> {
    items
        .iter()
        .map(|(key, stdout)| {
            (
                (*key).to_owned(),
                CommandResult {
                    exit_code: 0,
                    stdout: (*stdout).to_owned(),
                    stderr: String::new(),
                },
            )
        })
        .collect()
}

fn mounted(dev: &str, fs: &str) -> Mounted {
    Mounted {
        devpth: dev.to_owned(),
        fs_type: fs.to_owned(),
        mount_point: "/".to_owned(),
    }
}

fn machine() -> Fixture {
    Fixture {
        commands: commands(&[
            ("growpart --help", "growpart\n  --update  the kernel\n"),
            ("growpart --dry-run /dev/sda 2", "CHANGE: partition=2\n"),
            ("growpart /dev/sda 2", "CHANGED: partition=2\n"),
        ]),
        realpath: pairs(&[
            ("/sys/class/block/sda2", "/sys/devices/block/sda/sda2"),
            ("/dev/block/8:0", "/dev/sda"),
        ]),
        stat: vec![
            ("/dev/sda2".to_owned(), 0o60660),
            ("/dev/dm-0".to_owned(), 0o60660),
        ],
        exists: owned(&[
            "/sys/class/block/sda2",
            "/sys/class/block/sda2/partition",
        ]),
        text: pairs(&[
            ("/sys/class/block/sda2/partition", "2\n"),
            ("/sys/devices/block/sda/dev", "8:0\n"),
        ]),
        sizes: vec![("/dev/sda2".to_owned(), vec![Some(1024), Some(2048)])],
        mounts: vec![("/".to_owned(), mounted("/dev/sda2", "ext4"))],
        tmp_exec: "/var/tmp/cloud-init".to_owned(),
        tmpdir: "/var/tmp/cloud-init/tmp0".to_owned(),
        ..Fixture::default()
    }
}

fn encrypted() -> Fixture {
    let mut host = machine();
    host.commands.extend(commands(&[
        (
            "dmsetup deps --options=devname /dev/dm-0",
            "1 dependencies\t: (sda2)\n",
        ),
        ("cryptsetup status /dev/dm-0", ""),
        ("cryptsetup isLuks /dev/sda2", ""),
        ("cryptsetup --key-file - resize /dev/dm-0", ""),
        ("cryptsetup luksKillSlot --batch-mode /dev/sda2 5", ""),
    ]));
    host.which = owned(&["cryptsetup"]);
    host.mounts = vec![("/".to_owned(), mounted("/dev/dm-0", "ext4"))];
    host.keydata = Some(r#"{"key": "MTIzNA==", "slot": 5}"#.to_owned());
    host
}

fn growfs() -> Fixture {
    Fixture {
        files: owned(&["/etc/rc.d/growfs"]),
        commands: commands(&[("zpool get -Hpovalue size tank", "4096\n")]),
        mounts: vec![("/".to_owned(), mounted("tank/root", "zfs"))],
        ..Fixture::default()
    }
}

fn run<H: Host>(host: &mut H) -> Result<Vec<Outcome>, String> {
    handle_with(&Object::new(), host)
}

struct Failing {
    inner: Fixture,
    at: Break,
}

#[derive(PartialEq, Eq)]
enum Break {
    Mkdtemp,
    Mkdir,
    Service,
    Unlink,
}

impl Failing {
    fn of(inner: Fixture, at: Break) -> Self {
        Self { inner, at }
    }
}

impl Host for Failing {
    type World = ();

    fn machine(&self) -> Machine<Call, ()> {
        unreachable!("there is no model of this host")
    }
    fn reply(_world: (), _call: Call) -> ((), Answer) {
        unreachable!("there is no model of this host")
    }

    fn subp(
        &mut self,
        argv: &Vec<String>,
        env: &Vec<(String, String)>,
        data: Option<&Vec<u8>>,
    ) -> Result<(String, String), ProcError> {
        self.inner.subp(argv, env, data)
    }
    fn which(&mut self, program: &str) -> bool {
        self.inner.which(program)
    }
    fn path_exists(&mut self, path: &str) -> bool {
        self.inner.path_exists(path)
    }
    fn is_file(&mut self, path: &str) -> bool {
        self.inner.is_file(path)
    }
    fn realpath(&mut self, path: &str) -> String {
        self.inner.realpath(path)
    }
    fn stat_mode(&mut self, path: &str) -> Result<u32, String> {
        self.inner.stat_mode(path)
    }
    fn seek_size(&mut self, path: &str) -> Result<u64, OpenError> {
        self.inner.seek_size(path)
    }
    fn read_text(&mut self, path: &str) -> Result<String, String> {
        self.inner.read_text(path)
    }
    fn mount_info(&mut self, path: &str) -> Option<Mounted> {
        self.inner.mount_info(path)
    }
    fn is_container(&mut self) -> bool {
        self.inner.is_container()
    }
    fn cmdline(&mut self) -> String {
        self.inner.cmdline()
    }
    fn find_devs_with(&mut self, criteria: &str) -> Vec<String> {
        self.inner.find_devs_with(criteria)
    }
    fn tmp_exec_path(&mut self) -> String {
        self.inner.tmp_exec_path()
    }
    fn mkdtemp(&mut self, dir: &str) -> Result<String, String> {
        if self.at == Break::Mkdtemp {
            return Err(format!("[Errno 13] Permission denied: '{dir}'"));
        }
        self.inner.mkdtemp(dir)
    }
    fn rmtree(&mut self, path: &str) {
        self.inner.rmtree(path);
    }
    fn mkdir(&mut self, path: &str) -> Result<(), String> {
        if self.at == Break::Mkdir {
            return Err(format!("[Errno 13] Permission denied: '{path}'"));
        }
        self.inner.mkdir(path)
    }
    fn read_keydata(&mut self) -> Option<Result<String, String>> {
        self.inner.read_keydata()
    }
    fn unlink_keydata(&mut self) -> Result<(), String> {
        if self.at == Break::Unlink {
            return Err("[Errno 13] Permission denied".to_owned());
        }
        self.inner.unlink_keydata()
    }
    fn report(&mut self, level: Level, source: &str, text: &str) {
        self.inner.report(level, source, text);
    }
    fn manage_service(
        &mut self,
        action: &str,
        service: &str,
    ) -> Result<(), ProcError> {
        if self.at == Break::Service {
            return Err(ProcError {
                argv: vec![action.to_owned(), service.to_owned()],
                exit_code: Some(1),
                stdout: String::new(),
                stderr: format!("{service}: not found"),
            });
        }
        self.inner.manage_service(action, service)
    }
}

#[test]
fn update_flag_needs_whitespace_after_it() {
    assert!(contains_update_flag("  -u | --update  update the kernel\n"));
    assert!(contains_update_flag("--update\n"));
    assert!(contains_update_flag("--update\t"));
    assert!(!contains_update_flag("--update"));
    assert!(!contains_update_flag("--updated table\n"));
    assert!(!contains_update_flag("usage: growpart\n"));
}

#[test]
fn process_error_indents_every_line_of_output() {
    let error = ProcError {
        argv: owned(&["growpart", "/dev/sda", "1"]),
        exit_code: Some(2),
        stdout: "one\ntwo\n".to_owned(),
        stderr: String::new(),
    };
    assert_eq!(
        error.to_text(),
        "Unexpected error while running command.\n\
         Command: ['growpart', '/dev/sda', '1']\n\
         Exit code: 2\n\
         Reason: -\n\
         Stdout: one\n        two\n\
         Stderr: "
    );
}

#[test]
fn a_grown_partition_reports_both_sizes() {
    let mut host = machine();
    let outcome = run(&mut host);
    let outcome = outcome.unwrap();
    assert_eq!(outcome.len(), 1);
    assert_eq!(outcome[0].action, Resize::Changed);
    assert_eq!(outcome[0].message, "changed (/dev/sda2) from 1024 to 2048");
    assert!(host.log.iter().any(|line| line.contains("'/' resized: changed")));
    assert_eq!(
        host.log[0],
        "cc_growpart.py[DEBUG]: No 'growpart' entry in cfg.  Using default: \
         {'mode': 'auto', 'devices': ['/'], 'ignore_growroot_disabled': False}"
    );
}

#[test]
fn a_temp_directory_that_cannot_be_made_ends_the_module() {
    let mut host = Failing::of(machine(), Break::Mkdtemp);
    let outcome = run(&mut host);
    assert_eq!(
        outcome,
        Err("[Errno 13] Permission denied: '/var/tmp/cloud-init'".to_owned())
    );
}

#[test]
fn growparts_own_temp_directory_failing_ends_the_module() {
    let mut host = Failing::of(machine(), Break::Mkdir);
    let outcome = run(&mut host);
    assert_eq!(
        outcome,
        Err(
            "[Errno 13] Permission denied: '/var/tmp/cloud-init/tmp0/growpart'"
                .to_owned()
        )
    );
    assert!(host
        .inner
        .calls
        .iter()
        .any(|call| call == "rmtree /var/tmp/cloud-init/tmp0"));
}

#[test]
fn a_growfs_service_that_will_not_start_is_a_failed_row() {
    let mut host = Failing::of(growfs(), Break::Service);
    let outcome = run(&mut host);
    let outcome = outcome.unwrap();
    assert_eq!(outcome[0].action, Resize::Failed);
    assert!(
        outcome[0]
            .message
            .contains("Command: ['onestart', 'growfs']"),
        "{}",
        outcome[0].message
    );
}

#[test]
fn growfs_only_ever_resizes_the_root() {
    let mut cfg = Object::new();
    cfg.insert("growpart", json(r#"{"devices": ["/", "/srv"]}"#));
    let mut host = growfs();
    assert!(handle_with(&cfg, &mut host).unwrap().is_empty());
    assert!(host.log.iter().any(|line| line.contains("unable to find resizer")));
}

#[test]
fn a_keyfile_that_cannot_be_removed_only_warns() {
    let mut host = Failing::of(encrypted(), Break::Unlink);
    let outcome = run(&mut host);
    let outcome = outcome.unwrap();
    assert_eq!(outcome[0].devent, Node::text("/dev/sda2"));
    assert_eq!(outcome[1].action, Resize::Changed);
    assert_eq!(
        outcome[1].message,
        "Successfully resized encrypted volume '/dev/dm-0'"
    );
    assert!(host.inner.log.iter().any(|line| line
        == "log_util.py[WARNING]: Failed to remove keyfile after resizing \
            encrypted volume"));
}

#[test]
fn a_used_up_keyfile_leaves_nothing_for_the_next_run() {
    let mut host = encrypted();
    let outcome = run(&mut host);
    assert_eq!(outcome.unwrap()[1].action, Resize::Changed);
    assert_eq!(host.keydata, None);
    let outcome = run(&mut host);
    assert_eq!(outcome.unwrap()[1].action, Resize::Skipped);
    assert!(host.log.iter().any(|line| line == "cc_growpart.py[DEBUG]: '/' SKIPPED: No encryption keyfile found"));
}

#[test]
fn a_switched_off_mode_asks_nothing() {
    let mut host = machine();
    assert!(plan(&object(json(r#"{"growpart": {"mode": "off"}}"#)), &mut host).unwrap().is_none());
    assert!(host.calls.is_empty());
    assert_eq!(host.log, ["cc_growpart.py[DEBUG]: growpart disabled: mode=off"]);
    let mut host = machine();
    assert!(plan(&object(json(r#"{"growpart": {"mode": false}}"#)), &mut host).unwrap().is_none());
    assert_eq!(
        host.log,
        [
            "lifecycle.py[DEPRECATED]: Growpart's 'mode' key with value 'False' is deprecated in 22.2 and \
             scheduled to be removed in 27.2. Use 'off' instead.",
            "cc_growpart.py[DEBUG]: growpart disabled: mode=False",
        ]
    );
}

#[test]
fn the_file_that_switches_it_off_is_minded_unless_told_otherwise() {
    let mut host = machine();
    host.files.push("/etc/growroot-disabled".to_owned());
    assert!(handle_with(&Object::new(), &mut host).unwrap().is_empty());
    assert_eq!(host.calls, ["isfile /etc/growroot-disabled"]);
    let mut host = machine();
    host.files.push("/etc/growroot-disabled".to_owned());
    let cfg = object(json(r#"{"growpart": {"ignore_growroot_disabled": true}}"#));
    assert_eq!(handle_with(&cfg, &mut host).unwrap().len(), 1);
}

#[test]
fn only_the_mode_that_picks_by_itself_may_want_a_tool() {
    let mut host = Fixture::default();
    assert!(handle_with(&Object::new(), &mut host).unwrap().is_empty());
    let cfg = object(json(r#"{"growpart": {"mode": "growpart"}}"#));
    assert!(handle_with(&cfg, &mut Fixture::default()).is_err());
    let devices = vec![Node::text("/")];
    match resizer_factory(&mut machine(), &Node::text("nothing"), &devices) {
        Err(FactoryError::Type(message)) => assert_eq!(message, "unknown resize mode nothing"),
        other => panic!("{other:?}"),
    }
    assert_eq!(
        resizer_factory(&mut machine(), &Node::text("auto"), &devices).unwrap(),
        Resizer::GrowPart
    );
}

#[test]
fn a_dry_run_that_exits_with_one_changes_nothing() {
    let mut host = machine();
    for entry in &mut host.commands {
        if entry.0 == "growpart --dry-run /dev/sda 2" {
            entry.1.exit_code = 1;
        }
    }
    let rows = run(&mut host).unwrap();
    assert_eq!(rows[0].action, Resize::Nochange);
    assert!(host.calls.contains(&"rmtree /var/tmp/cloud-init/tmp0".to_owned()));
    assert!(!host.calls.iter().any(|call| call.starts_with("subp growpart /dev/sda")));
}
