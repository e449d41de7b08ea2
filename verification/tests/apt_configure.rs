use ci_modules::cc::apt_configure::commands::{
    install_packages, run_command, run_file_action, run_package_steps, run_step,
};
use ci_modules::cc::apt_configure::convert::{
    convert_to_v3_apt_format, convert_v1_to_v2_apt_format, convert_v2_to_v3_apt_format, rand_dict_key,
    rand_str,
};
use ci_modules::cc::apt_configure::debconf::{
    apply_debconf_selections, installed_packages, plan_debconf_selections,
};
use ci_modules::cc::apt_configure::host::{Answer, Call};
use ci_modules::cc::apt_configure::keys::{
    add_mirror_keys, ensure_dependencies, path_stem, plan_apt_sources,
};
use ci_modules::cc::apt_configure::mirror::{
    availability_zone, dns_redirect_ips, find_apt_mirror_info, get_arch_mirrorconfig,
    get_default_mirrors, get_mirror, glob_names, mirror_dns_candidates, mirrorurl_to_apt_fileprefix,
    plan_apt_list_renames, search_for_mirror, search_for_mirror_dns, star_match,
    update_mirror_info, url_hostname, ListRename,
};
use ci_modules::cc::apt_configure::sources::{
    get_apt_cfg, plan_apt_config, plan_sources_list, AptPaths, UBUNTU_DEFAULT_APT_SOURCES_LIST,
};
use ci_modules::cc::apt_configure::suites::{
    disable_suites, is_deb822_sources_format, map_known_suites,
};
use ci_modules::cc::apt_configure::{
    handle_with, FileAction, Fixture, Host, Step, ADD_APT_REPO_MATCH,
};
use ci_modules::cc::package_update_upgrade_install::{InstallPlan, Step as PackageStep};
use ci_modules::machine::{Level, Machine};
use ci_modules::value::{Node, Object};

/// A value written as JSON.
fn json(text: &str) -> Node {
    node(&serde_json::from_str(text).unwrap())
}

fn node(v: &serde_json::Value) -> Node {
    match v {
        serde_json::Value::Null => Node::Null,
        serde_json::Value::Bool(b) => Node::Bool(*b),
        serde_json::Value::Number(n) => match n.as_i128() {
            Some(i) => Node::Int(i),
            None => Node::Float(n.to_string()),
        },
        serde_json::Value::String(s) => Node::Text(s.clone()),
        serde_json::Value::Array(items) => Node::Array(items.iter().map(node).collect()),
        serde_json::Value::Object(map) => {
            let mut o = Object::new();
            for (key, value) in map {
                o.insert(key, node(value));
            }
            Node::Object(o)
        }
    }
}

fn object(v: Node) -> Object {
    match v {
        Node::Object(o) => o,
        _ => Object::new(),
    }
}

/// A fixture that fills templates in: `$NAME` is replaced by the parameter of that name.
#[derive(Default)]
struct Filled {
    base: Fixture,
}

fn fill(text: &str, params: &Object) -> String {
    let mut out = text.to_owned();
    for i in 0..params.len() {
        if let Some(value) = params.value_at(i).as_str() {
            out = out.replace(&format!("${}", params.key_at(i)), value);
        }
    }
    out
}

impl Host for Filled {
    type World = ();

    fn machine(&self) -> Machine<Call, ()> {
        unreachable!("there is no model of this host")
    }
    fn reply(_world: (), _call: Call) -> ((), Answer) {
        unreachable!("there is no model of this host")
    }

    fn draw_name(&mut self) -> String {
        self.base.draw_name()
    }
    fn which(&mut self, command: &str) -> bool {
        self.base.which(command)
    }
    fn path_exists(&mut self, path: &str) -> bool {
        self.base.path_exists(path)
    }
    fn read_file(&mut self, path: &str) -> Option<String> {
        self.base.read_file(path)
    }
    fn templates_dir(&mut self) -> String {
        self.base.templates_dir()
    }
    fn template_exists(&mut self, name: &str) -> bool {
        self.base.template_exists(name)
    }
    fn load_template(&mut self, name: &str) -> Option<String> {
        self.base.load_template(name)
    }
    fn render(&mut self, text: &str, params: &Object) -> Result<String, String> {
        Ok(fill(text, params))
    }
    fn open_keyring(&mut self) -> Result<(), String> {
        self.base.open_keyring()
    }
    fn dearmor(&mut self, key: &str) -> Result<Vec<u8>, String> {
        self.base.dearmor(key)
    }
    fn getkeybyid(&mut self, keyid: &str, keyserver: &str) -> Result<Option<String>, String> {
        self.base.getkeybyid(keyid, keyserver)
    }
    fn resolve(&mut self, name: &str) -> Vec<String> {
        self.base.resolve(name)
    }
    fn is_address(&mut self, name: &str) -> bool {
        self.base.is_address(name)
    }
    fn known_redirects(&mut self) -> Option<Vec<String>> {
        self.base.known_redirects()
    }
    fn keep_redirects(&mut self, addresses: &Vec<String>) {
        self.base.keep_redirects(addresses)
    }
    fn datasource_mirrors(&mut self, arch: &str) -> Result<Object, String> {
        self.base.datasource_mirrors(arch)
    }
    fn codename(&mut self) -> Option<String> {
        self.base.codename()
    }
    fn architecture(&mut self) -> Result<String, String> {
        self.base.architecture()
    }
    fn fqdn(&mut self) -> String {
        self.base.fqdn()
    }
    fn is_snappy(&mut self) -> bool {
        self.base.is_snappy()
    }
    fn apt_config_dump(&mut self) -> Option<String> {
        self.base.apt_config_dump()
    }
    fn dpkg_list(&mut self) -> Result<String, String> {
        self.base.dpkg_list()
    }
    fn plan_install(&mut self, names: &Vec<String>) -> Result<InstallPlan, String> {
        self.base.plan_install(names)
    }
    fn plan_update(&mut self) -> Result<Vec<PackageStep>, String> {
        self.base.plan_update()
    }
    fn step_done(&mut self, name: &str) -> bool {
        self.base.step_done(name)
    }
    fn run_package_step(&mut self, step: &PackageStep) -> Result<(), String> {
        self.base.run_package_step(step)
    }
    fn ensure_parent(&mut self, path: &str) -> Result<(), String> {
        self.base.ensure_parent(path)
    }
    fn write_file(&mut self, path: &str, content: &Vec<u8>, mode: u32) -> Result<(), String> {
        self.base.write_file(path, content, mode)
    }
    fn append_file(&mut self, path: &str, content: &Vec<u8>, mode: u32) -> Result<(), String> {
        self.base.append_file(path, content, mode)
    }
    fn feed(&mut self, argv: &Vec<String>, data: &Vec<u8>) -> Result<(), String> {
        self.base.feed(argv, data)
    }
    fn subp(&mut self, argv: &Vec<String>) -> Result<(), String> {
        self.base.subp(argv)
    }
    fn list_dir(&mut self, path: &str) -> Vec<String> {
        self.base.list_dir(path)
    }
    fn remove_file(&mut self, path: &str) -> Result<(), String> {
        self.base.remove_file(path)
    }
    fn rename(&mut self, from: &str, to: &str) -> Result<(), String> {
        self.base.rename(from, to)
    }
    fn report(&mut self, level: Level, source: &str, text: &str) {
        self.base.report(level, source, text)
    }
}

fn obj(text: &str) -> Object {
    object(json(text))
}

/// The text under a key.
fn at<'a>(o: &'a Object, key: &str) -> Option<&'a str> {
    o.get(key).and_then(|v| v.as_str()).map(|s| s.as_str())
}

fn inner<'a>(o: &'a Object, key: &str) -> &'a Object {
    o.get(key).and_then(|v| v.as_object()).unwrap()
}

/// A command for packages, which may be run once only.
fn package_step(words: &[&str], semaphore: Option<&str>) -> PackageStep {
    PackageStep {
        argv: words.iter().map(|word| (*word).to_owned()).collect(),
        env: Vec::new(),
        semaphore: semaphore.map(str::to_owned),
    }
}

fn filled(base: Fixture) -> Filled {
    Filled { base }
}

/// A pattern that matches nothing.
fn never_matches() -> Option<String> {
    None
}

#[test]
fn a_ports_arch_gets_the_ports_mirrors() {
    let mirrors = get_default_mirrors("arm64").unwrap();
    assert_eq!(mirrors[0].1, "http://ports.ubuntu.com/ubuntu-ports");
    let mirrors = get_default_mirrors("amd64").unwrap();
    assert_eq!(mirrors[0].1, "http://archive.ubuntu.com/ubuntu/");
    assert!(get_default_mirrors("m68k").is_err());
}

#[test]
fn a_v1_source_list_becomes_a_dict_keyed_by_filename() {
    let srclist = json(
        r#"[{"filename": "a.list", "source": "deb http://x/ y main"}, {"source": "deb http://z/ y main"}]"#,
    );
    let mut host = Fixture::default();
    let out = convert_v1_to_v2_apt_format(&srclist, &mut host).unwrap();
    assert!(out.contains_key("a.list"));
    assert!(out.contains_key("key1_cloud_config_sources.list"));
    // The unnamed entry still gets the colliding filename written into it.
    assert_eq!(
        at(inner(&out, "key1_cloud_config_sources.list"), "filename"),
        Some("cloud_config_sources.list")
    );
}

#[test]
fn the_flat_v2_keys_move_under_apt() {
    let mut cfg = obj(r#"{"apt_proxy": "http://proxy:3128/", "apt_mirror": "http://m/"}"#);
    convert_v2_to_v3_apt_format(&mut cfg, &mut Fixture::default()).unwrap();
    let apt = inner(&cfg, "apt");
    assert_eq!(at(apt, "proxy"), Some("http://proxy:3128/"));
    let primary = apt.get("primary").unwrap().as_array().unwrap()[0].as_object().unwrap();
    assert_eq!(at(primary, "uri"), Some("http://m/"));
    assert_eq!(
        primary.get("arches").unwrap().as_array().unwrap()[0].as_str().unwrap(),
        "default"
    );
    assert!(!cfg.contains_key("apt_proxy"));
}

/// The names of the ftp and https proxies change places.
#[test]
fn the_ftp_and_https_proxy_keys_are_swapped_on_the_way_to_v3() {
    let mut cfg = obj(r#"{"apt_ftp_proxy": "ftp://f/", "apt_https_proxy": "https://h/"}"#);
    convert_v2_to_v3_apt_format(&mut cfg, &mut Fixture::default()).unwrap();
    let apt = inner(&cfg, "apt");
    assert_eq!(at(apt, "https_proxy"), Some("ftp://f/"));
    assert_eq!(at(apt, "ftp_proxy"), Some("https://h/"));
}

#[test]
fn an_empty_or_null_old_key_is_dropped_rather_than_converted() {
    let mut cfg = obj(r#"{"apt_proxy": "", "apt_mirror": null}"#);
    convert_v2_to_v3_apt_format(&mut cfg, &mut Fixture::default()).unwrap();
    assert!(!cfg.contains_key("apt_proxy"));
    assert!(!cfg.contains_key("apt_mirror"));
    // Nothing needed converting, so no `apt` key was invented.
    assert!(!cfg.contains_key("apt"));
}

#[test]
fn old_and_new_keys_that_disagree_are_an_error() {
    let mut cfg = obj(r#"{"apt_proxy": "http://a/", "apt": {"proxy": "http://b/"}}"#);
    let err = convert_v2_to_v3_apt_format(&mut cfg, &mut Fixture::default()).unwrap_err();
    assert!(err.contains("unequal values"), "{err}");
}

#[test]
fn old_and_new_keys_that_agree_leave_the_new_one_standing() {
    let mut cfg = obj(r#"{"apt_proxy": "http://a/", "apt": {"proxy": "http://a/"}}"#);
    convert_v2_to_v3_apt_format(&mut cfg, &mut Fixture::default()).unwrap();
    assert_eq!(at(inner(&cfg, "apt"), "proxy"), Some("http://a/"));
    assert!(!cfg.contains_key("apt_proxy"));
}

#[test]
fn an_exact_arch_match_beats_the_default_entry() {
    let cfg = obj(
        r#"{"primary": [{"arches": ["default"], "uri": "http://default/"}, {"arches": ["arm64"], "uri": "http://arm/"}]}"#,
    );
    let chosen = get_arch_mirrorconfig(&cfg, "primary", "arm64").unwrap();
    assert_eq!(at(chosen, "uri"), Some("http://arm/"));
    let chosen = get_arch_mirrorconfig(&cfg, "primary", "s390x").unwrap();
    assert_eq!(at(chosen, "uri"), Some("http://default/"));
    assert!(get_arch_mirrorconfig(&cfg, "security", "arm64").is_none());
}

#[test]
fn a_uri_wins_over_search_which_wins_over_search_dns() {
    let host = || Fixture {
        names: vec![
            ("searched".to_owned(), vec!["10.0.0.1".to_owned()]),
            ("ubuntu-mirror".to_owned(), vec!["10.0.0.2".to_owned()]),
        ],
        ..Fixture::default()
    };
    let cfg = obj(
        r#"{"primary": [{"arches": ["default"], "uri": "http://direct/", "search": ["http://searched/"]}]}"#,
    );
    let found = get_mirror(&cfg, "primary", "arm64", "", "ubuntu", &mut host());
    assert_eq!(found.as_deref(), Some("http://direct/"));

    let cfg = obj(r#"{"primary": [{"arches": ["default"], "search": ["http://searched/"]}]}"#);
    let found = get_mirror(&cfg, "primary", "arm64", "", "ubuntu", &mut host());
    assert_eq!(found.as_deref(), Some("http://searched/"));

    let cfg = obj(r#"{"primary": [{"arches": ["default"], "search_dns": true}]}"#);
    let found = get_mirror(&cfg, "primary", "arm64", "", "ubuntu", &mut host());
    assert_eq!(found.as_deref(), Some("http://ubuntu-mirror/ubuntu"));
}

#[test]
fn security_defaults_to_primary_and_then_to_the_arch_default() {
    let info = update_mirror_info(Some("http://p/"), None, "arm64", None).unwrap();
    assert_eq!(at(&info, "SECURITY"), Some("http://p/"));

    let info = update_mirror_info(None, None, "arm64", None).unwrap();
    assert_eq!(at(&info, "PRIMARY"), Some("http://ports.ubuntu.com/ubuntu-ports"));

    let ds = obj(r#"{"primary": "http://ds-p/", "security": "http://ds-s/"}"#);
    let info = update_mirror_info(None, None, "arm64", Some(&ds)).unwrap();
    assert_eq!(at(&info, "PRIMARY"), Some("http://ds-p/"));
    assert_eq!(at(&info, "SECURITY"), Some("http://ds-s/"));
    // The lowercase keys survive alongside the uppercase ones.
    assert_eq!(at(&info, "primary"), Some("http://ds-p/"));
}

#[test]
fn the_dns_candidates_walk_domain_then_localdomain_then_bare() {
    let candidates = mirror_dns_candidates("primary", "host.example.com", "ubuntu").unwrap();
    assert_eq!(
        candidates,
        vec![
            "http://ubuntu-mirror.example.com/ubuntu",
            "http://ubuntu-mirror.localdomain/ubuntu",
            "http://ubuntu-mirror/ubuntu",
        ]
    );
    let candidates = mirror_dns_candidates("security", "host", "ubuntu").unwrap();
    assert_eq!(
        candidates,
        vec![
            "http://ubuntu-security-mirror.localdomain/ubuntu",
            "http://ubuntu-security-mirror/ubuntu",
        ]
    );
    assert!(mirror_dns_candidates("other", "host", "ubuntu").is_err());
}

#[test]
fn the_suite_shorthands_expand_and_anything_else_passes_through() {
    assert_eq!(map_known_suites("updates"), "$RELEASE-updates");
    assert_eq!(map_known_suites("release"), "$RELEASE");
    assert_eq!(map_known_suites("noble-odd"), "noble-odd");
}

#[test]
fn deb822_is_detected_by_its_keys_and_one_line_by_its_deb_prefix() {
    let mut host = Fixture::default();
    assert!(!is_deb822_sources_format("deb http://x/ noble main", &mut host));
    assert!(is_deb822_sources_format("Types: deb\nURIs: http://x/\n", &mut host));
    assert!(host.log.is_empty());
    // Neither shape: warned about, and the one-line format is assumed.
    assert!(!is_deb822_sources_format("# nothing here\n", &mut host));
    assert_eq!(
        host.log,
        [
            "cc_apt_configure.py[WARNING]: apt.sources_list value does not match either deb822 \
             source keys or deb/deb-src list keys. Assuming APT deb/deb-src list format."
        ]
    );
}

#[test]
fn a_mirror_url_becomes_its_apt_cache_prefix() {
    assert_eq!(
        mirrorurl_to_apt_fileprefix("http://archive.ubuntu.com/ubuntu/"),
        "archive.ubuntu.com_ubuntu"
    );
    assert_eq!(
        mirrorurl_to_apt_fileprefix("ports.ubuntu.com/ubuntu-ports"),
        "ports.ubuntu.com_ubuntu-ports"
    );
}

const DEB822_SRC: &str = "Types: deb\nURIs: http://x/\n\
     Suites: noble noble-updates noble-backports\nComponents: main\n\n\
     Types: deb\nURIs: http://sec/\nSuites: noble-security\nComponents: main\n";

fn disabled(names: &[&str]) -> Vec<String> {
    names.iter().map(|name| (*name).to_owned()).collect()
}

#[test]
fn a_one_line_sources_file_gets_its_disabled_suites_commented_out() {
    let src = "deb http://x/ noble main\ndeb http://x/ noble-updates main\n\
               # c\ndeb-src http://x/ noble-security main\n";
    let out = disable_suites(
        &disabled(&["updates", "security"]),
        src,
        "noble",
        &mut Filled::default(),
    )
    .unwrap();
    assert_eq!(
        out,
        "deb http://x/ noble main\n\
         # suite disabled by cloud-init: deb http://x/ noble-updates main\n\
         # c\n\
         # suite disabled by cloud-init: deb-src http://x/ noble-security main\n"
    );
}

#[test]
fn a_deb822_suite_is_redacted_and_the_original_kept_as_a_comment() {
    let out = disable_suites(
        &disabled(&["updates"]),
        DEB822_SRC,
        "noble",
        &mut Filled::default(),
    )
    .unwrap();
    assert_eq!(
        out,
        "Types: deb\nURIs: http://x/\n\
         # cloud-init disable_suites redacted: Suites: noble noble-updates noble-backports\n\
         Suites: noble noble-backports\nComponents: main\n\n\n\
         Types: deb\nURIs: http://sec/\nSuites: noble-security\nComponents: main\n"
    );
}

/// Losing every suite disables the whole stanza, with the Suites line put back.
#[test]
fn a_deb822_stanza_left_with_no_suites_is_disabled_entirely() {
    let out = disable_suites(
        &disabled(&["security"]),
        DEB822_SRC,
        "noble",
        &mut Filled::default(),
    )
    .unwrap();
    assert_eq!(
        out,
        "Types: deb\nURIs: http://x/\n\
         Suites: noble noble-updates noble-backports\nComponents: main\n\n\n\
         ## Entry disabled by cloud-init, due to disable_suites\n\
         # disabled by cloud-init: Types: deb\n\
         # disabled by cloud-init: URIs: http://sec/\n\
         # disabled by cloud-init: Suites: noble-security\n\
         # disabled by cloud-init: Components: main\n"
    );
}

#[test]
fn an_empty_disable_list_returns_the_source_untouched() {
    let out = disable_suites(&vec![], DEB822_SRC, "noble", &mut Filled::default()).unwrap();
    assert_eq!(out, DEB822_SRC);
}

#[test]
fn a_sources_line_with_no_suite_column_is_an_error() {
    for src in ["deb http://x/\n", "deb [arch=amd64] http://x/\n"] {
        let err = disable_suites(&disabled(&["updates"]), src, "noble", &mut Filled::default())
            .unwrap_err();
        assert_eq!(err, "list index out of range");
    }
}

#[test]
fn apt_config_paths_come_from_the_dump_or_fall_back_to_defaults() {
    assert_eq!(get_apt_cfg(None), AptPaths::default());
    let dump = "Dir::Etc \"etc/apt\";\nDir::Etc::sourcelist \"sources.list\";\n\
                Dir::Etc::sourceparts \"sources.list.d\";\n";
    assert_eq!(get_apt_cfg(Some(dump)), AptPaths::default());
    let dump = "Dir::Etc \"custom/apt\";\nDir::Etc::sourcelist \"my.list\";\n";
    assert_eq!(
        get_apt_cfg(Some(dump)),
        AptPaths {
            sourcelist: "/custom/apt/my.list".to_owned(),
            sourceparts: "/custom/apt/sources.list.d/".to_owned(),
        }
    );
}

#[test]
fn proxies_are_written_in_config_order_and_conf_verbatim() {
    let cfg = obj(
        r#"{"proxy": "http://a/", "https_proxy": "https://b/", "conf": "Foo \"bar\";"}"#,
    );
    let actions = plan_apt_config(&cfg, "/p", "/c", &mut Fixture::default());
    assert_eq!(
        actions,
        vec![
            FileAction::Write {
                path: "/p".to_owned(),
                content: "Acquire::http::Proxy \"http://a/\";\n\
                          Acquire::https::Proxy \"https://b/\";\n"
                    .to_owned(),
                mode: None,
            },
            FileAction::Write {
                path: "/c".to_owned(),
                content: "Foo \"bar\";".to_owned(),
                mode: None,
            },
        ]
    );
}

#[test]
fn an_empty_config_removes_the_drop_ins_only_when_they_exist() {
    let cfg = Object::new();
    assert!(plan_apt_config(&cfg, "/p", "/c", &mut Fixture::default()).is_empty());
    let mut host = Fixture {
        files: vec![
            ("/p".to_owned(), String::new()),
            ("/c".to_owned(), String::new()),
        ],
        ..Fixture::default()
    };
    assert_eq!(
        plan_apt_config(&cfg, "/p", "/c", &mut host),
        vec![
            FileAction::Remove("/p".to_owned()),
            FileAction::Remove("/c".to_owned()),
        ]
    );
    assert_eq!(
        host.log,
        [
            "cc_apt_configure.py[DEBUG]: no apt proxy configured, removed /p",
            "cc_apt_configure.py[DEBUG]: no apt config configured, removed /c",
        ]
    );
}

fn mirrors() -> Object {
    obj(r#"{"PRIMARY": "http://m/", "SECURITY": "http://s/", "MIRROR": "http://m/"}"#)
}

#[test]
fn a_deb822_template_lands_in_sources_list_d_and_stubs_the_old_file() {
    let mut host = filled(Fixture {
        templates: vec![(
            "sources.list.ubuntu.deb822".to_owned(),
            "Types: deb\nURIs: $MIRROR\nSuites: $RELEASE\n".to_owned(),
        )],
        files: vec![(
            "/etc/apt/sources.list".to_owned(),
            "deb http://old/ noble main\n".to_owned(),
        )],
        ..Fixture::default()
    });
    let actions = plan_sources_list(
        &Object::new(),
        "noble",
        &mirrors(),
        "ubuntu",
        &Object::new(),
        true,
        &AptPaths::default(),
        &mut host,
    )
    .unwrap();
    assert_eq!(
        actions,
        vec![
            FileAction::Write {
                path: "/etc/apt/sources.list.d/ubuntu.sources".to_owned(),
                content: "Types: deb\nURIs: http://m/\nSuites: noble\n".to_owned(),
                mode: Some(0o644),
            },
            FileAction::Write {
                path: "/etc/apt/sources.list".to_owned(),
                content: UBUNTU_DEFAULT_APT_SOURCES_LIST.to_owned(),
                mode: None,
            },
        ]
    );
    assert_eq!(
        host.base.log,
        [
            "cc_apt_configure.py[INFO]: No custom template provided, fall back to builtin",
            "cc_apt_configure.py[INFO]: Replacing /etc/apt/sources.list to favor deb822 source \
             format",
        ]
    );
}

/// A one-line body goes to sources.list even with the deb822 flag set.
#[test]
fn a_one_line_custom_template_overrides_the_deb822_destination() {
    let cfg = obj(r#"{"sources_list": "deb $MIRROR $RELEASE main"}"#);
    let mut host = Filled::default();
    let actions = plan_sources_list(
        &cfg,
        "noble",
        &mirrors(),
        "ubuntu",
        &Object::new(),
        true,
        &AptPaths::default(),
        &mut host,
    )
    .unwrap();
    assert_eq!(
        actions,
        vec![FileAction::Write {
            path: "/etc/apt/sources.list".to_owned(),
            content: "deb http://m/ noble main".to_owned(),
            mode: Some(0o644),
        }]
    );
    // A custom template does not consult the builtins.
    assert!(!host.base.calls.iter().any(|call| call.starts_with("load_template")));
}

#[test]
fn a_missing_template_renders_nothing_at_all() {
    let mut host = Filled::default();
    let actions = plan_sources_list(
        &Object::new(),
        "noble",
        &mirrors(),
        "ubuntu",
        &Object::new(),
        true,
        &AptPaths::default(),
        &mut host,
    )
    .unwrap();
    assert!(actions.is_empty());
    assert_eq!(
        host.base.log,
        [
            "cc_apt_configure.py[INFO]: No custom template provided, fall back to builtin",
            "cloud.py[WARNING]: No template found in /etc/cloud/templates for template named \
             sources.list.ubuntu.deb822",
            "cloud.py[WARNING]: No template found in /etc/cloud/templates for template named \
             sources.list",
            "cc_apt_configure.py[WARNING]: No template found, not rendering \
             /etc/apt/sources.list.d/ubuntu.sources",
        ]
    );
}

/// Keys whose binary form is the text in angle brackets.
fn keyring(keys: &[&str], fetched: Option<&str>) -> Filled {
    filled(Fixture {
        keys: keys
            .iter()
            .map(|key| ((*key).to_owned(), format!("<binary {key}>").into_bytes()))
            .collect(),
        fetched: fetched.map(str::to_owned),
        ..Fixture::default()
    })
}

#[test]
fn the_key_filename_stem_matches_pathlib() {
    for (input, want) in [
        ("primary", "primary"),
        ("a.list", "a"),
        ("a.b.list", "a.b"),
        ("/etc/x/a.list", "a"),
        ("", ""),
        (".hidden", ".hidden"),
        ("a.", "a"),
        ("a/", "a"),
        (".", ""),
        ("/", ""),
    ] {
        assert_eq!(path_stem(input), want, "stem of {input:?}");
    }
}

#[test]
fn a_keyid_source_fetches_the_key_and_signs_the_entry_with_it() {
    let mut host = keyring(&["ARMOUR"], Some("ARMOUR"));
    let srcdict = json(
        r#"{"myrepo": {"source": "deb [signed-by=$KEY_FILE] http://r/ $RELEASE main", "keyid": "ABC"}}"#,
    );
    let mut params = obj(r#"{"RELEASE": "noble"}"#);
    let steps = plan_apt_sources(&srcdict, &mut host, &mut params, &never_matches()).unwrap();
    assert_eq!(
        host.base.calls,
        ["getkeybyid ABC keyserver.ubuntu.com", "dearmor ARMOUR"]
    );
    assert_eq!(
        steps,
        vec![
            Step::WriteKey {
                path: "/etc/apt/cloud-init.gpg.d/myrepo.gpg".to_owned(),
                content: b"<binary ARMOUR>".to_vec(),
            },
            Step::WriteSource {
                path: "/etc/apt/sources.list.d/myrepo.list".to_owned(),
                content: "deb [signed-by=/etc/apt/cloud-init.gpg.d/myrepo.gpg] \
                          http://r/ noble main\n"
                    .to_owned(),
                append: true,
            },
            Step::UpdatePackageSources,
        ]
    );
}

#[test]
fn an_explicit_keyserver_is_used_and_a_plain_key_is_not_hardened() {
    let mut host = keyring(&[""], None);
    let srcdict = json(
        r#"{"myrepo.list": {"source": "deb http://r/ noble main", "keyid": "ABC", "keyserver": "pgp.mit.edu", "append": false}}"#,
    );
    let steps =
        plan_apt_sources(&srcdict, &mut host, &mut Object::new(), &never_matches()).unwrap();
    assert_eq!(
        host.base.calls,
        ["getkeybyid ABC pgp.mit.edu", "dearmor "]
    );
    assert_eq!(
        steps,
        vec![
            // Not `$KEY_FILE`, so the key lands in the trusted dir, and the
            // `.list` suffix is stripped from the keyring name.
            Step::WriteKey {
                path: "/etc/apt/trusted.gpg.d/myrepo.gpg".to_owned(),
                content: b"<binary >".to_vec(),
            },
            Step::WriteSource {
                path: "/etc/apt/sources.list.d/myrepo.list".to_owned(),
                content: "deb http://r/ noble main\n".to_owned(),
                append: false,
            },
            Step::UpdatePackageSources,
        ]
    );
}

#[test]
fn a_ppa_style_source_goes_to_add_apt_repository_instead_of_a_file() {
    let mut host = Filled::default();
    let srcdict = json(r#"{"ppa": {"source": "ppa:cloud-init-dev/daily"}}"#);
    let steps = plan_apt_sources(
        &srcdict,
        &mut host,
        &mut Object::new(),
        &Some(ADD_APT_REPO_MATCH.to_owned()),
    )
    .unwrap();
    assert_eq!(
        steps,
        vec![
            Step::AddAptRepository {
                source: "ppa:cloud-init-dev/daily".to_owned(),
            },
            Step::UpdatePackageSources,
        ]
    );
}

#[test]
fn a_dearmour_failure_leaves_dev_null_in_the_rendered_source() {
    let mut host = keyring(&[], Some("ARMOUR"));
    let srcdict = json(
        r#"{"myrepo": {"source": "deb [signed-by=$KEY_FILE] http://r/ noble main", "keyid": "ABC"}}"#,
    );
    let steps =
        plan_apt_sources(&srcdict, &mut host, &mut Object::new(), &never_matches()).unwrap();
    assert_eq!(
        steps,
        vec![
            Step::WriteSource {
                path: "/etc/apt/sources.list.d/myrepo.list".to_owned(),
                content: "deb [signed-by=/dev/null] http://r/ noble main\n".to_owned(),
                append: true,
            },
            Step::UpdatePackageSources,
        ]
    );
}

#[test]
fn mirror_keys_are_published_under_primary_key_and_security_key() {
    let mut host = keyring(&["RAW"], None);
    let mut cfg = obj(
        r#"{"primary": [{"arches": ["default"], "uri": "http://m/", "key": "RAW"}], "security": [{"arches": ["default"], "uri": "http://s/"}]}"#,
    );
    let mut steps = Vec::new();
    let keys = add_mirror_keys(&mut cfg, &mut host, &mut steps).unwrap();
    assert_eq!(
        steps,
        vec![Step::WriteKey {
            path: "/etc/apt/trusted.gpg.d/primary.gpg".to_owned(),
            content: b"<binary RAW>".to_vec(),
        }]
    );
    assert!(Node::Object(keys)
        .equals(&json(r#"{"primary_key": "/etc/apt/trusted.gpg.d/primary.gpg"}"#)));
}

#[test]
fn only_the_absent_dependencies_are_requested_and_they_come_out_sorted() {
    let cfg = obj(
        r#"{"primary": [{"arches": ["default"], "keyid": "ABC"}], "sources": {"ppa": {"source": "ppa:x/y"}}}"#,
    );
    let matches = Some("^ppa:".to_owned());
    assert_eq!(
        ensure_dependencies(&cfg, &matches, &mut Fixture::default()),
        ["gnupg", "software-properties-common"]
    );
    let mut host = Fixture {
        commands: vec!["gpg".to_owned()],
        ..Fixture::default()
    };
    assert_eq!(
        ensure_dependencies(&cfg, &matches, &mut host),
        ["software-properties-common"]
    );
    let mut host = Fixture {
        commands: vec!["gpg".to_owned(), "add-apt-repository".to_owned()],
        ..Fixture::default()
    };
    assert!(ensure_dependencies(&cfg, &matches, &mut host).is_empty());
}

/// `preserve_sources_list` takes the mirror keys out of the picture, but
/// not the `sources` ones.
#[test]
fn preserving_the_sources_list_drops_only_the_mirror_key_dependency() {
    let cfg = obj(
        r#"{"preserve_sources_list": true, "primary": [{"arches": ["default"], "keyid": "ABC"}]}"#,
    );
    assert!(ensure_dependencies(&cfg, &never_matches(), &mut Fixture::default()).is_empty());
}

#[test]
fn only_installed_and_held_packages_are_read_off_dpkg_query() {
    let stdout = "Desired=Unknown/Install\n\
                  ||/ Name           Version      Arch  Description\n\
                  +++-==============-============-=====-=========\n\
                  ii  cloud-init     26.1         all   init\n\
                  hi  held-pkg:amd64 1.0          amd64 held\n\
                  rc  removed-pkg    1.0          all   removed\n\
                  un  unknown\n";
    assert_eq!(installed_packages(stdout), ["cloud-init", "held-pkg"]);
}

#[test]
fn debconf_selections_are_joined_in_key_order_and_newline_terminated() {
    let cfg = obj(
        r#"{"debconf_selections": {"set2": "pkg pkg/value string bar", "set1": "cloud-init cloud-init/datasources multiselect MAAS"}}"#,
    );
    let plan = plan_debconf_selections(&cfg, &vec![], &mut Fixture::default()).unwrap().unwrap();
    assert_eq!(
        String::from_utf8(plan.selections).unwrap(),
        "cloud-init cloud-init/datasources multiselect MAAS\n\
         pkg pkg/value string bar\n"
    );
    assert!(plan.reconfigure.is_empty());
    assert!(plan.unhandled.is_empty());
}

#[test]
fn only_preseeded_packages_that_are_installed_are_reconfigured() {
    let cfg = obj(
        r##"{"debconf_selections": {"a": "# a comment\ncloud-init cloud-init/datasources multiselect MAAS\npkg:i386 pkg/value string bar\nabsent absent/x string y\n"}}"##,
    );
    let installed = vec!["cloud-init".to_owned(), "pkg".to_owned()];
    let mut host = Fixture::default();
    let plan = plan_debconf_selections(&cfg, &installed, &mut host).unwrap().unwrap();
    assert_eq!(plan.reconfigure, ["cloud-init"]);
    assert_eq!(plan.unhandled, ["pkg"]);
    assert_eq!(
        host.log,
        [
            "cc_apt_configure.py[DEBUG]: pkgs_cfgd: {'cloud-init', 'pkg', 'absent'}",
            "cc_apt_configure.py[DEBUG]: unconfiguring cloud-init",
            "cc_apt_configure.py[WARNING]: The following packages were installed and preseeded, \
             but cannot be unconfigured: ['pkg']",
        ]
    );
}

#[test]
fn an_unset_debconf_block_plans_nothing_and_a_scalar_one_is_an_error() {
    assert!(plan_debconf_selections(&Object::new(), &vec![], &mut Fixture::default())
        .unwrap()
        .is_none());
    assert_eq!(
        plan_debconf_selections(
            &obj(r#"{"debconf_selections": "nope"}"#),
            &vec![],
            &mut Fixture::default()
        ),
        Err("'str' object has no attribute 'keys'".to_owned())
    );
}

#[test]
fn apt_list_renames_skip_mirrors_that_did_not_move() {
    let new_mirrors = obj(
        r#"{"PRIMARY": "http://azure/ubuntu/", "SECURITY": "http://security.ubuntu.com/ubuntu/"}"#,
    );
    assert_eq!(
        plan_apt_list_renames(&new_mirrors, "amd64", "/var/lib/apt/lists").unwrap(),
        vec![ListRename {
            from_prefix: "/var/lib/apt/lists/archive.ubuntu.com_ubuntu".to_owned(),
            to_prefix: "/var/lib/apt/lists/azure_ubuntu".to_owned(),
        }]
    );
}

// ---------------------------------------------------------------------------
// Cases beyond the plans

/// A pattern that cannot be compiled ends the set up.
#[test]
fn a_pattern_that_does_not_compile_is_an_error() {
    let cfg = obj(r#"{"apt": {"add_apt_repo_match": "(", "sources": {"a": {"source": "x"}}}}"#);
    let mut host = Fixture {
        release: Some("noble".to_owned()),
        ..Fixture::default()
    };
    assert!(handle_with(&cfg, "ubuntu", true, "/", &mut host).is_err());
}

/// A word of the configuration that is looked for in a pattern of its own.
#[test]
fn a_pattern_of_the_configuration_decides_what_a_repository_is() {
    let srcdict = json(r#"{"a": {"source": "odd:thing"}}"#);
    let odd = Some("^odd".to_owned());
    let steps =
        plan_apt_sources(&srcdict, &mut Filled::default(), &mut Object::new(), &odd).unwrap();
    assert_eq!(
        steps[0],
        Step::AddAptRepository {
            source: "odd:thing".to_owned()
        }
    );
    let other = Some("^even".to_owned());
    let steps =
        plan_apt_sources(&srcdict, &mut Filled::default(), &mut Object::new(), &other).unwrap();
    assert_eq!(
        steps[0],
        Step::WriteSource {
            path: "/etc/apt/sources.list.d/a.list".to_owned(),
            content: "odd:thing\n".to_owned(),
            append: true,
        }
    );
}

/// The steps for sources end with an update, also where there are none.
#[test]
fn the_sources_end_with_an_update() {
    let steps = plan_apt_sources(
        &json("{}"),
        &mut Filled::default(),
        &mut Object::new(),
        &never_matches(),
    )
    .unwrap();
    assert_eq!(steps, vec![Step::UpdatePackageSources]);
    assert!(plan_apt_sources(
        &json("[]"),
        &mut Filled::default(),
        &mut Object::new(),
        &never_matches()
    )
    .is_err());
}

/// All older keys are gone after the whole conversion, and the newer form stays as it is.
#[test]
fn no_older_key_is_left_after_the_conversion() {
    let mut cfg = obj(
        r#"{"apt_sources": [{"filename": "a.list", "source": "s"}], "apt_pipelining": "os", "apt_proxy": "http://p/"}"#,
    );
    convert_to_v3_apt_format(&mut cfg, &mut Fixture::default()).unwrap();
    assert!(!cfg.contains_key("apt_sources"));
    assert!(!cfg.contains_key("apt_proxy"));
    let apt = inner(&cfg, "apt");
    assert_eq!(at(apt, "proxy"), Some("http://p/"));
    assert_eq!(at(inner(inner(apt, "sources"), "a.list"), "source"), Some("s"));

    let newer = r#"{"apt": {"proxy": "http://p/"}, "x": 1}"#;
    let mut cfg = obj(newer);
    convert_to_v3_apt_format(&mut cfg, &mut Fixture::default()).unwrap();
    assert!(Node::Object(cfg).equals(&json(newer)));
}

#[test]
fn a_drawn_name_has_the_length_that_was_asked_for() {
    let name = rand_str(0, 8);
    assert_eq!(name.chars().count(), 8);
    assert!(name.chars().all(|c| c.is_ascii_alphabetic()));
    assert_eq!(rand_str(7, 0), "");
}

#[test]
fn mirrors_are_found_by_the_name_service() {
    let mut host = Fixture {
        names: vec![("ubuntu-mirror".to_owned(), vec!["10.0.0.1".to_owned()])],
        ..Fixture::default()
    };
    assert_eq!(
        search_for_mirror_dns(&json("true"), "primary", "host", "ubuntu", &mut host).as_deref(),
        Some("http://ubuntu-mirror/ubuntu")
    );
    assert_eq!(
        search_for_mirror_dns(&json("false"), "primary", "host", "ubuntu", &mut host),
        None
    );
    assert_eq!(
        search_for_mirror(&vec!["http://nowhere/".to_owned()], &mut host),
        None
    );
    assert_eq!(url_hostname("http://a.b:80/c").as_deref(), Some("a.b"));
    assert_eq!(
        host.log,
        [
            "util.py[DEBUG]: search for mirror in candidates: \
             '['http://ubuntu-mirror.localdomain/ubuntu', 'http://ubuntu-mirror/ubuntu']'",
            "util.py[DEBUG]: found working mirror: 'http://ubuntu-mirror/ubuntu'",
            "util.py[DEBUG]: search for mirror in candidates: '['http://nowhere/']'",
        ]
    );
}

/// A name service that answers for names which cannot exist is found out once, and its
/// answer does not count.
#[test]
fn an_address_that_every_name_is_given_does_not_count() {
    let mut host = Fixture {
        names: vec![
            ("example.invalid.".to_owned(), vec!["10.9.9.9".to_owned(), "10.9.9.8".to_owned()]),
            ("does-not-exist.example.com.".to_owned(), vec!["10.9.9.9".to_owned()]),
            ("nowhere".to_owned(), vec!["10.9.9.9".to_owned()]),
            ("real".to_owned(), vec!["10.0.0.1".to_owned()]),
        ],
        addresses: vec!["10.9.9.9".to_owned()],
        ..Fixture::default()
    };
    let found = search_for_mirror(
        &vec!["http://nowhere/".to_owned(), "http://real/".to_owned()],
        &mut host,
    );
    assert_eq!(found.as_deref(), Some("http://real/"));
    let redirection = "util.py[DEBUG]: detected dns redirection: \
         ['does-not-exist.example.com.: 10.9.9.9', 'example.invalid.: 10.9.9.9', \
         'example.invalid.: 10.9.9.8']";
    assert_eq!(host.log[1], redirection);
    assert_eq!(host.log.iter().filter(|line| *line == redirection).count(), 1);
    assert_eq!(dns_redirect_ips(&mut host), ["10.9.9.9", "10.9.9.8"]);
    // An address needs no name service.
    let found = search_for_mirror(&vec!["http://10.9.9.9/".to_owned()], &mut host);
    assert_eq!(found.as_deref(), Some("http://10.9.9.9/"));
}

#[test]
fn the_mirrors_of_the_data_source_fill_in_what_is_not_configured() {
    let mut host = Fixture {
        datasource: obj(r#"{"primary": "http://ds/", "security": "http://ds-s/"}"#),
        ..Fixture::default()
    };
    let info = find_apt_mirror_info(&Object::new(), "amd64", "", "ubuntu", &mut host).unwrap();
    assert_eq!(at(&info, "PRIMARY"), Some("http://ds/"));
    let cfg = obj(r#"{"primary": [{"arches": ["default"], "uri": "http://own/"}]}"#);
    let info = find_apt_mirror_info(&cfg, "amd64", "", "ubuntu", &mut host).unwrap();
    assert_eq!(at(&info, "PRIMARY"), Some("http://own/"));
    assert_eq!(at(&info, "SECURITY"), Some("http://own/"));
    // A source has to name both.
    host.datasource = obj(r#"{"primary": "http://ds/"}"#);
    let err = find_apt_mirror_info(&Object::new(), "amd64", "", "ubuntu", &mut host).unwrap_err();
    assert_eq!(err, "'security'");
    assert_eq!(
        host.log[..4],
        [
            "cc_apt_configure.py[DEBUG]: got primary mirror: None",
            "cc_apt_configure.py[DEBUG]: got security mirror: None",
            "cc_apt_configure.py[DEBUG]: got primary mirror: http://own/",
            "cc_apt_configure.py[DEBUG]: got security mirror: None",
        ]
    );
}

#[test]
fn a_zone_is_read_from_either_key() {
    assert_eq!(
        availability_zone(&obj(r#"{"availability-zone": "a"}"#)).as_deref(),
        Some("a")
    );
    assert_eq!(
        availability_zone(&obj(r#"{"availability_zone": "b"}"#)).as_deref(),
        Some("b")
    );
    assert_eq!(availability_zone(&Object::new()), None);
}

#[test]
fn a_star_stands_for_any_text() {
    assert!(star_match("a*c", "abc"));
    assert!(star_match("*", ""));
    assert!(!star_match("a*c", "ab"));
    assert_eq!(
        glob_names(
            &vec!["x_1".to_owned(), "y".to_owned(), "x_2".to_owned()],
            "x_*"
        ),
        ["x_1", "x_2"]
    );
}

#[test]
fn selections_are_handed_on_and_packages_configured_anew() {
    let cfg = obj(r#"{"debconf_selections": {"a": "cloud-init cloud-init/x string y"}}"#);
    let mut host = Fixture {
        packages: "ii  cloud-init  1  all  x\n".to_owned(),
        dirs: vec![(
            "/etc/cloud/cloud.cfg.d".to_owned(),
            vec!["05_logging.cfg".to_owned(), "90_dpkg.cfg".to_owned()],
        )],
        ..Fixture::default()
    };
    apply_debconf_selections(&cfg, "/", &mut host).unwrap();
    assert_eq!(
        host.calls,
        [
            "feed debconf-set-selections",
            "remove /etc/cloud/cloud.cfg.d/90_dpkg.cfg",
            "subp dpkg-reconfigure --frontend=noninteractive cloud-init",
        ]
    );
    assert_eq!(
        host.log,
        [
            "cc_apt_configure.py[DEBUG]: pkgs_cfgd: {'cloud-init'}",
            "cc_apt_configure.py[DEBUG]: unconfiguring cloud-init",
            "cc_apt_configure.py[DEBUG]: cleaning cloud-init config from: \
             ['/etc/cloud/cloud.cfg.d/90_dpkg.cfg']",
        ]
    );
    let mut host = Fixture {
        errors: vec![("feed debconf-set-selections".to_owned(), "no".to_owned())],
        ..Fixture::default()
    };
    assert_eq!(apply_debconf_selections(&cfg, "/", &mut host), Err("no".to_owned()));
    // Nothing is run for another tree, and nothing is known to be installed there.
    let mut host = Fixture {
        packages: "ii  cloud-init  1  all  x\n".to_owned(),
        ..Fixture::default()
    };
    assert_eq!(
        apply_debconf_selections(&cfg, "/target", &mut host),
        Err("refusing to run \"debconf-set-selections\" against a rooted tree".to_owned())
    );
    assert!(host.calls.is_empty());
    assert_eq!(host.log[1], "cc_apt_configure.py[DEBUG]: no need for reconfig");
    let mut host = Fixture::default();
    apply_debconf_selections(&Object::new(), "/", &mut host).unwrap();
    assert_eq!(
        host.log,
        ["cc_apt_configure.py[DEBUG]: debconf_selections was not set in config"]
    );
}

/// The whole set up, from the configuration to the files.
#[test]
fn a_whole_configuration_is_applied_in_order() {
    let cfg = obj(
        r#"{"apt": {"proxy": "http://p/", "sources_list": "deb $MIRROR $RELEASE main", "sources": {"ppa": {"source": "ppa:x/y"}}}}"#,
    );
    let mut host = filled(Fixture {
        release: Some("noble".to_owned()),
        commands: vec!["gpg".to_owned()],
        install: vec![package_step(&["apt-get", "install", "software-properties-common"], None)],
        update: vec![package_step(&["apt-get", "update"], None)],
        ..Fixture::default()
    });
    handle_with(&cfg, "ubuntu", false, "/", &mut host).unwrap();
    assert_eq!(
        host.base.calls,
        [
            "keyring",
            "plan_install software-properties-common",
            "run apt-get install software-properties-common",
            "ensure_parent /etc/apt/sources.list",
            "write /etc/apt/sources.list 0644",
            "ensure_parent /etc/apt/apt.conf.d/90cloud-init-aptproxy",
            "write /etc/apt/apt.conf.d/90cloud-init-aptproxy 0644",
            "subp add-apt-repository --no-update ppa:x/y",
            "plan_update",
            "run apt-get update",
        ]
    );
    assert_eq!(
        host.base.log,
        [
            "cc_apt_configure.py[DEBUG]: debconf_selections was not set in config",
            "cc_apt_configure.py[DEBUG]: handling apt config: {'proxy': 'http://p/', \
             'sources_list': 'deb $MIRROR $RELEASE main', \
             'sources': {'ppa': {'source': 'ppa:x/y'}}}",
            "cc_apt_configure.py[DEBUG]: got primary mirror: None",
            "cc_apt_configure.py[DEBUG]: got security mirror: None",
            "cc_apt_configure.py[DEBUG]: Apt Mirror info: \
             {'PRIMARY': 'http://archive.ubuntu.com/ubuntu/', \
             'SECURITY': 'http://security.ubuntu.com/ubuntu/', \
             'MIRROR': 'http://archive.ubuntu.com/ubuntu/'}",
            "cc_apt_configure.py[DEBUG]: Provided 'sources_list' user-data is not deb822 \
             format, fallback to /etc/apt/sources.list",
            "util.py[DEBUG]: Writing to /etc/apt/sources.list - wb: [420] 48 bytes",
            "cc_apt_configure.py[DEBUG]: write apt proxy info to \
             /etc/apt/apt.conf.d/90cloud-init-aptproxy",
            "util.py[DEBUG]: Writing to /etc/apt/apt.conf.d/90cloud-init-aptproxy - wb: \
             [420] 34 bytes",
            "cc_apt_configure.py[DEBUG]: adding source/key '{'source': 'ppa:x/y'}'",
        ]
    );
    // On a snappy system that names no configuration nothing more than the keyring is asked for.
    let mut host = Fixture {
        snappy: true,
        ..Fixture::default()
    };
    handle_with(&Object::new(), "ubuntu", false, "/", &mut host).unwrap();
    assert_eq!(host.calls, ["keyring"]);
    assert_eq!(
        host.log[1],
        "cc_apt_configure.py[DEBUG]: Nothing to do: No apt config and system is snappy."
    );
    let mut host = Fixture::default();
    handle_with(&Object::new(), "ubuntu", false, "/", &mut host).unwrap();
    assert_eq!(
        host.log[1],
        "cc_apt_configure.py[DEBUG]: Nothing to do: No apt config and no apt commands."
    );
}

/// A line that was commented out stays as it is, whichever suite is taken out next.
#[test]
fn what_was_commented_out_stays() {
    let src = "deb http://x/ noble-updates main\n";
    let names = disabled(&["updates"]);
    let once = disable_suites(&names, src, "noble", &mut Filled::default()).unwrap();
    assert_eq!(once, "# suite disabled by cloud-init: deb http://x/ noble-updates main\n");
    let twice = disable_suites(&names, &once, "noble", &mut Filled::default()).unwrap();
    assert_eq!(twice, once);
}

/// A step is written behind what a source's file holds or in its place, and what fails is
/// warned of.
#[test]
fn a_step_that_fails_is_warned_of() {
    let source = |append: bool| Step::WriteSource {
        path: "/etc/apt/sources.list.d/a.list".to_owned(),
        content: "deb http://a/ noble main\n".to_owned(),
        append,
    };
    let mut host = Fixture::default();
    run_step(&source(true), "/", &mut host).unwrap();
    run_step(&source(false), "/", &mut host).unwrap();
    assert_eq!(
        host.calls,
        [
            "ensure_parent /etc/apt/sources.list.d/a.list",
            "append /etc/apt/sources.list.d/a.list 0644",
            "ensure_parent /etc/apt/sources.list.d/a.list",
            "write /etc/apt/sources.list.d/a.list 0644",
        ]
    );
    assert!(host.log.is_empty());

    let mut host = Fixture {
        errors: vec![
            ("append /etc/apt/sources.list.d/a.list 0644".to_owned(), "disk full".to_owned()),
            ("subp add-apt-repository --no-update ppa:x/y".to_owned(), "no network".to_owned()),
        ],
        ..Fixture::default()
    };
    assert_eq!(run_step(&source(true), "/target", &mut host), Err("disk full".to_owned()));
    let repository = Step::AddAptRepository {
        source: "ppa:x/y".to_owned(),
    };
    assert_eq!(run_step(&repository, "/", &mut host), Err("no network".to_owned()));
    assert_eq!(
        host.log,
        [
            "cc_apt_configure.py[WARNING]: failed write to file \
             /target/etc/apt/sources.list.d/a.list: disk full",
            "cc_apt_configure.py[WARNING]: add-apt-repository failed.",
        ]
    );
    // A directory that cannot be made is no failed write.
    let mut host = Fixture {
        errors: vec![(
            "ensure_parent /etc/apt/sources.list.d/a.list".to_owned(),
            "read-only".to_owned(),
        )],
        ..Fixture::default()
    };
    assert_eq!(run_step(&source(true), "/", &mut host), Err("read-only".to_owned()));
    assert!(host.log.is_empty());
}

/// No command is run for a tree that is not the machine's own.
#[test]
fn nothing_is_run_for_another_tree() {
    let mut host = Fixture::default();
    let argv = vec!["dpkg-reconfigure".to_owned(), "x".to_owned()];
    assert_eq!(
        run_command(&argv, "/target", &mut host),
        Err("refusing to run \"dpkg-reconfigure\" against a rooted tree".to_owned())
    );
    let repository = Step::AddAptRepository {
        source: "ppa:x/y".to_owned(),
    };
    assert_eq!(
        run_step(&repository, "/target", &mut host),
        Err("refusing to run \"add-apt-repository\" against a rooted tree".to_owned())
    );
    assert!(host.calls.is_empty());
    assert_eq!(host.log, ["cc_apt_configure.py[WARNING]: add-apt-repository failed."]);
    run_command(&argv, "/", &mut host).unwrap();
    assert_eq!(host.calls, ["subp dpkg-reconfigure x"]);
    // The file that is written is named as it stands in the tree.
    let action = FileAction::Write {
        path: "/etc/x".to_owned(),
        content: "\u{e9}\n".to_owned(),
        mode: Some(0o600),
    };
    run_file_action(&action, "/target", &mut host).unwrap();
    assert_eq!(
        host.log.last().map(String::as_str),
        Some("util.py[DEBUG]: Writing to /target/etc/x - wb: [384] 3 bytes")
    );
}

/// A file of apt's own configuration that cannot be changed is warned of, and what comes
/// after it is still done.
#[test]
fn a_proxy_that_cannot_be_written_is_warned_of() {
    let cfg = obj(
        r#"{"apt": {"preserve_sources_list": true, "proxy": "http://p/", "conf": "x", "sources": {"a": {"source": "deb http://a/ noble main"}}}}"#,
    );
    let mut host = Fixture {
        release: Some("noble".to_owned()),
        commands: vec!["apt".to_owned()],
        errors: vec![(
            "write /etc/apt/apt.conf.d/90cloud-init-aptproxy 0644".to_owned(),
            "disk full".to_owned(),
        )],
        ..Fixture::default()
    };
    handle_with(&cfg, "ubuntu", false, "/", &mut host).unwrap();
    assert!(host.log.contains(
        &"cc_apt_configure.py[WARNING]: Failed to apply proxy or apt config info: disk full"
            .to_owned()
    ));
    assert!(!host.calls.iter().any(|call| call.contains("94cloud-init-config")));
    assert_eq!(host.calls.last().map(String::as_str), Some("plan_update"));
}

/// What apt has of a mirror that moved is renamed, and a file that cannot be is warned of.
#[test]
fn lists_of_a_mirror_that_moved_are_renamed() {
    let cfg = obj(
        r#"{"apt": {"sources_list": "deb $MIRROR $RELEASE main", "primary": [{"arches": ["default"], "uri": "http://azure/ubuntu/"}], "security": [{"arches": ["default"], "uri": "http://security.ubuntu.com/ubuntu/"}]}}"#,
    );
    let lists = "/var/lib/apt/lists";
    let from = format!("{lists}/archive.ubuntu.com_ubuntu_dists");
    let to = format!("{lists}/azure_ubuntu_dists");
    let mut host = filled(Fixture {
        release: Some("noble".to_owned()),
        dirs: vec![(
            lists.to_owned(),
            vec!["archive.ubuntu.com_ubuntu_dists".to_owned(), "lock".to_owned()],
        )],
        errors: vec![(format!("rename {from} {to}"), "busy".to_owned())],
        ..Fixture::default()
    });
    handle_with(&cfg, "ubuntu", false, "/", &mut host).unwrap();
    assert_eq!(
        host.base.calls.iter().filter(|call| call.starts_with("rename")).count(),
        1
    );
    let renaming = format!("cc_apt_configure.py[DEBUG]: Renaming apt list {from} to {to}");
    let at = host.base.log.iter().position(|line| *line == renaming).unwrap();
    assert_eq!(
        host.base.log[at + 1],
        "cc_apt_configure.py[WARNING]: Failed to rename apt list: busy"
    );
}

/// What is said of older keys, of suites and of keys.
#[test]
fn older_keys_suites_and_keys_are_told_of() {
    let mut host = Fixture::default();
    let mut cfg = obj(
        r#"{"apt_sources": [{"filename": "a.list", "source": "s"}], "apt_proxy": "http://p/", "apt": {}}"#,
    );
    convert_to_v3_apt_format(&mut cfg, &mut host).unwrap();
    assert_eq!(
        host.log,
        [
            "cc_apt_configure.py[DEBUG]: Config key 'apt_sources' is deprecated in 22.1. Use \
             'apt' instead",
            "cc_apt_configure.py[DEBUG]: apt config: convert V1 to V2 format (source list to \
             dict)",
            "cc_apt_configure.py[DEBUG]: The following config key(s): \
             [\"apt_sources\", \"apt_proxy\"] are deprecated in 22.1",
            "cc_apt_configure.py[DEBUG]: Support for combined old and new apt module keys is \
             deprecated in 22.1",
        ]
    );
    let mut host = Filled::default();
    disable_suites(&disabled(&["updates", "o\"dd"]), DEB822_SRC, "noble", &mut host).unwrap();
    disable_suites(&disabled(&["updates"]), "deb http://x/ noble main\n", "noble", &mut host)
        .unwrap();
    assert_eq!(
        host.base.log,
        [
            r#"cc_apt_configure.py[DEBUG]: Disabling suites ["updates", "o\"dd"] as ["noble-updates", "o\"dd"]"#,
            "cc_apt_configure.py[DEBUG]: Disabling suite $RELEASE-updates as noble-updates",
        ]
    );
    let mut host = keyring(&[], None);
    let mut cfg = obj(r#"{"primary": [{"arches": ["default"], "key": "RAW"}]}"#);
    add_mirror_keys(&mut cfg, &mut host, &mut Vec::new()).unwrap();
    let srcdict = json(r#"{"/": {"key": "RAW"}}"#);
    plan_apt_sources(&srcdict, &mut host, &mut Object::new(), &never_matches()).unwrap();
    assert_eq!(
        host.base.log,
        [
            "cc_apt_configure.py[DEBUG]: Adding key:\n'RAW'",
            "cc_apt_configure.py[WARNING]: Gpg error, failed to add key: RAW",
            "cc_apt_configure.py[DEBUG]: adding source/key '{'key': 'RAW'}'",
            "cc_apt_configure.py[DEBUG]: Adding key:\n'RAW'",
            "cc_apt_configure.py[WARNING]: Unknown filename, failed to add key: \"RAW\"",
        ]
    );
}

/// Nor is a command for packages run for such a tree.
#[test]
fn no_package_command_is_run_for_another_tree() {
    let update = package_step(&["apt-get", "update"], Some("update_sources"));
    let install = package_step(&["apt-get", "install", "gnupg"], None);
    let host = |done: &[&str]| Fixture {
        install: vec![update.clone(), install.clone()],
        update: vec![install.clone()],
        done: done.iter().map(|name| (*name).to_owned()).collect(),
        ..Fixture::default()
    };
    let refused = Err("refusing to run \"apt-get\" against a rooted tree".to_owned());
    let names = vec!["gnupg".to_owned()];
    let mut rooted = host(&[]);
    assert_eq!(install_packages(&names, "/tree", &mut rooted), refused);
    assert_eq!(run_step(&Step::UpdatePackageSources, "/tree", &mut rooted), refused);
    assert_eq!(rooted.calls, ["plan_install gnupg", "plan_update"]);
    // What was run is not due, so that it is not refused either.
    let mut rooted = host(&["update_sources"]);
    assert_eq!(run_package_steps(&vec![update.clone()], "/tree", &mut rooted), Ok(()));
    assert_eq!(run_command(&vec![], "/tree", &mut rooted), Err(
        "refusing to run \"\" against a rooted tree".to_owned()
    ));

    let mut live = host(&["update_sources"]);
    install_packages(&names, "/", &mut live).unwrap();
    assert_eq!(live.calls, ["plan_install gnupg", "run apt-get install gnupg"]);
    let mut live = host(&[]);
    live.not_installed = Some("no such package".to_owned());
    assert_eq!(install_packages(&names, "/", &mut live), Err("no such package".to_owned()));
    assert_eq!(live.calls.len(), 3);
    let mut live = host(&[]);
    live.errors = vec![("run apt-get update".to_owned(), "no network".to_owned())];
    assert_eq!(install_packages(&names, "/", &mut live), Err("no network".to_owned()));
    assert_eq!(live.calls.len(), 2);
    live.errors = vec![("plan_update".to_owned(), "no configuration".to_owned())];
    assert_eq!(
        run_step(&Step::UpdatePackageSources, "/", &mut live),
        Err("no configuration".to_owned())
    );
}

/// A key that is drawn is one that is free, so that no entry without a file is lost.
#[test]
fn a_key_that_is_taken_is_drawn_again() {
    let mut host = Fixture::default();
    let taken = obj(r#"{"key1_x": 1, "key2_x": 2}"#);
    assert_eq!(rand_dict_key(&taken, "x", &mut host).as_deref(), Ok("key3_x"));

    let srclist = json(
        r#"[{"filename": "key1_cloud_config_sources.list", "source": "a"}, {"source": "b"}, {"source": "c"}]"#,
    );
    let out = convert_v1_to_v2_apt_format(&srclist, &mut Fixture::default()).unwrap();
    assert_eq!(out.len(), 3);
    assert_eq!(at(inner(&out, "key1_cloud_config_sources.list"), "source"), Some("a"));
    assert_eq!(at(inner(&out, "key2_cloud_config_sources.list"), "source"), Some("b"));
    assert_eq!(at(inner(&out, "key3_cloud_config_sources.list"), "source"), Some("c"));
}
