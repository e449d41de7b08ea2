//! Changing the certificates of authorities that the machine trusts.

use vstd::prelude::*;

use crate::cc::ca_certs::host::{
    ask_remove_contents, ask_report, ask_selection, ask_set_selections, ask_subp, ask_write_file, log_debug, log_warn,
    logged, warned, Store,
};
use crate::cc::{cfg_option_list, option_items, unit_result};
use crate::machine::Level;
use crate::number::{dec, dec_of};
use crate::paths::{join_path, joined};
use crate::show::{py_str, py_truthy, show, truthy};
use crate::space::{Class, break_width, first_of, first_of_bounds, is_line, lines_are_lines, text_lines, text_lines_of, within};
use crate::text::{argv1, cat2, cat3, chars_of, join, join_from_front, join_with, replace, replaced, same, starts, starts_with, texts, texts_push};
use crate::value::{get, vals, Node, Object, Val};

pub mod host;
pub mod laws;

pub use crate::cc::ca_certs::host::{Fixture, Host};

verus! {

/// The line above the first entry that is deselected.
pub const HEADER_COMMENT: &'static str = "# Modified by cloud-init to deselect certs due to user-data";

/// Where a distribution keeps certificates.
#[derive(Debug, Clone, Copy, PartialEq, Eq)]
pub struct DistroCfg {
    /// The directory that is emptied when the certificates that came with the
    /// system are removed, if there is one of its own.
    pub ca_cert_path: Option<&'static str>,
    /// The directory for certificates that are added.
    pub ca_cert_local_path: &'static str,
    /// The name of a certificate that is added, with `{cert_index}` for its number.
    pub ca_cert_filename: &'static str,
    /// The file in which certificates are selected, if there is one.
    pub ca_cert_config: Option<&'static str>,
    /// The command that brings what is trusted up to date.
    pub ca_cert_update_cmd: [&'static str; 1],
}

pub struct DistroSpec {
    pub ca_cert_path: Option<Seq<char>>,
    pub ca_cert_local_path: Seq<char>,
    pub ca_cert_filename: Seq<char>,
    pub ca_cert_config: Option<Seq<char>>,
    pub ca_cert_update_cmd: Seq<char>,
}

pub open spec fn opt_static(o: Option<&'static str>) -> Option<Seq<char>> {
    match o {
        Some(s) => Some(s@),
        None => None,
    }
}

impl View for DistroCfg {
    type V = DistroSpec;

    open spec fn view(&self) -> DistroSpec {
        DistroSpec {
            ca_cert_path: opt_static(self.ca_cert_path),
            ca_cert_local_path: self.ca_cert_local_path@,
            ca_cert_filename: self.ca_cert_filename@,
            ca_cert_config: opt_static(self.ca_cert_config),
            ca_cert_update_cmd: self.ca_cert_update_cmd@[0]@,
        }
    }
}

/// The path of a certificate that is added, with `{cert_index}` for its number.
pub open spec fn template(d: DistroSpec) -> Seq<char> {
    if starts(d.ca_cert_filename, "/"@) {
        d.ca_cert_filename
    } else {
        joined(d.ca_cert_local_path, d.ca_cert_filename)
    }
}

impl DistroCfg {
    /// The path of a certificate that is added, with `{cert_index}` for its number.
    pub fn full_path(&self) -> (r: String)
        ensures
            r@ == template(self@),
    {
        if starts_with(self.ca_cert_filename, "/") {
            self.ca_cert_filename.to_owned()
        } else {
            join_path(self.ca_cert_local_path, self.ca_cert_filename)
        }
    }
}

/// The distributions that are like Red Hat's here.
pub open spec fn is_rhel_like(name: Seq<char>) -> bool {
    name == "fedora"@ || name == "rhel"@ || name == "almalinux"@ || name == "centos"@ || name == "cloudlinux"@ || name
        == "rocky"@
}

/// The distributions that are like openSUSE here.
pub open spec fn is_suse_like(name: Seq<char>) -> bool {
    name == "opensuse"@ || name == "opensuse-microos"@ || name == "opensuse-tumbleweed"@ || name == "opensuse-leap"@
        || name == "sle_hpc"@ || name == "sle-micro"@ || name == "sles"@
}

/// Where a distribution keeps certificates.
pub open spec fn distro_places(name: Seq<char>) -> DistroSpec {
    if name == "aosc"@ {
        DistroSpec {
            ca_cert_path: Some("/etc/ssl/certs/"@),
            ca_cert_local_path: "/etc/ssl/certs/"@,
            ca_cert_filename: "cloud-init-ca-cert-{cert_index}.pem"@,
            ca_cert_config: Some("/etc/ca-certificates/conf.d/cloud-init.conf"@),
            ca_cert_update_cmd: "update-ca-bundle"@,
        }
    } else if is_rhel_like(name) {
        DistroSpec {
            ca_cert_path: Some("/etc/pki/ca-trust/"@),
            ca_cert_local_path: "/usr/share/pki/ca-trust-source/"@,
            ca_cert_filename: "anchors/cloud-init-ca-cert-{cert_index}.crt"@,
            ca_cert_config: None,
            ca_cert_update_cmd: "update-ca-trust"@,
        }
    } else if is_suse_like(name) {
        DistroSpec {
            ca_cert_path: Some("/etc/pki/trust/"@),
            ca_cert_local_path: "/usr/share/pki/trust/"@,
            ca_cert_filename: "anchors/cloud-init-ca-cert-{cert_index}.crt"@,
            ca_cert_config: None,
            ca_cert_update_cmd: "update-ca-certificates"@,
        }
    } else if name == "photon"@ {
        DistroSpec {
            ca_cert_path: Some("/etc/pki/tls/certs/"@),
            ca_cert_local_path: "/etc/ssl/certs/"@,
            ca_cert_filename: "cloud-init-ca-cert-{cert_index}.pem"@,
            ca_cert_config: None,
            ca_cert_update_cmd: "rehash_ca_certificates.sh"@,
        }
    } else {
        DistroSpec {
            ca_cert_path: None,
            ca_cert_local_path: "/usr/local/share/ca-certificates/"@,
            ca_cert_filename: "cloud-init-ca-cert-{cert_index}.crt"@,
            ca_cert_config: Some("/etc/ca-certificates.conf"@),
            ca_cert_update_cmd: "update-ca-certificates"@,
        }
    }
}

/// Where a distribution keeps certificates.
pub fn distro_config(distro_name: &str) -> (r: DistroCfg)
    ensures
        r@ == distro_places(distro_name@),
{
    if same(distro_name, "aosc") {
        return DistroCfg {
            ca_cert_path: Some("/etc/ssl/certs/"),
            ca_cert_local_path: "/etc/ssl/certs/",
            ca_cert_filename: "cloud-init-ca-cert-{cert_index}.pem",
            ca_cert_config: Some("/etc/ca-certificates/conf.d/cloud-init.conf"),
            ca_cert_update_cmd: ["update-ca-bundle"],
        };
    }
    if same(distro_name, "fedora") || same(distro_name, "rhel") || same(distro_name, "almalinux") || same(
        distro_name,
        "centos",
    ) || same(distro_name, "cloudlinux") || same(distro_name, "rocky") {
        return DistroCfg {
            ca_cert_path: Some("/etc/pki/ca-trust/"),
            ca_cert_local_path: "/usr/share/pki/ca-trust-source/",
            ca_cert_filename: "anchors/cloud-init-ca-cert-{cert_index}.crt",
            ca_cert_config: None,
            ca_cert_update_cmd: ["update-ca-trust"],
        };
    }
    if same(distro_name, "opensuse") || same(distro_name, "opensuse-microos") || same(
        distro_name,
        "opensuse-tumbleweed",
    ) || same(distro_name, "opensuse-leap") || same(distro_name, "sle_hpc") || same(distro_name, "sle-micro") || same(
        distro_name,
        "sles",
    ) {
        return DistroCfg {
            ca_cert_path: Some("/etc/pki/trust/"),
            ca_cert_local_path: "/usr/share/pki/trust/",
            ca_cert_filename: "anchors/cloud-init-ca-cert-{cert_index}.crt",
            ca_cert_config: None,
            ca_cert_update_cmd: ["update-ca-certificates"],
        };
    }
    if same(distro_name, "photon") {
        return DistroCfg {
            ca_cert_path: Some("/etc/pki/tls/certs/"),
            ca_cert_local_path: "/etc/ssl/certs/",
            ca_cert_filename: "cloud-init-ca-cert-{cert_index}.pem",
            ca_cert_config: None,
            ca_cert_update_cmd: ["rehash_ca_certificates.sh"],
        };
    }
    DistroCfg {
        ca_cert_path: None,
        ca_cert_local_path: "/usr/local/share/ca-certificates/",
        ca_cert_filename: "cloud-init-ca-cert-{cert_index}.crt",
        ca_cert_config: Some("/etc/ca-certificates.conf"),
        ca_cert_update_cmd: ["update-ca-certificates"],
    }
}

// ---------------------------------------------------------------------------
// Deciding

/// One thing to do.
#[allow(inconsistent_fields)]
#[derive(Debug, Clone, PartialEq, Eq)]
pub enum Step {
    /// Removes what is in a directory, and keeps the directory.
    RemoveDirContents { path: String },
    /// Deselects every certificate in a file.
    DisableSystemCaCerts { path: String },
    /// Hands an answer to the package configuration, so that the certificates are
    /// not selected again.
    DebconfSetSelections { data: String },
    /// Writes a certificate.
    WriteCert { path: String, contents: String },
    /// Brings what is trusted up to date.
    UpdateCaCerts { argv: Vec<String> },
}

#[allow(inconsistent_fields)]
pub enum StepSpec {
    RemoveDirContents { path: Seq<char> },
    DisableSystemCaCerts { path: Seq<char> },
    DebconfSetSelections { data: Seq<char> },
    WriteCert { path: Seq<char>, contents: Seq<char> },
    UpdateCaCerts { argv: Seq<Seq<char>> },
}

impl View for Step {
    type V = StepSpec;

    open spec fn view(&self) -> StepSpec {
        match self {
            Step::RemoveDirContents { path } => StepSpec::RemoveDirContents { path: path@ },
            Step::DisableSystemCaCerts { path } => StepSpec::DisableSystemCaCerts { path: path@ },
            Step::DebconfSetSelections { data } => StepSpec::DebconfSetSelections { data: data@ },
            Step::WriteCert { path, contents } => StepSpec::WriteCert { path: path@, contents: contents@ },
            Step::UpdateCaCerts { argv } => StepSpec::UpdateCaCerts { argv: texts(argv@) },
        }
    }
}

pub open spec fn steps_of(steps: Seq<Step>) -> Seq<StepSpec> {
    Seq::new(steps.len(), |i: int| steps[i]@)
}

/// What is done to the certificates that came with the system. Which distributions
/// empty directories and which deselect entries goes by their names alone.
pub open spec fn removal(name: Seq<char>) -> Seq<StepSpec> {
    let d = distro_places(name);
    if name == "rhel"@ || name == "photon"@ {
        match d.ca_cert_path {
            Some(path) => seq![
                StepSpec::RemoveDirContents { path },
                StepSpec::RemoveDirContents { path: d.ca_cert_local_path },
            ],
            None => Seq::empty(),
        }
    } else {
        let answers = name == "debian"@ || name == "raspberry-pi-os"@ || name == "ubuntu"@;
        if !answers && name != "alpine"@ && name != "aosc"@ {
            Seq::empty()
        } else {
            let first = match d.ca_cert_config {
                Some(path) => seq![StepSpec::DisableSystemCaCerts { path }],
                None => Seq::empty(),
            };
            if answers {
                first.push(
                    StepSpec::DebconfSetSelections {
                        data: "ca-certificates ca-certificates/trust_new_crts select no"@,
                    },
                )
            } else {
                first
            }
        }
    }
}

fn disable_default_ca_certs<H: Host>(distro_name: &str, distro_cfg: &DistroCfg, host: &mut H) -> (r: Vec<Step>)
    requires
        distro_cfg@ == distro_places(distro_name@),
    ensures
        final(host).machine() == (if (distro_name@ == "rhel"@ || distro_name@ == "photon"@) && distro_places(
            distro_name@,
        ).ca_cert_path is Some {
            logged::<H>(old(host).machine(), "Deleting system CA certificates"@)
        } else {
            old(host).machine()
        }),
        steps_of(r@) == removal(distro_name@),
{
    let mut steps: Vec<Step> = Vec::new();
    if same(distro_name, "rhel") || same(distro_name, "photon") {
        if let Some(path) = distro_cfg.ca_cert_path {
            log_debug(host, "Deleting system CA certificates");
            steps.push(Step::RemoveDirContents { path: path.to_owned() });
            steps.push(Step::RemoveDirContents { path: distro_cfg.ca_cert_local_path.to_owned() });
        }
        assert(steps_of(steps@) =~= removal(distro_name@));
        return steps;
    }
    let answers = same(distro_name, "debian") || same(distro_name, "raspberry-pi-os") || same(distro_name, "ubuntu");
    if !answers && !same(distro_name, "alpine") && !same(distro_name, "aosc") {
        assert(steps_of(steps@) =~= removal(distro_name@));
        return steps;
    }
    if let Some(path) = distro_cfg.ca_cert_config {
        steps.push(Step::DisableSystemCaCerts { path: path.to_owned() });
    }
    if answers {
        steps.push(
            Step::DebconfSetSelections {
                data: "ca-certificates ca-certificates/trust_new_crts select no".to_owned(),
            },
        );
    }
    assert(steps_of(steps@) =~= removal(distro_name@));
    steps
}

/// The certificates that are added, numbered from one.
pub open spec fn additions(certs: Seq<Val>, path: Seq<char>) -> Seq<StepSpec> {
    Seq::new(
        certs.len(),
        |i: int|
            StepSpec::WriteCert {
                path: replaced(path, "{cert_index}"@, dec((i + 1) as nat)),
                contents: show(certs[i]),
            },
    )
}

/// What is configured, under its name or an older one.
pub open spec fn block_in(cfg: Seq<(Seq<char>, Val)>) -> Option<Val> {
    match get(cfg, "ca_certs"@) {
        Some(v) => Some(v),
        None => get(cfg, "ca-certs"@),
    }
}

/// Whether the certificates that came with the system are removed.
pub open spec fn removes(block: Seq<(Seq<char>, Val)>) -> bool {
    match get(block, "remove_defaults"@) {
        Some(v) => truthy(v),
        None => match get(block, "remove-defaults"@) {
            Some(v) => truthy(v),
            None => false,
        },
    }
}

/// The steps for a configuration that is a mapping.
pub open spec fn block_steps(block: Seq<(Seq<char>, Val)>, name: Seq<char>) -> Seq<StepSpec> {
    let d = distro_places(name);
    let first = if removes(block) {
        removal(name)
    } else {
        Seq::empty()
    };
    let second = additions(option_items(block, "trusted"@, Seq::empty()), template(d));
    (first + second).push(StepSpec::UpdateCaCerts { argv: seq![d.ca_cert_update_cmd] })
}

/// The steps: none without a configuration.
pub open spec fn planned(cfg: Seq<(Seq<char>, Val)>, name: Seq<char>) -> Result<Seq<StepSpec>, Seq<char>> {
    match block_in(cfg) {
        None => Ok(Seq::empty()),
        Some(Val::Object(block)) => Ok(block_steps(block, name)),
        Some(_) => Err("unexpected type: {ca_cert_cfg}"@),
    }
}

pub open spec fn steps_result(r: Result<Vec<Step>, String>) -> Result<Seq<StepSpec>, Seq<char>> {
    match r {
        Ok(steps) => Ok(steps_of(steps@)),
        Err(e) => Err(e@),
    }
}

fn add_certificates(steps: &mut Vec<Step>, certs: &Vec<Node>, path: &str)
    ensures
        steps_of(final(steps)@) == steps_of(old(steps)@) + additions(vals(certs@), path@),
{
    proof {
        reveal_strlit("{cert_index}");
    }
    let ghost first = steps_of(steps@);
    let ghost want = additions(vals(certs@), path@);
    let mut i: usize = 0;
    assert(steps_of(steps@) =~= first + want.take(0));
    while i < certs.len()
        invariant
            i <= certs@.len(),
            "{cert_index}"@.len() > 0,
            want == additions(vals(certs@), path@),
            steps_of(steps@) == first + want.take(i as int),
        decreases certs.len() - i,
    {
        assert(vals(certs@)[i as int] == certs@[i as int]@);
        let ghost before = steps_of(steps@);
        let step = Step::WriteCert {
            path: replace(path, "{cert_index}", dec_of(i as u128 + 1).as_str()),
            contents: py_str(&certs[i]),
        };
        assert(step@ == want[i as int]);
        steps.push(step);
        assert(steps_of(steps@) =~= before.push(want[i as int]));
        i += 1;
        assert(first + want.take(i as int) =~= (first + want.take(i - 1)).push(want[i - 1]));
    }
    assert(want.take(i as int) =~= want);
}

/// Says that a name is not to be used any more, and what is.
pub open spec fn deprecated<H: Host>(m: Store<H>, what: Seq<char>, instead: Seq<char>) -> Store<H> {
    ask_report::<H>(
        m,
        Level::Deprecated,
        "lifecycle.py"@,
        what + " is deprecated in 22.1 and scheduled to be removed in 27.1. "@ + instead,
    )
}

fn deprecate<H: Host>(what: &str, instead: &str, host: &mut H)
    ensures
        final(host).machine() == deprecated::<H>(old(host).machine(), what@, instead@),
{
    let text = cat3(what, " is deprecated in 22.1 and scheduled to be removed in 27.1. ", instead);
    host.report(Level::Deprecated, "lifecycle.py", text.as_str());
}

/// What is said while the certificates that came with the system are planned to go.
pub open spec fn removal_told<H: Host>(m: Store<H>, name: Seq<char>) -> Store<H> {
    let m1 = logged::<H>(m, "Disabling/removing default certificates"@);
    if (name == "rhel"@ || name == "photon"@) && distro_places(name).ca_cert_path is Some {
        logged::<H>(m1, "Deleting system CA certificates"@)
    } else {
        m1
    }
}

/// What is said while a configuration that is a mapping is planned for.
pub open spec fn block_told<H: Host>(m: Store<H>, block: Seq<(Seq<char>, Val)>, name: Seq<char>) -> Store<H> {
    let m1 = if get(block, "remove-defaults"@) is Some {
        deprecated::<H>(m, "Key 'remove-defaults'"@, "Use 'remove_defaults' instead."@)
    } else {
        m
    };
    let m2 = if removes(block) {
        removal_told::<H>(m1, name)
    } else {
        m1
    };
    let trusted = option_items(block, "trusted"@, Seq::empty());
    let m3 = if trusted.len() > 0 {
        logged::<H>(m2, "Adding "@ + dec(trusted.len()) + " certificates"@)
    } else {
        m2
    };
    logged::<H>(m3, "Updating certificates"@)
}

/// What is said where there is no configuration.
pub open spec fn no_key_text(module: Seq<char>) -> Seq<char> {
    "Skipping module named "@ + module + ", no 'ca_certs' key in configuration"@
}

/// What is said of the names that the configuration is under.
pub open spec fn keys_told<H: Host>(m: Store<H>, cfg: Seq<(Seq<char>, Val)>) -> Store<H> {
    if get(cfg, "ca-certs"@) is Some {
        let m1 = deprecated::<H>(m, "Key 'ca-certs'"@, "Use 'ca_certs' instead."@);
        if get(cfg, "ca_certs"@) is Some {
            warned::<H>(m1, "Found both ca-certs (deprecated) and ca_certs config keys. Ignoring ca-certs."@)
        } else {
            m1
        }
    } else {
        m
    }
}

/// What is said while it is decided what to do.
pub open spec fn plan_told<H: Host>(m: Store<H>, module: Seq<char>, cfg: Seq<(Seq<char>, Val)>, name: Seq<char>) -> Store<
    H,
> {
    match block_in(cfg) {
        None => logged::<H>(m, no_key_text(module)),
        Some(Val::Object(block)) => block_told::<H>(keys_told::<H>(m, cfg), block, name),
        Some(_) => keys_told::<H>(m, cfg),
    }
}

/// Everything that is decided before the machine is touched. All that is asked of the
/// machine is to write to the log.
pub fn plan<H: Host>(name: &str, cfg: &Object, distro_name: &str, host: &mut H) -> (r: Result<Vec<Step>, String>)
    ensures
        final(host).machine() == plan_told::<H>(old(host).machine(), name@, cfg@, distro_name@),
        steps_result(r) == planned(cfg@, distro_name@),
{
    if cfg.get("ca-certs").is_some() {
        deprecate("Key 'ca-certs'", "Use 'ca_certs' instead.", host);
        if cfg.get("ca_certs").is_some() {
            log_warn(host, "Found both ca-certs (deprecated) and ca_certs config keys. Ignoring ca-certs.");
        }
    }
    let found = match cfg.get("ca_certs") {
        Some(v) => Some(v),
        None => cfg.get("ca-certs"),
    };
    let block = match found {
        None => {
            let none: Vec<Step> = Vec::new();
            assert(steps_of(none@) =~= Seq::empty());
            log_debug(host, cat3("Skipping module named ", name, ", no 'ca_certs' key in configuration").as_str());
            return Ok(none);
        },
        Some(Node::Object(block)) => block,
        Some(_) => return Err("unexpected type: {ca_cert_cfg}".to_owned()),
    };
    let distro_cfg = distro_config(distro_name);
    if block.get("remove-defaults").is_some() {
        deprecate("Key 'remove-defaults'", "Use 'remove_defaults' instead.", host);
    }
    let removes = match block.get("remove_defaults") {
        Some(v) => py_truthy(v),
        None => match block.get("remove-defaults") {
            Some(v) => py_truthy(v),
            None => false,
        },
    };
    let mut steps = if removes {
        log_debug(host, "Disabling/removing default certificates");
        disable_default_ca_certs(distro_name, &distro_cfg, host)
    } else {
        let none: Vec<Step> = Vec::new();
        assert(steps_of(none@) =~= Seq::empty());
        none
    };
    let none: Vec<Node> = Vec::new();
    assert(vals(none@) =~= Seq::empty());
    let trusted = cfg_option_list(block, "trusted", none);
    assert(vals(trusted@).len() == trusted@.len());
    if trusted.len() > 0 {
        log_debug(host, cat3("Adding ", dec_of(trusted.len() as u128).as_str(), " certificates").as_str());
    }
    add_certificates(&mut steps, &trusted, distro_cfg.full_path().as_str());
    log_debug(host, "Updating certificates");
    let ghost before = steps_of(steps@);
    let last = Step::UpdateCaCerts { argv: argv1(distro_cfg.ca_cert_update_cmd[0]) };
    steps.push(last);
    assert(steps_of(steps@) =~= before.push(last@));
    Ok(steps)
}

// ---------------------------------------------------------------------------
// Deselecting

/// Whether a line is left as it is: it is empty, a comment, or deselected.
pub open spec fn is_kept(line: Seq<char>) -> bool {
    line.len() == 0 || line[0] == '#' || line[0] == '!'
}

/// Lines with every entry deselected. Above the first of them stands the comment,
/// unless it was there before.
pub open spec fn deselected_lines(lines: Seq<Seq<char>>, headed: bool) -> Seq<Seq<char>>
    decreases lines.len(),
{
    if lines.len() == 0 {
        Seq::empty()
    } else {
        let line = lines[0];
        let rest = lines.skip(1);
        if is_kept(line) {
            seq![line] + deselected_lines(rest, headed || line == HEADER_COMMENT@)
        } else if headed {
            seq!["!"@ + line] + deselected_lines(rest, true)
        } else {
            seq![HEADER_COMMENT@, "!"@ + line] + deselected_lines(rest, true)
        }
    }
}

/// A text with every entry deselected.
pub open spec fn deselected(text: Seq<char>) -> Seq<char> {
    join(deselected_lines(text_lines(text), false), "\n"@) + "\n"@
}

/// Deselects every entry of a text.
pub fn deselect(original: &str) -> (r: String)
    ensures
        r@ == deselected(original@),
{
    broadcast use texts_push;
    let lines = text_lines_of(original);
    let ghost all = texts(lines@);
    let mut out: Vec<String> = Vec::new();
    let mut headed = false;
    let mut i: usize = 0;
    proof {
        reveal_strlit("# Modified by cloud-init to deselect certs due to user-data");
    }
    assert(all.skip(0) =~= all);
    assert(texts(out@) + deselected_lines(all, false) =~= deselected_lines(all, false));
    while i < lines.len()
        invariant
            i <= lines@.len(),
            all == texts(lines@),
            HEADER_COMMENT@.len() > 0,
            HEADER_COMMENT@[0] == '#',
            texts(out@) + deselected_lines(all.skip(i as int), headed) == deselected_lines(all, false),
        decreases lines.len() - i,
    {
        let ghost before = texts(out@);
        let ghost rest = all.skip(i as int);
        let line = &lines[i];
        assert(rest[0] == line@);
        assert(rest.skip(1) =~= all.skip(i + 1));
        let kept = line.as_str().is_empty() || is_marked(line.as_str());
        if kept {
            let ghost was = headed;
            if same(line.as_str(), HEADER_COMMENT) {
                headed = true;
            }
            out.push(line.clone());
            assert(before + (seq![line@] + deselected_lines(rest.skip(1), headed)) =~= texts(out@) + deselected_lines(
                rest.skip(1),
                headed,
            ));
        } else if headed {
            out.push(cat2("!", line.as_str()));
            assert(before + (seq!["!"@ + line@] + deselected_lines(rest.skip(1), true)) =~= texts(out@)
                + deselected_lines(rest.skip(1), true));
        } else {
            out.push(HEADER_COMMENT.to_owned());
            out.push(cat2("!", line.as_str()));
            headed = true;
            assert(before + (seq![HEADER_COMMENT@, "!"@ + line@] + deselected_lines(rest.skip(1), true)) =~= texts(
                out@,
            ) + deselected_lines(rest.skip(1), true));
        }
        i += 1;
    }
    assert(deselected_lines(all.skip(i as int), headed) =~= Seq::empty());
    assert(texts(out@) =~= deselected_lines(all, false));
    cat2(join_with(&out, "\n").as_str(), "\n")
}

/// Whether a text starts with one of the two marks.
fn is_marked(line: &str) -> (r: bool)
    ensures
        r == (line@.len() > 0 && (line@[0] == '#' || line@[0] == '!')),
{
    let a = chars_of(line);
    a.len() > 0 && (a[0] == '#' || a[0] == '!')
}

// ---------------------------------------------------------------------------
// Doing

/// Deselects every certificate in a file. A file that is not there or empty is
/// left alone.
pub open spec fn file_deselected<H: Host>(m: Store<H>, path: Seq<char>) -> (Store<H>, Result<(), Seq<char>>) {
    let (m1, text) = ask_selection::<H>(m, path);
    match text {
        Err(e) => (m1, Err(e)),
        Ok(None) => (m1, Ok(())),
        Ok(Some(text)) => if text.len() == 0 {
            (m1, Ok(()))
        } else {
            ask_write_file::<H>(m1, path, deselected(text))
        },
    }
}

pub fn disable_system_ca_certs<H: Host>(path: &str, host: &mut H) -> (r: Result<(), String>)
    ensures
        (final(host).machine(), unit_result(r)) == file_deselected::<H>(old(host).machine(), path@),
{
    match host.selection(path) {
        Err(e) => Err(e),
        Ok(None) => Ok(()),
        Ok(Some(text)) => if text.as_str().is_empty() {
            Ok(())
        } else {
            host.write_file(path, deselect(text.as_str()).as_str())
        },
    }
}

/// Does one thing. Commands are run on the machine itself only.
pub open spec fn done<H: Host>(m: Store<H>, step: StepSpec, live: bool) -> (Store<H>, Result<(), Seq<char>>) {
    match step {
        StepSpec::RemoveDirContents { path } => ask_remove_contents::<H>(m, path),
        StepSpec::DisableSystemCaCerts { path } => file_deselected::<H>(m, path),
        StepSpec::DebconfSetSelections { data } => if live {
            ask_set_selections::<H>(m, data)
        } else {
            (m, Ok(()))
        },
        StepSpec::WriteCert { path, contents } => ask_write_file::<H>(m, path, contents),
        StepSpec::UpdateCaCerts { argv } => if live {
            ask_subp::<H>(logged::<H>(m, "Running "@ + join(argv, " "@)), argv)
        } else {
            (m, Ok(()))
        },
    }
}

/// Does one thing after the other, up to the first that fails.
pub open spec fn all_done<H: Host>(m: Store<H>, steps: Seq<StepSpec>, live: bool) -> (Store<H>, Result<(), Seq<char>>)
    decreases steps.len(),
{
    if steps.len() == 0 {
        (m, Ok(()))
    } else {
        let (m1, first) = done::<H>(m, steps[0], live);
        if first is Err {
            (m1, first)
        } else {
            all_done::<H>(m1, steps.skip(1), live)
        }
    }
}

fn run_step<H: Host>(step: &Step, live: bool, host: &mut H) -> (r: Result<(), String>)
    ensures
        (final(host).machine(), unit_result(r)) == done::<H>(old(host).machine(), step@, live),
{
    match step {
        Step::RemoveDirContents { path } => host.remove_contents(path.as_str()),
        Step::DisableSystemCaCerts { path } => disable_system_ca_certs(path.as_str(), host),
        Step::DebconfSetSelections { data } => if live {
            host.set_selections(data.as_str())
        } else {
            Ok(())
        },
        Step::WriteCert { path, contents } => host.write_file(path.as_str(), contents.as_str()),
        Step::UpdateCaCerts { argv } => if live {
            log_debug(host, cat2("Running ", join_with(argv, " ").as_str()).as_str());
            host.subp(argv)
        } else {
            Ok(())
        },
    }
}

/// Carries out a plan.
pub fn run<H: Host>(steps: &Vec<Step>, live: bool, host: &mut H) -> (r: Result<(), String>)
    ensures
        (final(host).machine(), unit_result(r)) == all_done::<H>(old(host).machine(), steps_of(steps@), live),
{
    let ghost all = steps_of(steps@);
    let mut i: usize = 0;
    assert(all.skip(0) =~= all);
    while i < steps.len()
        invariant
            i <= steps@.len(),
            all == steps_of(steps@),
            all_done::<H>(host.machine(), all.skip(i as int), live) == all_done::<H>(old(host).machine(), all, live),
        decreases steps.len() - i,
    {
        assert(all.skip(i as int)[0] == steps@[i as int]@);
        assert(all.skip(i as int).skip(1) =~= all.skip(i + 1));
        match run_step(&steps[i], live, host) {
            Ok(()) => {},
            Err(e) => return Err(e),
        }
        i += 1;
    }
    Ok(())
}

/// What is decided and done.
pub open spec fn changed<H: Host>(
    m: Store<H>,
    module: Seq<char>,
    cfg: Seq<(Seq<char>, Val)>,
    name: Seq<char>,
    live: bool,
) -> (Store<H>, Result<(), Seq<char>>) {
    let m1 = plan_told::<H>(m, module, cfg, name);
    match planned(cfg, name) {
        Err(e) => (m1, Err(e)),
        Ok(steps) => all_done::<H>(m1, steps, live),
    }
}

/// Changes the certificates that the machine trusts.
pub fn handle_with<H: Host>(name: &str, cfg: &Object, distro_name: &str, live: bool, host: &mut H) -> (r: Result<
    (),
    String,
>)
    ensures
        (final(host).machine(), unit_result(r)) == changed::<H>(
            old(host).machine(),
            name@,
            cfg@,
            distro_name@,
            live,
        ),
{
    match plan(name, cfg, distro_name, host) {
        Ok(steps) => run(&steps, live, host),
        Err(e) => Err(e),
    }
}

// ---------------------------------------------------------------------------
// Laws

/// A plan that is not empty ends with bringing what is trusted up to date, whether
/// anything was changed or not, and does that nowhere else.
pub proof fn plans_end_with_an_update(cfg: Seq<(Seq<char>, Val)>, name: Seq<char>)
    requires
        planned(cfg, name) is Ok,
        planned(cfg, name)->Ok_0.len() > 0,
    ensures
        planned(cfg, name)->Ok_0.last() == (StepSpec::UpdateCaCerts {
            argv: seq![distro_places(name).ca_cert_update_cmd],
        }),
        forall|i: int|
            0 <= i < planned(cfg, name)->Ok_0.len() - 1 ==> !(#[trigger] planned(cfg, name)->Ok_0[i] is UpdateCaCerts),
{
}

/// The module is passed over just where it is not configured.
pub proof fn only_no_configuration_plans_nothing(cfg: Seq<(Seq<char>, Val)>, name: Seq<char>)
    ensures
        planned(cfg, name) == Ok::<Seq<StepSpec>, Seq<char>>(Seq::empty()) <==> block_in(cfg) is None,
{
    if let Ok(steps) = planned(cfg, name) {
        if block_in(cfg) is Some {
            assert(steps.len() > 0);
        }
    }
}

/// Deciding only writes to the log: whatever is asked of the machine then is a line.
pub proof fn deciding_only_writes_lines<H: Host>(
    m: Store<H>,
    module: Seq<char>,
    cfg: Seq<(Seq<char>, Val)>,
    name: Seq<char>,
    i: int,
)
    requires
        m.calls.len() <= i < plan_told::<H>(m, module, cfg, name).calls.len(),
    ensures
        plan_told::<H>(m, module, cfg, name).calls[i] is Report,
{
}

/// Away from the machine itself, no command is run.
pub proof fn no_commands_elsewhere<H: Host>(m: Store<H>, steps: Seq<StepSpec>)
    ensures
        forall|i: int|
            m.calls.len() <= i < all_done::<H>(m, steps, false).0.calls.len() ==> {
                let call = #[trigger] all_done::<H>(m, steps, false).0.calls[i];
                !(call is Subp) && !(call is SetSelections)
            },
        m.calls.len() <= all_done::<H>(m, steps, false).0.calls.len(),
        all_done::<H>(m, steps, false).0.calls.take(m.calls.len() as int) == m.calls,
    decreases steps.len(),
{
    if steps.len() > 0 {
        let (m1, first) = done::<H>(m, steps[0], false);
        no_commands_elsewhere::<H>(m1, steps.skip(1));
        let calls = all_done::<H>(m, steps, false).0.calls;
        assert(m1.calls.take(m.calls.len() as int) =~= m.calls);
        assert forall|i: int| m.calls.len() <= i < m1.calls.len() implies !(#[trigger] m1.calls[i] is Subp) && !(
        m1.calls[i] is SetSelections) by {}
        if first is Ok {
            assert(calls.take(m.calls.len() as int) =~= calls.take(m1.calls.len() as int).take(m.calls.len() as int));
            assert forall|i: int| m.calls.len() <= i < calls.len() implies ({
                let call = #[trigger] calls[i];
                !(call is Subp) && !(call is SetSelections)
            }) by {
                if i < m1.calls.len() {
                    assert(calls[i] == calls.take(m1.calls.len() as int)[i]);
                }
            }
        }
    } else {
        assert(m.calls.take(m.calls.len() as int) =~= m.calls);
    }
}

proof fn deselected_are_kept(lines: Seq<Seq<char>>, headed: bool)
    requires
        forall|k: int| 0 <= k < lines.len() ==> is_line(#[trigger] lines[k]),
    ensures
        forall|k: int|
            0 <= k < deselected_lines(lines, headed).len() ==> is_line(#[trigger] deselected_lines(lines, headed)[k])
                && is_kept(deselected_lines(lines, headed)[k]),
        lines.len() > 0 ==> deselected_lines(lines, headed).len() > 0,
    decreases lines.len(),
{
    if lines.len() > 0 {
        let line = lines[0];
        let rest = lines.skip(1);
        reveal_strlit("!");
        reveal_strlit("# Modified by cloud-init to deselect certs due to user-data");
        assert(is_line(line));
        assert forall|k: int| 0 <= k < rest.len() implies is_line(#[trigger] rest[k]) by {
            assert(rest[k] == lines[k + 1]);
        }
        let next = if is_kept(line) {
            headed || line == HEADER_COMMENT@
        } else {
            true
        };
        deselected_are_kept(rest, next);
        let out = deselected_lines(lines, headed);
        let more = deselected_lines(rest, next);
        let marked = "!"@ + line;
        assert forall|i: int| 0 <= i < marked.len() implies !within(Class::Break, #[trigger] marked[i]) by {
            if i > 0 {
                assert(marked[i] == line[i - 1]);
            }
        }
        assert(is_line(HEADER_COMMENT@));
        let ahead = out.len() - more.len();
        assert forall|k: int| 0 <= k < out.len() implies is_line(#[trigger] out[k]) && is_kept(out[k]) by {
            if k >= ahead {
                assert(out[k] == more[k - ahead]);
            }
        }
    }
}

proof fn kept_stay(lines: Seq<Seq<char>>, headed: bool)
    requires
        forall|k: int| 0 <= k < lines.len() ==> is_kept(#[trigger] lines[k]),
    ensures
        deselected_lines(lines, headed) == lines,
    decreases lines.len(),
{
    if lines.len() > 0 {
        assert(is_kept(lines[0]));
        let rest = lines.skip(1);
        assert forall|k: int| 0 <= k < rest.len() implies is_kept(#[trigger] rest[k]) by {
            assert(rest[k] == lines[k + 1]);
        }
        kept_stay(rest, headed || lines[0] == HEADER_COMMENT@);
        assert(seq![lines[0]] + rest =~= lines);
    }
}

proof fn joined_lines_are_read(lines: Seq<Seq<char>>)
    requires
        lines.len() > 0,
        forall|k: int| 0 <= k < lines.len() ==> is_line(#[trigger] lines[k]),
    ensures
        text_lines(join(lines, "\n"@) + "\n"@) == lines,
    decreases lines.len(),
{
    reveal_strlit("\n");
    let text = join(lines, "\n"@) + "\n"@;
    let tail = if lines.len() == 1 {
        Seq::empty()
    } else {
        join(lines.skip(1), "\n"@) + "\n"@
    };
    if lines.len() > 1 {
        join_from_front(lines, "\n"@);
    }
    assert(text =~= lines[0] + "\n"@ + tail);
    let n = lines[0].len() as int;
    assert(is_line(lines[0]));
    first_of_bounds(Class::Break, text);
    let i = first_of(Class::Break, text);
    assert(text[n] == '\n');
    assert(i <= n);
    if i < n {
        assert(text[i] == lines[0][i]);
    }
    assert(i == n);
    assert(break_width(text, n) == 1);
    assert(text.take(n) =~= lines[0]);
    assert(text.skip(n + 1) =~= tail);
    if lines.len() == 1 {
        assert(text_lines(tail) =~= Seq::empty());
        assert(lines =~= seq![lines[0]] + Seq::empty());
    } else {
        let rest = lines.skip(1);
        assert forall|k: int| 0 <= k < rest.len() implies is_line(#[trigger] rest[k]) by {
            assert(rest[k] == lines[k + 1]);
        }
        joined_lines_are_read(rest);
        assert(lines =~= seq![lines[0]] + rest);
    }
}

/// Deselecting twice is the same as deselecting once.
pub proof fn deselecting_twice_changes_nothing(text: Seq<char>)
    ensures
        deselected(deselected(text)) == deselected(text),
{
    let lines = text_lines(text);
    let once = deselected_lines(lines, false);
    lines_are_lines(text);
    deselected_are_kept(lines, false);
    if lines.len() == 0 {
        reveal_strlit("\n");
        assert(once =~= Seq::empty());
        assert(deselected(text) =~= "\n"@);
        let empty = seq![Seq::<char>::empty()];
        assert(join(empty, "\n"@) + "\n"@ =~= "\n"@);
        joined_lines_are_read(empty);
        kept_stay(empty, false);
    } else {
        joined_lines_are_read(once);
        kept_stay(once, false);
    }
}

/// After deselecting, every line is empty, a comment, or marked as deselected.
pub proof fn nothing_stays_selected(text: Seq<char>)
    ensures
        forall|k: int| 0 <= k < text_lines(deselected(text)).len() ==> is_kept(#[trigger] text_lines(deselected(text))[k]),
{
    let lines = text_lines(text);
    lines_are_lines(text);
    deselected_are_kept(lines, false);
    if lines.len() == 0 {
        reveal_strlit("\n");
        assert(deselected(text) =~= "\n"@);
        let empty = seq![Seq::<char>::empty()];
        assert(join(empty, "\n"@) + "\n"@ =~= "\n"@);
        joined_lines_are_read(empty);
    } else {
        joined_lines_are_read(deselected_lines(lines, false));
    }
}

}
