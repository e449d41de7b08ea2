//! Commands, and the steps and changes of files that are carried out.

use vstd::prelude::*;
use vstd::string::*;
use vstd::utf8::encode_utf8;

use crate::case::{debug_of, debugged};
use crate::cc::apt_configure::host::{
    ask_append_file, ask_ensure_parent, ask_plan_install, ask_plan_update, ask_remove_file, ask_run_package_step,
    ask_step_done, ask_subp, ask_write_file, log_tool, log_warn, tool_logged, warned, Call, FileAction, FileSpec, Host,
    Site, Step, StepSpec,
};
use crate::cc::package_update_upgrade_install::host::{steps_of, Step as PackageStep, StepSpec as PackageSpec};
use crate::cc::unit_result;
use crate::number::{dec, dec_of};
use crate::paths::{path_within, within};
use crate::text::{argv3, cat3, cat4, cat7, same, texts};

verus! {

/// Whether a tree is the machine's own. No command that changes a machine is run for
/// another.
pub open spec fn is_live(root: Seq<char>) -> bool {
    root == "/"@
}

/// What is said of a command that is not run.
pub open spec fn refusal(command: Seq<char>) -> Seq<char> {
    "refusing to run "@ + debugged(command) + " against a rooted tree"@
}

/// The program of a command, which an empty command does not name.
pub open spec fn program(argv: Seq<Seq<char>>) -> Seq<char> {
    if argv.len() == 0 {
        Seq::empty()
    } else {
        argv[0]
    }
}

fn refuse(argv: &Vec<String>) -> (r: String)
    ensures
        r@ == refusal(program(texts(argv@))),
{
    let program = if argv.len() == 0 {
        let none = String::new();
        assert(none@ =~= Seq::empty());
        none
    } else {
        assert(texts(argv@)[0] == argv@[0]@);
        argv[0].clone()
    };
    cat3("refusing to run ", debug_of(program.as_str()).as_str(), " against a rooted tree")
}

/// Runs a command for the machine's own tree, and for no other.
pub open spec fn command_run<H: Host>(m: Site<H>, argv: Seq<Seq<char>>, root: Seq<char>) -> (
    Site<H>,
    Result<(), Seq<char>>,
) {
    if is_live(root) {
        ask_subp::<H>(m, argv)
    } else {
        (m, Err(refusal(program(argv))))
    }
}

pub fn run_command<H: Host>(argv: &Vec<String>, root: &str, host: &mut H) -> (r: Result<(), String>)
    ensures
        (final(host).machine(), unit_result(r)) == command_run::<H>(old(host).machine(), texts(argv@), root@),
{
    if same(root, "/") {
        return host.subp(argv);
    }
    Err(refuse(argv))
}

/// Runs commands for packages one after the other, up to the first that fails. One that
/// is run once only and was run is passed over. None is run for a tree that is not the
/// machine's own.
pub open spec fn package_steps_run<H: Host>(m: Site<H>, steps: Seq<PackageSpec>, root: Seq<char>) -> (
    Site<H>,
    Result<(), Seq<char>>,
)
    decreases steps.len(),
{
    if steps.len() == 0 {
        (m, Ok(()))
    } else {
        let (m1, done) = match steps[0].semaphore {
            Some(name) => ask_step_done::<H>(m, name),
            None => (m, false),
        };
        if done {
            package_steps_run::<H>(m1, steps.skip(1), root)
        } else if !is_live(root) {
            (m1, Err(refusal(program(steps[0].argv))))
        } else {
            let (m2, ran) = ask_run_package_step::<H>(m1, steps[0]);
            match ran {
                Err(e) => (m2, Err(e)),
                Ok(()) => package_steps_run::<H>(m2, steps.skip(1), root),
            }
        }
    }
}

pub fn run_package_steps<H: Host>(steps: &Vec<PackageStep>, root: &str, host: &mut H) -> (r: Result<(), String>)
    ensures
        (final(host).machine(), unit_result(r)) == package_steps_run::<H>(
            old(host).machine(),
            steps_of(steps@),
            root@,
        ),
{
    let ghost all = steps_of(steps@);
    let mut i: usize = 0;
    assert(all.skip(0) =~= all);
    while i < steps.len()
        invariant
            i <= steps@.len(),
            all == steps_of(steps@),
            package_steps_run::<H>(host.machine(), all.skip(i as int), root@) == package_steps_run::<H>(
                old(host).machine(),
                all,
                root@,
            ),
        decreases steps.len() - i,
    {
        assert(all.skip(i as int)[0] == steps@[i as int]@);
        assert(all.skip(i as int).skip(1) =~= all.skip(i + 1));
        let done = match &steps[i].semaphore {
            Some(name) => host.step_done(name.as_str()),
            None => false,
        };
        if !done {
            if !same(root, "/") {
                return Err(refuse(&steps[i].argv));
            }
            match host.run_package_step(&steps[i]) {
                Ok(()) => {},
                Err(e) => return Err(e),
            }
        }
        i += 1;
    }
    Ok(())
}

/// Installs packages. What could not be planned of it is a failure once the rest is
/// done.
pub open spec fn packages_installed<H: Host>(m: Site<H>, names: Seq<Seq<char>>, root: Seq<char>) -> (
    Site<H>,
    Result<(), Seq<char>>,
) {
    let (m1, plan) = ask_plan_install::<H>(m, names);
    match plan {
        Err(e) => (m1, Err(e)),
        Ok(plan) => {
            let (m2, ran) = package_steps_run::<H>(m1, plan.steps, root);
            match (ran, plan.failed) {
                (Err(e), _) => (m2, Err(e)),
                (Ok(()), Some(e)) => (m2, Err(e)),
                (Ok(()), None) => (m2, Ok(())),
            }
        },
    }
}

pub fn install_packages<H: Host>(names: &Vec<String>, root: &str, host: &mut H) -> (r: Result<(), String>)
    ensures
        (final(host).machine(), unit_result(r)) == packages_installed::<H>(
            old(host).machine(),
            texts(names@),
            root@,
        ),
{
    let plan = match host.plan_install(names) {
        Ok(plan) => plan,
        Err(e) => return Err(e),
    };
    match run_package_steps(&plan.steps, root, host) {
        Ok(()) => {},
        Err(e) => return Err(e),
    }
    match plan.failed {
        Some(e) => Err(e),
        None => Ok(()),
    }
}

/// Brings the lists of packages up to date.
pub open spec fn sources_updated<H: Host>(m: Site<H>, root: Seq<char>) -> (Site<H>, Result<(), Seq<char>>) {
    let (m1, plan) = ask_plan_update::<H>(m);
    match plan {
        Err(e) => (m1, Err(e)),
        Ok(steps) => package_steps_run::<H>(m1, steps, root),
    }
}

fn update_sources<H: Host>(root: &str, host: &mut H) -> (r: Result<(), String>)
    ensures
        (final(host).machine(), unit_result(r)) == sources_updated::<H>(old(host).machine(), root@),
{
    match host.plan_update() {
        Ok(steps) => run_package_steps(&steps, root, host),
        Err(e) => Err(e),
    }
}

/// The mode of a file that is given no other.
pub const USUAL_MODE: u32 = 0o644;

/// Carries out a change to a file.
pub open spec fn file_changed<H: Host>(m: Site<H>, action: FileSpec, root: Seq<char>) -> (
    Site<H>,
    Result<(), Seq<char>>,
) {
    match action {
        FileSpec::Write { path, content, mode } => {
            let mode = match mode {
                Some(mode) => mode,
                None => USUAL_MODE,
            };
            let bytes = encode_utf8(content);
            let (m1, made) = ask_ensure_parent::<H>(m, path);
            match made {
                Err(e) => (m1, Err(e)),
                Ok(()) => {
                    let m2 = tool_logged::<H>(
                        m1,
                        "Writing to "@ + within(root, path) + " - wb: ["@ + dec(mode as nat) + "] "@ + dec(bytes.len())
                            + " bytes"@,
                    );
                    ask_write_file::<H>(m2, path, bytes, mode)
                },
            }
        },
        FileSpec::Remove(path) => ask_remove_file::<H>(m, path),
    }
}

pub fn run_file_action<H: Host>(action: &FileAction, root: &str, host: &mut H) -> (r: Result<(), String>)
    ensures
        (final(host).machine(), unit_result(r)) == file_changed::<H>(old(host).machine(), action@, root@),
{
    match action {
        FileAction::Write { path, content, mode } => {
            let mode: u32 = match mode {
                Some(mode) => *mode,
                None => USUAL_MODE,
            };
            let bytes = content.as_str().as_bytes_vec();
            match host.ensure_parent(path.as_str()) {
                Ok(()) => {},
                Err(e) => return Err(e),
            }
            log_tool(
                host,
                cat7(
                    "Writing to ",
                    path_within(root, path.as_str()).as_str(),
                    " - wb: [",
                    dec_of(mode as u128).as_str(),
                    "] ",
                    dec_of(bytes.len() as u128).as_str(),
                    " bytes",
                ).as_str(),
            );
            host.write_file(path.as_str(), &bytes, mode)
        },
        FileAction::Remove(path) => host.remove_file(path.as_str()),
    }
}

/// Carries out a step. That a source could not be written or a repository not be
/// added is warned of.
pub open spec fn step_run<H: Host>(m: Site<H>, step: StepSpec, root: Seq<char>) -> (Site<H>, Result<(), Seq<char>>) {
    match step {
        StepSpec::WriteKey { path, content } => {
            let (m1, made) = ask_ensure_parent::<H>(m, path);
            match made {
                Err(e) => (m1, Err(e)),
                Ok(()) => ask_write_file::<H>(m1, path, content, USUAL_MODE),
            }
        },
        StepSpec::WriteSource { path, content, append } => {
            let (m1, made) = ask_ensure_parent::<H>(m, path);
            match made {
                Err(e) => (m1, Err(e)),
                Ok(()) => {
                    let (m2, written) = if append {
                        ask_append_file::<H>(m1, path, encode_utf8(content), USUAL_MODE)
                    } else {
                        ask_write_file::<H>(m1, path, encode_utf8(content), USUAL_MODE)
                    };
                    match written {
                        Err(e) => (
                            warned::<H>(m2, "failed write to file "@ + within(root, path) + ": "@ + e),
                            Err(e),
                        ),
                        Ok(()) => (m2, Ok(())),
                    }
                },
            }
        },
        StepSpec::AddAptRepository { source } => {
            let (m1, added) = command_run::<H>(m, seq!["add-apt-repository"@, "--no-update"@, source], root);
            match added {
                Err(e) => (warned::<H>(m1, "add-apt-repository failed."@), Err(e)),
                Ok(()) => (m1, Ok(())),
            }
        },
        StepSpec::UpdatePackageSources => sources_updated::<H>(m, root),
    }
}

pub fn run_step<H: Host>(step: &Step, root: &str, host: &mut H) -> (r: Result<(), String>)
    ensures
        (final(host).machine(), unit_result(r)) == step_run::<H>(old(host).machine(), step@, root@),
{
    match step {
        Step::WriteKey { path, content } => {
            match host.ensure_parent(path.as_str()) {
                Ok(()) => {},
                Err(e) => return Err(e),
            }
            host.write_file(path.as_str(), content, USUAL_MODE)
        },
        Step::WriteSource { path, content, append } => {
            let bytes = content.as_str().as_bytes_vec();
            match host.ensure_parent(path.as_str()) {
                Ok(()) => {},
                Err(e) => return Err(e),
            }
            let written = if *append {
                host.append_file(path.as_str(), &bytes, USUAL_MODE)
            } else {
                host.write_file(path.as_str(), &bytes, USUAL_MODE)
            };
            match written {
                Ok(()) => Ok(()),
                Err(e) => {
                    log_warn(
                        host,
                        cat4("failed write to file ", path_within(root, path.as_str()).as_str(), ": ", e.as_str()).as_str(),
                    );
                    Err(e)
                },
            }
        },
        Step::AddAptRepository { source } => {
            let argv = argv3("add-apt-repository", "--no-update", source.as_str());
            match run_command(&argv, root, host) {
                Ok(()) => Ok(()),
                Err(e) => {
                    log_warn(host, "add-apt-repository failed.");
                    Err(e)
                },
            }
        },
        Step::UpdatePackageSources => update_sources(root, host),
    }
}

// ---------------------------------------------------------------------------
// Laws

/// Whether a call has the machine run a command that changes it.
pub open spec fn runs_command(call: Call) -> bool {
    call is Subp || call is Feed || call is RunPackageStep
}

/// The calls among others that have the machine run a command that changes it.
pub open spec fn commands_in(calls: Seq<Call>) -> Seq<Call>
    decreases calls.len(),
{
    if calls.len() == 0 {
        Seq::empty()
    } else if runs_command(calls.last()) {
        commands_in(calls.drop_last()).push(calls.last())
    } else {
        commands_in(calls.drop_last())
    }
}

pub broadcast proof fn commands_after(calls: Seq<Call>, call: Call)
    ensures
        #[trigger] commands_in(calls.push(call)) == (if runs_command(call) {
            commands_in(calls).push(call)
        } else {
            commands_in(calls)
        }),
{
    assert(calls.push(call).drop_last() =~= calls);
}

/// For a tree that is not the machine's own no command is run.
pub proof fn rooted_tree_runs_nothing<H: Host>(m: Site<H>, argv: Seq<Seq<char>>, root: Seq<char>)
    requires
        !is_live(root),
    ensures
        command_run::<H>(m, argv, root) == (m, Err::<(), Seq<char>>(refusal(program(argv)))),
{
}

/// For a tree that is not the machine's own no command for packages is run: the first
/// that is due is refused, and one that may be run more than once is always due.
pub proof fn rooted_tree_runs_no_package_command<H: Host>(m: Site<H>, steps: Seq<PackageSpec>, root: Seq<char>)
    requires
        !is_live(root),
    ensures
        commands_in(package_steps_run::<H>(m, steps, root).0.calls) == commands_in(m.calls),
        steps.len() > 0 && steps[0].semaphore is None ==> package_steps_run::<H>(m, steps, root) == (
            m,
            Err::<(), Seq<char>>(refusal(program(steps[0].argv))),
        ),
        (exists|i: int| 0 <= i < steps.len() && (#[trigger] steps[i]).semaphore is None) ==> package_steps_run::<H>(
            m,
            steps,
            root,
        ).1 is Err,
    decreases steps.len(),
{
    broadcast use commands_after;

    if steps.len() > 0 {
        if let Some(name) = steps[0].semaphore {
            rooted_tree_runs_no_package_command::<H>(ask_step_done::<H>(m, name).0, steps.skip(1), root);
            if exists|i: int| 0 <= i < steps.len() && (#[trigger] steps[i]).semaphore is None {
                let i = choose|i: int| 0 <= i < steps.len() && (#[trigger] steps[i]).semaphore is None;
                assert(steps.skip(1)[i - 1].semaphore is None);
            }
        }
    }
}

/// For a tree that is not the machine's own neither a step nor the installing of
/// packages runs a command.
pub proof fn rooted_tree_only_takes_files<H: Host>(
    m: Site<H>,
    step: StepSpec,
    names: Seq<Seq<char>>,
    root: Seq<char>,
)
    requires
        !is_live(root),
    ensures
        commands_in(step_run::<H>(m, step, root).0.calls) == commands_in(m.calls),
        commands_in(packages_installed::<H>(m, names, root).0.calls) == commands_in(m.calls),
{
    broadcast use commands_after;

    let (m1, update) = ask_plan_update::<H>(m);
    if let Ok(steps) = update {
        rooted_tree_runs_no_package_command::<H>(m1, steps, root);
    }
    let (m2, install) = ask_plan_install::<H>(m, names);
    if let Ok(plan) = install {
        rooted_tree_runs_no_package_command::<H>(m2, plan.steps, root);
    }
}

/// A repository is only ever added to the machine's own tree, and that it could not
/// be is warned of.
pub proof fn repositories_are_for_the_own_tree<H: Host>(m: Site<H>, source: Seq<char>, root: Seq<char>)
    requires
        !is_live(root),
    ensures
        step_run::<H>(m, StepSpec::AddAptRepository { source }, root) == (
            warned::<H>(m, "add-apt-repository failed."@),
            Err::<(), Seq<char>>(refusal("add-apt-repository"@)),
        ),
{
}

}
