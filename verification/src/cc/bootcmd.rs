//! Running commands early in every boot.

use vstd::prelude::*;

use crate::cc::bootcmd::host::{
    ask_remove_dir, ask_report, ask_run_shell, ask_tempdir, ask_write_script, log_debug, log_warn, logged, warned, Call,
    Shell,
};
use crate::cc::script::{shellified, shellify};
use crate::cc::unit_result;
use crate::machine::Level;
use crate::number::{dec, dec_int, dec_int_of, dec_of};
use crate::paths::{join_path, joined};
use crate::text::{cat2, cat3, cat4, cat5, opt_text};
use crate::value::{get, Object, Val};

pub mod host;
pub mod laws;

pub use crate::cc::bootcmd::host::{Fixture, Host};

verus! {

/// How many seconds the commands may take.
pub const TIMEOUT: u64 = 3600;

/// What is reported of a failure.
pub open spec fn failed(name: Seq<char>, error: Seq<char>) -> Seq<char> {
    "Failed to run bootcmd module "@ + name + ": "@ + error
}

/// What an exit code means: nothing but zero is a success.
pub open spec fn exit_meaning(name: Seq<char>, code: Option<i32>) -> Result<(), Seq<char>> {
    if code == Some(0i32) {
        Ok(())
    } else {
        Err(
            failed(
                name,
                "/bin/sh exited "@ + match code {
                    Some(code) => dec_int(code as int),
                    None => "on a signal"@,
                },
            ),
        )
    }
}

/// What an exit code means: nothing but zero is a success.
pub fn exit_outcome(name: &str, code: Option<i32>) -> (r: Result<(), String>)
    ensures
        unit_result(r) == exit_meaning(name@, code),
{
    let shown = match code {
        Some(code) => {
            if code == 0 {
                return Ok(());
            }
            dec_int_of(code as i128)
        },
        None => "on a signal".to_owned(),
    };
    let r = cat5("Failed to run bootcmd module ", name, ": ", "/bin/sh exited ", shown.as_str());
    assert(r@ =~= failed(name@, "/bin/sh exited "@ + shown@));
    Err(r)
}

/// Has the shell run a script that is in a directory.
pub open spec fn script_run<H: Host>(
    m: Shell<H>,
    name: Seq<char>,
    dir: Seq<char>,
    content: Seq<char>,
    instance_id: Option<Seq<char>>,
) -> (Shell<H>, Result<(), Seq<char>>) {
    let script = joined(dir, "bootcmd.sh"@);
    let (m1, wrote) = ask_write_script::<H>(m, script, content, 0o700u32);
    match wrote {
        Err(e) => (m1, Err(failed(name, e))),
        Ok(()) => {
            let (m2, code) = ask_run_shell::<H>(m1, script, instance_id, TIMEOUT);
            (
                m2,
                match code {
                    Err(e) => Err(failed(name, e)),
                    Ok(code) => exit_meaning(name, code),
                },
            )
        },
    }
}

/// Has the shell run a script, in a directory that is then removed.
pub open spec fn commands_run<H: Host>(
    m: Shell<H>,
    name: Seq<char>,
    content: Seq<char>,
    instance_id: Option<Seq<char>>,
) -> (Shell<H>, Result<(), Seq<char>>) {
    let (m1, dir) = ask_tempdir::<H>(m);
    match dir {
        Err(e) => (m1, Err(failed(name, e))),
        Ok(dir) => {
            let (m2, done) = script_run::<H>(m1, name, dir, content, instance_id);
            (ask_remove_dir::<H>(m2, dir), done)
        },
    }
}

/// What is said where there are no commands.
pub open spec fn no_key_text(name: Seq<char>) -> Seq<char> {
    "Skipping module named "@ + name + ", no 'bootcmd' key in configuration"@
}

/// Says how many commands the script has.
pub open spec fn told<H: Host>(m: Shell<H>, made: nat) -> Shell<H> {
    ask_report::<H>(m, Level::Debug, "util.py"@, "Shellified "@ + dec(made) + " commands."@)
}

/// Runs the commands of the configuration, where it has some.
pub open spec fn booted<H: Host>(
    m: Shell<H>,
    name: Seq<char>,
    cfg: Seq<(Seq<char>, Val)>,
    instance_id: Option<Seq<char>>,
) -> (Shell<H>, Result<(), Seq<char>>) {
    match get(cfg, "bootcmd"@) {
        None => (logged::<H>(m, no_key_text(name)), Ok(())),
        Some(commands) => match shellified(commands) {
            Err(e) => (warned::<H>(m, "Failed to shellify bootcmd: "@ + e), Err(e)),
            Ok((content, made)) => commands_run::<H>(told::<H>(m, made), name, content, instance_id),
        },
    }
}

fn run_script<H: Host>(name: &str, dir: &str, content: &str, instance_id: &Option<String>, host: &mut H) -> (r: Result<
    (),
    String,
>)
    ensures
        (final(host).machine(), unit_result(r)) == script_run::<H>(
            old(host).machine(),
            name@,
            dir@,
            content@,
            opt_text(*instance_id),
        ),
{
    let script = join_path(dir, "bootcmd.sh");
    match host.write_script(script.as_str(), content, 0o700) {
        Ok(()) => {},
        Err(e) => return Err(cat4("Failed to run bootcmd module ", name, ": ", e.as_str())),
    }
    match host.run_shell(script.as_str(), instance_id, TIMEOUT) {
        Ok(code) => exit_outcome(name, code),
        Err(e) => Err(cat4("Failed to run bootcmd module ", name, ": ", e.as_str())),
    }
}

/// Runs the commands of the configuration, where it has some.
pub fn handle_with<H: Host>(name: &str, cfg: &Object, instance_id: &Option<String>, host: &mut H) -> (r: Result<
    (),
    String,
>)
    ensures
        (final(host).machine(), unit_result(r)) == booted::<H>(
            old(host).machine(),
            name@,
            cfg@,
            opt_text(*instance_id),
        ),
{
    let commands = match cfg.get("bootcmd") {
        Some(commands) => commands,
        None => {
            log_debug(host, cat3("Skipping module named ", name, ", no 'bootcmd' key in configuration").as_str());
            return Ok(());
        },
    };
    let content = match shellify(commands) {
        Ok((content, made)) => {
            host.report(
                Level::Debug,
                "util.py",
                cat3("Shellified ", dec_of(made as u128).as_str(), " commands.").as_str(),
            );
            content
        },
        Err(e) => {
            log_warn(host, cat2("Failed to shellify bootcmd: ", e.as_str()).as_str());
            return Err(e);
        },
    };
    let dir = match host.tempdir() {
        Ok(dir) => dir,
        Err(e) => return Err(cat4("Failed to run bootcmd module ", name, ": ", e.as_str())),
    };
    let done = run_script(name, dir.as_str(), content.as_str(), instance_id, host);
    host.remove_dir(dir.as_str());
    done
}

// ---------------------------------------------------------------------------
// Laws

/// Commands that cannot be made a script never reach the shell: all that happens is
/// a warning.
pub proof fn no_script_only_warns<H: Host>(
    m: Shell<H>,
    name: Seq<char>,
    cfg: Seq<(Seq<char>, Val)>,
    commands: Val,
    instance_id: Option<Seq<char>>,
)
    requires
        get(cfg, "bootcmd"@) == Some(commands),
        shellified(commands) is Err,
    ensures
        booted::<H>(m, name, cfg, instance_id) == (
            warned::<H>(m, "Failed to shellify bootcmd: "@ + shellified(commands)->Err_0),
            Err::<(), Seq<char>>(shellified(commands)->Err_0),
        ),
{
}

/// The shell is never given more than the time there is: whatever is asked of the
/// machine is no run of the shell, or one with that limit.
pub proof fn the_shell_has_an_hour<H: Host>(
    m: Shell<H>,
    name: Seq<char>,
    cfg: Seq<(Seq<char>, Val)>,
    instance_id: Option<Seq<char>>,
    i: int,
)
    requires
        m.calls.len() <= i < booted::<H>(m, name, cfg, instance_id).0.calls.len(),
    ensures
        match booted::<H>(m, name, cfg, instance_id).0.calls[i] {
            Call::RunShell { script, instance_id, seconds } => seconds == 3600,
            _ => true,
        },
{
}

/// Whatever comes of the commands, the directory that was made for them is removed.
pub proof fn the_directory_is_removed<H: Host>(
    m: Shell<H>,
    name: Seq<char>,
    content: Seq<char>,
    instance_id: Option<Seq<char>>,
)
    requires
        ask_tempdir::<H>(m).1 is Ok,
    ensures
        commands_run::<H>(m, name, content, instance_id).0.calls.last() == Call::RemoveDir(
            ask_tempdir::<H>(m).1->Ok_0,
        ),
{
}

}
