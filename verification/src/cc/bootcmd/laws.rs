//! What is promised of the commands of a boot.

use vstd::prelude::*;

use crate::cc::bootcmd::host::{Call, Host, Shell};
use crate::cc::bootcmd::{booted, commands_run, exit_meaning};
use crate::cc::script::shellified;
use crate::paths::joined;
use crate::value::{get, Val};

verus! {

/// The commands are written to a script that only its owner can run, in a directory of
/// their own; the shell runs it for an hour at most, and knows the instance; and the
/// directory is removed.
pub proof fn the_script_is_written_and_run<H: Host>(
    m: Shell<H>,
    name: Seq<char>,
    content: Seq<char>,
    instance_id: Option<Seq<char>>,
    dir: Seq<char>,
)
    requires
        H::reply(m.world, Call::TempDir).1->Read_0 == Ok::<Seq<char>, Seq<char>>(dir),
    ensures
        ({
            let (after, done) = commands_run::<H>(m, name, content, instance_id);
            let script = joined(dir, "bootcmd.sh"@);
            let w = H::reply(m.world, Call::TempDir).0;
            let write = Call::WriteScript { path: script, content, mode: 0o700 };
            let (w2, wrote) = H::reply(w, write);
            let run = Call::RunShell { script, instance_id, seconds: 3600 };
            let code = H::reply(w2, run).1->Exited_0;
            &&& wrote->Done_0 is Err ==> done is Err && after.calls == m.calls.push(Call::TempDir).push(write).push(
                Call::RemoveDir(dir),
            )
            &&& wrote->Done_0 is Ok ==> after.calls == m.calls.push(Call::TempDir).push(write).push(run).push(
                Call::RemoveDir(dir),
            )
            &&& wrote->Done_0 is Ok ==> (done is Ok <==> code == Ok::<Option<i32>, Seq<char>>(Some(0)))
        }),
{
}

/// Only the exit code zero is a success; another code, and a signal, are failures.
pub proof fn only_zero_is_a_success(name: Seq<char>, code: Option<i32>)
    ensures
        exit_meaning(name, code) is Ok <==> code == Some(0i32),
        code is None ==> exit_meaning(name, code) == Err::<(), Seq<char>>(
            "Failed to run bootcmd module "@ + name + ": "@ + "/bin/sh exited on a signal"@,
        ),
{
    reveal_strlit("/bin/sh exited ");
    reveal_strlit("on a signal");
    reveal_strlit("/bin/sh exited on a signal");
    assert("/bin/sh exited "@ + "on a signal"@ =~= "/bin/sh exited on a signal"@);
}

/// What the shell is given is the script of the commands that are configured.
pub proof fn the_configured_commands_are_run<H: Host>(
    m: Shell<H>,
    name: Seq<char>,
    cfg: Seq<(Seq<char>, Val)>,
    instance_id: Option<Seq<char>>,
    commands: Val,
    content: Seq<char>,
    made: nat,
)
    requires
        get(cfg, "bootcmd"@) == Some(commands),
        shellified(commands) == Ok::<(Seq<char>, nat), Seq<char>>((content, made)),
    ensures
        ({
            let calls = booted::<H>(m, name, cfg, instance_id).0.calls;
            let n = m.calls.len() as int;
            &&& calls[n] is Report
            &&& calls[n + 1] == Call::TempDir
            &&& calls.len() > n + 2 ==> (calls[n + 2] matches Call::WriteScript { content: c, .. } && c == content)
        }),
{
}

}
