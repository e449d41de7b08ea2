//! What updating and installing packages asks of the machine.

use vstd::prelude::*;

use crate::cc::{fail_as_scripted, failure, unit_result};
use crate::machine::{answers, asked, log_line, log_line_of, text_table, Level, Machine};
use crate::number::{dec, dec_of};
use crate::text::{cat2, copy_strings, has_text, join, join_with, opt_text, texts, texts_push};
use crate::value::{vals, Node, Val};

verus! {

/// A command to run.
#[derive(Debug, Clone, PartialEq, Eq)]
pub struct Step {
    pub argv: Vec<String>,
    /// Variables that are set.
    pub env: Vec<(String, String)>,
    /// The name under which the command is run once only, if it is.
    pub semaphore: Option<String>,
}

pub struct StepSpec {
    pub argv: Seq<Seq<char>>,
    pub env: Seq<(Seq<char>, Seq<char>)>,
    pub semaphore: Option<Seq<char>>,
}

impl View for Step {
    type V = StepSpec;

    open spec fn view(&self) -> StepSpec {
        StepSpec { argv: texts(self.argv@), env: text_table(self.env@), semaphore: opt_text(self.semaphore) }
    }
}

pub open spec fn steps_of(steps: Seq<Step>) -> Seq<StepSpec> {
    Seq::new(steps.len(), |i: int| steps[i]@)
}

/// The commands that install packages, and what could not be planned of it.
#[derive(Debug, Clone, PartialEq, Eq)]
pub struct InstallPlan {
    pub steps: Vec<Step>,
    pub failed: Option<String>,
}

pub struct InstallSpec {
    pub steps: Seq<StepSpec>,
    pub failed: Option<Seq<char>>,
}

impl View for InstallPlan {
    type V = InstallSpec;

    open spec fn view(&self) -> InstallSpec {
        InstallSpec { steps: steps_of(self.steps@), failed: opt_text(self.failed) }
    }
}

pub open spec fn steps_result(r: Result<Vec<Step>, String>) -> Result<Seq<StepSpec>, Seq<char>> {
    match r {
        Ok(v) => Ok(steps_of(v@)),
        Err(e) => Err(e@),
    }
}

pub open spec fn install_result(r: Result<InstallPlan, String>) -> Result<InstallSpec, Seq<char>> {
    match r {
        Ok(p) => Ok(p@),
        Err(e) => Err(e@),
    }
}

/// What is known of the machine before anything is decided.
#[derive(Debug, Clone, PartialEq, Eq)]
pub struct State {
    /// Whether apt is there.
    pub apt_available: bool,
    /// Whether snap is there.
    pub snap_available: bool,
    /// Until when snap is told not to refresh, if it is.
    pub snap_refresh_hold: Option<String>,
    /// The file that says that the machine should be started anew, if there is one.
    pub reboot_marker: Option<String>,
}

pub struct StateSpec {
    pub apt_available: bool,
    pub snap_available: bool,
    pub snap_refresh_hold: Option<Seq<char>>,
    pub reboot_marker: Option<Seq<char>>,
}

impl View for State {
    type V = StateSpec;

    open spec fn view(&self) -> StateSpec {
        StateSpec {
            apt_available: self.apt_available,
            snap_available: self.snap_available,
            snap_refresh_hold: opt_text(self.snap_refresh_hold),
            reboot_marker: opt_text(self.reboot_marker),
        }
    }
}

/// A copy of variables with their values.
fn copy_table(t: &Vec<(String, String)>) -> (r: Vec<(String, String)>)
    ensures
        text_table(r@) == text_table(t@),
{
    let ghost all = text_table(t@);
    let mut out: Vec<(String, String)> = Vec::new();
    let mut i: usize = 0;
    assert(text_table(out@) =~= all.take(0));
    while i < t.len()
        invariant
            i <= t@.len(),
            all == text_table(t@),
            text_table(out@) == all.take(i as int),
        decreases t.len() - i,
    {
        let ghost before = text_table(out@);
        out.push((t[i].0.clone(), t[i].1.clone()));
        assert(text_table(out@) =~= before.push(all[i as int]));
        i += 1;
        assert(all.take(i as int) =~= all.take(i - 1).push(all[i - 1]));
    }
    assert(all.take(i as int) =~= all);
    out
}

/// A copy of an optional text.
pub fn copy_option(o: &Option<String>) -> (r: Option<String>)
    ensures
        opt_text(r) == opt_text(*o),
{
    match o {
        Some(s) => Some(s.clone()),
        None => None,
    }
}

/// A copy of commands.
pub fn copy_steps(steps: &Vec<Step>) -> (r: Vec<Step>)
    ensures
        steps_of(r@) == steps_of(steps@),
{
    let ghost all = steps_of(steps@);
    let mut out: Vec<Step> = Vec::new();
    let mut i: usize = 0;
    assert(steps_of(out@) =~= all.take(0));
    while i < steps.len()
        invariant
            i <= steps@.len(),
            all == steps_of(steps@),
            steps_of(out@) == all.take(i as int),
        decreases steps.len() - i,
    {
        let ghost before = steps_of(out@);
        let step = Step {
            argv: copy_strings(&steps[i].argv),
            env: copy_table(&steps[i].env),
            semaphore: copy_option(&steps[i].semaphore),
        };
        assert(step@ == all[i as int]);
        out.push(step);
        assert(steps_of(out@) =~= before.push(all[i as int]));
        i += 1;
        assert(all.take(i as int) =~= all.take(i - 1).push(all[i - 1]));
    }
    assert(all.take(i as int) =~= all);
    out
}

/// A question to the machine.
pub enum Call {
    IsFile(Seq<char>),
    Which(Seq<char>),
    SnapSettings,
    ReadConfig,
    PlanUpdate(StateSpec),
    PlanUpgrade(StateSpec),
    PlanInstall { state: StateSpec, packages: Seq<Val> },
    Run(Seq<StepSpec>),
    Reboot,
    Sleep(u64),
    Report { level: Level, source: Seq<char>, text: Seq<char> },
}

/// The machine's answer to a question.
pub enum Answer {
    Nothing,
    Flag(bool),
    Found(Option<Seq<char>>),
    Done(Result<(), Seq<char>>),
    Steps(Seq<StepSpec>),
    Upgrade(Result<Seq<StepSpec>, Seq<char>>),
    Install(Result<InstallSpec, Seq<char>>),
}

/// Everything that updating and installing packages asks of the machine.
///
/// A machine is a state and a rule: [`Host::reply`] gives, for a state and a
/// call, the next state and the answer.
pub trait Host: Sized {
    type World;

    spec fn machine(&self) -> Machine<Call, Self::World>;

    spec fn reply(world: Self::World, call: Call) -> (Self::World, Answer);

    /// Whether a path is a file.
    fn is_file(&mut self, path: &str) -> (r: bool)
        ensures
            answers(
                old(self).machine(),
                Call::IsFile(path@),
                Self::reply(old(self).machine().world, Call::IsFile(path@)),
                final(self).machine(),
                Answer::Flag(r),
            ),
    ;

    /// Whether a program can be found.
    fn which(&mut self, program: &str) -> (r: bool)
        ensures
            answers(
                old(self).machine(),
                Call::Which(program@),
                Self::reply(old(self).machine().world, Call::Which(program@)),
                final(self).machine(),
                Answer::Flag(r),
            ),
    ;

    /// What the settings of the snap system are, as they are printed.
    fn snap_settings(&mut self) -> (r: Option<String>)
        ensures
            answers(
                old(self).machine(),
                Call::SnapSettings,
                Self::reply(old(self).machine().world, Call::SnapSettings),
                final(self).machine(),
                Answer::Found(opt_text(r)),
            ),
    ;

    /// Takes up how packages are managed.
    fn read_config(&mut self) -> (r: Result<(), String>)
        ensures
            answers(
                old(self).machine(),
                Call::ReadConfig,
                Self::reply(old(self).machine().world, Call::ReadConfig),
                final(self).machine(),
                Answer::Done(unit_result(r)),
            ),
    ;

    /// The commands that bring the lists of packages up to date.
    fn plan_update(&mut self, state: &State) -> (r: Vec<Step>)
        ensures
            answers(
                old(self).machine(),
                Call::PlanUpdate(state@),
                Self::reply(old(self).machine().world, Call::PlanUpdate(state@)),
                final(self).machine(),
                Answer::Steps(steps_of(r@)),
            ),
    ;

    /// The commands that bring packages up to date.
    fn plan_upgrade(&mut self, state: &State) -> (r: Result<Vec<Step>, String>)
        ensures
            answers(
                old(self).machine(),
                Call::PlanUpgrade(state@),
                Self::reply(old(self).machine().world, Call::PlanUpgrade(state@)),
                final(self).machine(),
                Answer::Upgrade(steps_result(r)),
            ),
    ;

    /// The commands that install packages.
    fn plan_install(&mut self, state: &State, packages: &Vec<Node>) -> (r: Result<InstallPlan, String>)
        ensures
            answers(
                old(self).machine(),
                Call::PlanInstall { state: state@, packages: vals(packages@) },
                Self::reply(old(self).machine().world, Call::PlanInstall { state: state@, packages: vals(packages@) }),
                final(self).machine(),
                Answer::Install(install_result(r)),
            ),
    ;

    /// Runs commands one after the other, up to the first that fails.
    fn run_steps(&mut self, steps: &Vec<Step>) -> (r: Result<(), String>)
        ensures
            answers(
                old(self).machine(),
                Call::Run(steps_of(steps@)),
                Self::reply(old(self).machine().world, Call::Run(steps_of(steps@))),
                final(self).machine(),
                Answer::Done(unit_result(r)),
            ),
    ;

    /// Asks for the machine to be started anew.
    fn reboot(&mut self) -> (r: Result<(), String>)
        ensures
            answers(
                old(self).machine(),
                Call::Reboot,
                Self::reply(old(self).machine().world, Call::Reboot),
                final(self).machine(),
                Answer::Done(unit_result(r)),
            ),
    ;

    /// Waits for a number of seconds.
    fn sleep(&mut self, seconds: u64)
        ensures
            answers(
                old(self).machine(),
                Call::Sleep(seconds),
                Self::reply(old(self).machine().world, Call::Sleep(seconds)),
                final(self).machine(),
                Answer::Nothing,
            ),
    ;

    /// Writes a line to the log, under the name of what it comes from.
    fn report(&mut self, level: Level, source: &str, text: &str)
        ensures
            final(self).machine() == asked(
                old(self).machine(),
                Call::Report { level, source: source@, text: text@ },
                Self::reply(old(self).machine().world, Call::Report { level, source: source@, text: text@ }).0,
            ),
    ;
}

/// A machine that the module works on.
pub type Depot<H> = Machine<Call, <H as Host>::World>;

pub open spec fn ask_report<H: Host>(m: Depot<H>, level: Level, source: Seq<char>, text: Seq<char>) -> Depot<H> {
    let call = Call::Report { level, source, text };
    asked(m, call, H::reply(m.world, call).0)
}

/// The name under which the module writes to the log.
pub const SOURCE: &'static str = "cc_package_update_upgrade_install.py";

/// A line on what happens.
pub open spec fn informed<H: Host>(m: Depot<H>, text: Seq<char>) -> Depot<H> {
    ask_report::<H>(m, Level::Info, SOURCE@, text)
}

pub fn log_info<H: Host>(host: &mut H, text: &str)
    ensures
        final(host).machine() == informed::<H>(old(host).machine(), text@),
{
    host.report(Level::Info, SOURCE, text);
}

/// A warning.
pub open spec fn warned<H: Host>(m: Depot<H>, text: Seq<char>) -> Depot<H> {
    ask_report::<H>(m, Level::Warning, SOURCE@, text)
}

pub fn log_warn<H: Host>(host: &mut H, text: &str)
    ensures
        final(host).machine() == warned::<H>(old(host).machine(), text@),
{
    host.report(Level::Warning, SOURCE, text);
}

pub open spec fn ask_is_file<H: Host>(m: Depot<H>, path: Seq<char>) -> (Depot<H>, bool) {
    let (w, a) = H::reply(m.world, Call::IsFile(path));
    (asked(m, Call::IsFile(path), w), a->Flag_0)
}

pub open spec fn ask_which<H: Host>(m: Depot<H>, program: Seq<char>) -> (Depot<H>, bool) {
    let (w, a) = H::reply(m.world, Call::Which(program));
    (asked(m, Call::Which(program), w), a->Flag_0)
}

pub open spec fn ask_snap_settings<H: Host>(m: Depot<H>) -> (Depot<H>, Option<Seq<char>>) {
    let (w, a) = H::reply(m.world, Call::SnapSettings);
    (asked(m, Call::SnapSettings, w), a->Found_0)
}

pub open spec fn ask_read_config<H: Host>(m: Depot<H>) -> (Depot<H>, Result<(), Seq<char>>) {
    let (w, a) = H::reply(m.world, Call::ReadConfig);
    (asked(m, Call::ReadConfig, w), a->Done_0)
}

pub open spec fn ask_plan_update<H: Host>(m: Depot<H>, state: StateSpec) -> (Depot<H>, Seq<StepSpec>) {
    let (w, a) = H::reply(m.world, Call::PlanUpdate(state));
    (asked(m, Call::PlanUpdate(state), w), a->Steps_0)
}

pub open spec fn ask_plan_upgrade<H: Host>(m: Depot<H>, state: StateSpec) -> (Depot<H>, Result<Seq<StepSpec>, Seq<char>>) {
    let (w, a) = H::reply(m.world, Call::PlanUpgrade(state));
    (asked(m, Call::PlanUpgrade(state), w), a->Upgrade_0)
}

pub open spec fn ask_plan_install<H: Host>(m: Depot<H>, state: StateSpec, packages: Seq<Val>) -> (Depot<H>, Result<InstallSpec, Seq<char>>) {
    let (w, a) = H::reply(m.world, Call::PlanInstall { state, packages });
    (asked(m, Call::PlanInstall { state, packages }, w), a->Install_0)
}

pub open spec fn ask_run_steps<H: Host>(m: Depot<H>, steps: Seq<StepSpec>) -> (Depot<H>, Result<(), Seq<char>>) {
    let (w, a) = H::reply(m.world, Call::Run(steps));
    (asked(m, Call::Run(steps), w), a->Done_0)
}

pub open spec fn ask_reboot<H: Host>(m: Depot<H>) -> (Depot<H>, Result<(), Seq<char>>) {
    let (w, a) = H::reply(m.world, Call::Reboot);
    (asked(m, Call::Reboot, w), a->Done_0)
}

pub open spec fn ask_sleep<H: Host>(m: Depot<H>, seconds: u64) -> Depot<H> {
    asked(m, Call::Sleep(seconds), H::reply(m.world, Call::Sleep(seconds)).0)
}

// ---------------------------------------------------------------------------
// A scripted machine

/// Commands as they are written down.
pub open spec fn step_lines(steps: Seq<StepSpec>) -> Seq<Seq<char>> {
    Seq::new(steps.len(), |i: int| join(steps[i].argv, " "@))
}

fn lines_of(steps: &Vec<Step>) -> (r: Vec<String>)
    ensures
        texts(r@) == step_lines(steps_of(steps@)),
{
    let ghost all = step_lines(steps_of(steps@));
    let mut out: Vec<String> = Vec::new();
    let mut i: usize = 0;
    assert(texts(out@) =~= all.take(0));
    while i < steps.len()
        invariant
            i <= steps@.len(),
            all == step_lines(steps_of(steps@)),
            texts(out@) == all.take(i as int),
        decreases steps.len() - i,
    {
        let ghost before = texts(out@);
        out.push(join_with(&steps[i].argv, " "));
        assert(texts(out@) =~= before.push(all[i as int]));
        i += 1;
        assert(all.take(i as int) =~= all.take(i - 1).push(all[i - 1]));
    }
    assert(all.take(i as int) =~= all);
    out
}

/// A machine whose every answer is set up front, and which writes down what it
/// is asked.
pub struct Fixture {
    /// Paths of files.
    pub files: Vec<String>,
    /// Programs that can be found.
    pub present: Vec<String>,
    /// The settings of the snap system, as they are printed.
    pub snap: Option<String>,
    /// The commands that bring the lists of packages up to date.
    pub update: Vec<Step>,
    /// The commands that bring packages up to date.
    pub upgrade: Vec<Step>,
    /// The commands that install packages.
    pub install: Vec<Step>,
    /// What could not be planned of installing packages.
    pub not_installed: Option<String>,
    /// Calls that fail, by what is written down of them, and the message.
    pub errors: Vec<(String, String)>,
    /// What was asked, in order.
    pub calls: Vec<String>,
    /// The lines of the log, in order.
    pub log: Vec<String>,
    /// The questions themselves.
    pub trace: Ghost<Seq<Call>>,
}

/// The script of a [`Fixture`] and what it wrote down.
pub struct Script {
    pub files: Seq<Seq<char>>,
    pub present: Seq<Seq<char>>,
    pub snap: Option<Seq<char>>,
    pub update: Seq<StepSpec>,
    pub upgrade: Seq<StepSpec>,
    pub install: Seq<StepSpec>,
    pub not_installed: Option<Seq<char>>,
    pub errors: Seq<(Seq<char>, Seq<char>)>,
    pub calls: Seq<Seq<char>>,
    pub log: Seq<Seq<char>>,
}

/// What a [`Fixture`] writes down when it is asked something.
pub open spec fn line(call: Call) -> Option<Seq<char>> {
    match call {
        Call::Report { level, source, text } => None,
        Call::IsFile(path) => Some("is_file "@ + path),
        Call::Which(program) => Some("which "@ + program),
        Call::SnapSettings => Some("snap_settings"@),
        Call::ReadConfig => Some("read_config"@),
        Call::PlanUpdate(state) => Some("plan_update"@),
        Call::PlanUpgrade(state) => Some("plan_upgrade"@),
        Call::PlanInstall { state, packages } => Some("plan_install"@),
        Call::Run(steps) => Some("run "@ + join(step_lines(steps), "; "@)),
        Call::Reboot => Some("reboot"@),
        Call::Sleep(seconds) => Some("sleep "@ + dec(seconds as nat)),
    }
}

/// Whether a call is scripted to fail.
pub open spec fn fails(s: Script, call: Call) -> Result<(), Seq<char>> {
    match line(call) {
        Some(text) => failure(s.errors, text),
        None => Ok(()),
    }
}

/// What a script answers.
pub open spec fn script_answer(s: Script, call: Call) -> Answer {
    match call {
        Call::Report { level, source, text } => Answer::Nothing,
        Call::IsFile(path) => Answer::Flag(s.files.contains(path)),
        Call::Which(program) => Answer::Flag(s.present.contains(program)),
        Call::SnapSettings => Answer::Found(s.snap),
        Call::ReadConfig => Answer::Done(fails(s, call)),
        Call::PlanUpdate(state) => Answer::Steps(s.update),
        Call::PlanUpgrade(state) => Answer::Upgrade(
            match fails(s, call) {
                Ok(()) => Ok(s.upgrade),
                Err(e) => Err(e),
            },
        ),
        Call::PlanInstall { state, packages } => Answer::Install(
            match fails(s, call) {
                Ok(()) => Ok(InstallSpec { steps: s.install, failed: s.not_installed }),
                Err(e) => Err(e),
            },
        ),
        Call::Run(steps) => Answer::Done(fails(s, call)),
        Call::Reboot => Answer::Done(fails(s, call)),
        Call::Sleep(seconds) => Answer::Nothing,
    }
}

/// The script after it was asked.
pub open spec fn script_after(s: Script, call: Call) -> Script {
    match call {
        Call::Report { level, source, text } => Script { log: s.log.push(log_line(level, source, text)), ..s },
        _ => {
            let calls = match line(call) {
                Some(text) => s.calls.push(text),
                None => s.calls,
            };
            Script { calls, ..s }
        },
    }
}

impl Fixture {
    /// The script as it is now.
    pub open spec fn script(&self) -> Script {
        Script {
            files: texts(self.files@),
            present: texts(self.present@),
            snap: opt_text(self.snap),
            update: steps_of(self.update@),
            upgrade: steps_of(self.upgrade@),
            install: steps_of(self.install@),
            not_installed: opt_text(self.not_installed),
            errors: text_table(self.errors@),
            calls: texts(self.calls@),
            log: texts(self.log@),
        }
    }

    fn record(&mut self, call: &str, Ghost(question): Ghost<Call>)
        requires
            line(question) == Some(call@),
        ensures
            final(self).script() == (Script { calls: old(self).script().calls.push(call@), ..old(self).script() }),
            final(self).trace@ == old(self).trace@.push(question),
    {
        broadcast use texts_push;
        self.calls.push(call.to_owned());
        proof {
            self.trace@ = self.trace@.push(question);
        }
    }

    fn note(&mut self, Ghost(question): Ghost<Call>)
        ensures
            final(self).script() == old(self).script(),
            final(self).trace@ == old(self).trace@.push(question),
    {
        proof {
            self.trace@ = self.trace@.push(question);
        }
    }
}

impl Default for Fixture {
    fn default() -> (r: Self)
        ensures
            r.script() == (Script {
                files: Seq::empty(),
                present: Seq::empty(),
                snap: None,
                update: Seq::empty(),
                upgrade: Seq::empty(),
                install: Seq::empty(),
                not_installed: None,
                errors: Seq::empty(),
                calls: Seq::empty(),
                log: Seq::empty(),
            }),
            r.trace@ == Seq::<Call>::empty(),
    {
        let r = Fixture {
            files: Vec::new(),
            present: Vec::new(),
            snap: None,
            update: Vec::new(),
            upgrade: Vec::new(),
            install: Vec::new(),
            not_installed: None,
            errors: Vec::new(),
            calls: Vec::new(),
            log: Vec::new(),
            trace: Ghost(Seq::empty()),
        };
        proof {
            let w = r.script();
            assert(w.files =~= Seq::empty());
            assert(w.present =~= Seq::empty());
            assert(w.update =~= Seq::empty());
            assert(w.upgrade =~= Seq::empty());
            assert(w.install =~= Seq::empty());
            assert(w.errors =~= Seq::empty());
            assert(w.calls =~= Seq::empty());
            assert(w.log =~= Seq::empty());
        }
        r
    }
}

impl Host for Fixture {
    type World = Script;

    open spec fn machine(&self) -> Machine<Call, Script> {
        Machine { calls: self.trace@, world: self.script() }
    }

    open spec fn reply(world: Script, call: Call) -> (Script, Answer) {
        (script_after(world, call), script_answer(world, call))
    }

    fn is_file(&mut self, path: &str) -> (r: bool) {
        let call = cat2("is_file ", path);
        self.record(call.as_str(), Ghost(Call::IsFile(path@)));
        has_text(&self.files, path)
    }

    fn which(&mut self, program: &str) -> (r: bool) {
        let call = cat2("which ", program);
        self.record(call.as_str(), Ghost(Call::Which(program@)));
        has_text(&self.present, program)
    }

    fn snap_settings(&mut self) -> (r: Option<String>) {
        self.record("snap_settings", Ghost(Call::SnapSettings));
        copy_option(&self.snap)
    }

    fn read_config(&mut self) -> (r: Result<(), String>) {
        self.record("read_config", Ghost(Call::ReadConfig));
        fail_as_scripted(&self.errors, "read_config")
    }

    fn plan_update(&mut self, state: &State) -> (r: Vec<Step>) {
        self.record("plan_update", Ghost(Call::PlanUpdate(state@)));
        copy_steps(&self.update)
    }

    fn plan_upgrade(&mut self, state: &State) -> (r: Result<Vec<Step>, String>) {
        self.record("plan_upgrade", Ghost(Call::PlanUpgrade(state@)));
        match fail_as_scripted(&self.errors, "plan_upgrade") {
            Ok(()) => Ok(copy_steps(&self.upgrade)),
            Err(e) => Err(e),
        }
    }

    fn plan_install(&mut self, state: &State, packages: &Vec<Node>) -> (r: Result<InstallPlan, String>) {
        self.record("plan_install", Ghost(Call::PlanInstall { state: state@, packages: vals(packages@) }));
        match fail_as_scripted(&self.errors, "plan_install") {
            Ok(()) => Ok(InstallPlan { steps: copy_steps(&self.install), failed: copy_option(&self.not_installed) }),
            Err(e) => Err(e),
        }
    }

    fn run_steps(&mut self, steps: &Vec<Step>) -> (r: Result<(), String>) {
        let call = cat2("run ", join_with(&lines_of(steps), "; ").as_str());
        self.record(call.as_str(), Ghost(Call::Run(steps_of(steps@))));
        fail_as_scripted(&self.errors, call.as_str())
    }

    fn reboot(&mut self) -> (r: Result<(), String>) {
        self.record("reboot", Ghost(Call::Reboot));
        fail_as_scripted(&self.errors, "reboot")
    }

    fn sleep(&mut self, seconds: u64) {
        self.record(cat2("sleep ", dec_of(seconds as u128).as_str()).as_str(), Ghost(Call::Sleep(seconds)));
    }

    fn report(&mut self, level: Level, source: &str, text: &str) {
        broadcast use texts_push;
        self.log.push(log_line_of(level, source, text));
        proof {
            self.trace@ = self.trace@.push(Call::Report { level, source: source@, text: text@ });
        }
    }
}

}
