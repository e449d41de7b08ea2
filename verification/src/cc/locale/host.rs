//! What setting the locale asks of the machine.

use vstd::prelude::*;

use crate::cc::{fail_as_scripted, failure, unit_result};
use crate::machine::{answers, asked, log_line, log_line_of, text_table, Level, Machine};
use crate::text::{cat2, copy_strings, has_text, join, join_with, opt_text, texts, texts_push};

verus! {

/// One thing to do to set a locale.
#[derive(Debug, Clone, PartialEq, Eq)]
pub enum Step {
    /// Installs packages.
    InstallPackages { packages: Vec<String> },
    /// Makes a locale.
    LocaleGen { locale: String },
    /// Sets the locale.
    UpdateLocale { argv: Vec<String> },
}

pub enum StepSpec {
    InstallPackages { packages: Seq<Seq<char>> },
    LocaleGen { locale: Seq<char> },
    UpdateLocale { argv: Seq<Seq<char>> },
}

impl View for Step {
    type V = StepSpec;

    open spec fn view(&self) -> StepSpec {
        match self {
            Step::InstallPackages { packages } => StepSpec::InstallPackages { packages: texts(packages@) },
            Step::LocaleGen { locale } => StepSpec::LocaleGen { locale: locale@ },
            Step::UpdateLocale { argv } => StepSpec::UpdateLocale { argv: texts(argv@) },
        }
    }
}

pub open spec fn steps_of(steps: Seq<Step>) -> Seq<StepSpec> {
    Seq::new(steps.len(), |i: int| steps[i]@)
}

pub open spec fn steps_result(r: Result<Vec<Step>, String>) -> Result<Seq<StepSpec>, Seq<char>> {
    match r {
        Ok(v) => Ok(steps_of(v@)),
        Err(e) => Err(e@),
    }
}

/// What is known of the machine before it is decided how to set a locale.
#[derive(Debug, Clone, PartialEq, Eq)]
pub struct State {
    /// The locale that the system is set to, if it is set to one.
    pub system_locale: Option<String>,
    /// Whether the file that says so exists.
    pub conf_fn_exists: bool,
    pub has_locale_gen: bool,
    pub has_update_locale: bool,
}

pub struct StateSpec {
    pub system_locale: Option<Seq<char>>,
    pub conf_fn_exists: bool,
    pub has_locale_gen: bool,
    pub has_update_locale: bool,
}

impl View for State {
    type V = StateSpec;

    open spec fn view(&self) -> StateSpec {
        StateSpec {
            system_locale: opt_text(self.system_locale),
            conf_fn_exists: self.conf_fn_exists,
            has_locale_gen: self.has_locale_gen,
            has_update_locale: self.has_update_locale,
        }
    }
}

pub open spec fn locale_result(r: Result<Option<String>, String>) -> Result<Option<Seq<char>>, Seq<char>> {
    match r {
        Ok(o) => Ok(opt_text(o)),
        Err(e) => Err(e@),
    }
}

/// A question to the machine.
pub enum Call {
    SystemLocale,
    DistroLocale(Option<Seq<char>>),
    Exists(Seq<char>),
    Which(Seq<char>),
    Plan { locale: Seq<char>, out_fn: Option<Seq<char>>, state: StateSpec },
    Subp(Seq<Seq<char>>),
    Report { level: Level, source: Seq<char>, text: Seq<char> },
}

/// The machine's answer to a question.
pub enum Answer {
    Current(Result<Option<Seq<char>>, Seq<char>>),
    Found(Option<Seq<char>>),
    Flag(bool),
    Steps(Result<Seq<StepSpec>, Seq<char>>),
    Done(Result<(), Seq<char>>),
    Nothing,
}

/// Everything that setting the locale asks of the machine.
///
/// A machine is a state and a rule: [`Host::reply`] gives, for a state and a
/// call, the next state and the answer.
pub trait Host: Sized {
    type World;

    spec fn machine(&self) -> Machine<Call, Self::World>;

    spec fn reply(world: Self::World, call: Call) -> (Self::World, Answer);

    /// The locale that the system is set to, if it is set to one.
    fn system_locale(&mut self) -> (r: Result<Option<String>, String>)
        ensures
            answers(
                old(self).machine(),
                Call::SystemLocale,
                Self::reply(old(self).machine().world, Call::SystemLocale),
                final(self).machine(),
                Answer::Current(locale_result(r)),
            ),
    ;

    /// The locale of the distribution, given what the system is set to; nothing where it cannot say.
    fn distro_locale(&mut self, system: &Option<String>) -> (r: Option<String>)
        ensures
            answers(
                old(self).machine(),
                Call::DistroLocale(opt_text(*system)),
                Self::reply(old(self).machine().world, Call::DistroLocale(opt_text(*system))),
                final(self).machine(),
                Answer::Found(opt_text(r)),
            ),
    ;

    /// Whether a path exists.
    fn path_exists(&mut self, path: &str) -> (r: bool)
        ensures
            answers(
                old(self).machine(),
                Call::Exists(path@),
                Self::reply(old(self).machine().world, Call::Exists(path@)),
                final(self).machine(),
                Answer::Flag(r),
            ),
    ;

    /// Whether a program can be found.
    fn which(&mut self, program: &str) -> (r: bool)
        ensures
            answers(
                old(self).machine(),
                Call::Which(program@),
                Self::reply(old(self).machine().world, Call::Which(program@)),
                final(self).machine(),
                Answer::Flag(r),
            ),
    ;

    /// What the distribution does to set a locale.
    fn plan(&mut self, locale: &str, out_fn: &Option<String>, state: &State) -> (r: Result<Vec<Step>, String>)
        ensures
            answers(
                old(self).machine(),
                Call::Plan { locale: locale@, out_fn: opt_text(*out_fn), state: state@ },
                Self::reply(old(self).machine().world, Call::Plan { locale: locale@, out_fn: opt_text(*out_fn), state: state@ }),
                final(self).machine(),
                Answer::Steps(steps_result(r)),
            ),
    ;

    /// Runs a command.
    fn subp(&mut self, argv: &Vec<String>) -> (r: Result<(), String>)
        ensures
            answers(
                old(self).machine(),
                Call::Subp(texts(argv@)),
                Self::reply(old(self).machine().world, Call::Subp(texts(argv@))),
                final(self).machine(),
                Answer::Done(unit_result(r)),
            ),
    ;

    /// Writes a line to the log, under the name of what it comes from.
    fn report(&mut self, level: Level, source: &str, text: &str)
        ensures
            final(self).machine() == asked(
                old(self).machine(),
                Call::Report { level, source: source@, text: text@ },
                Self::reply(old(self).machine().world, Call::Report { level, source: source@, text: text@ }).0,
            ),
    ;
}

/// A machine that the module works on.
pub type Place<H> = Machine<Call, <H as Host>::World>;

pub open spec fn ask_report<H: Host>(m: Place<H>, level: Level, source: Seq<char>, text: Seq<char>) -> Place<H> {
    let call = Call::Report { level, source, text };
    asked(m, call, H::reply(m.world, call).0)
}

/// The name under which the module writes to the log.
pub const SOURCE: &'static str = "cc_locale.py";

/// A line that only helps to follow what happens.
pub open spec fn logged<H: Host>(m: Place<H>, text: Seq<char>) -> Place<H> {
    ask_report::<H>(m, Level::Debug, SOURCE@, text)
}

pub fn log_debug<H: Host>(host: &mut H, text: &str)
    ensures
        final(host).machine() == logged::<H>(old(host).machine(), text@),
{
    host.report(Level::Debug, SOURCE, text);
}

pub open spec fn ask_system_locale<H: Host>(m: Place<H>) -> (Place<H>, Result<Option<Seq<char>>, Seq<char>>) {
    let (w, a) = H::reply(m.world, Call::SystemLocale);
    (asked(m, Call::SystemLocale, w), a->Current_0)
}

pub open spec fn ask_distro_locale<H: Host>(m: Place<H>, system: Option<Seq<char>>) -> (Place<H>, Option<Seq<char>>) {
    let (w, a) = H::reply(m.world, Call::DistroLocale(system));
    (asked(m, Call::DistroLocale(system), w), a->Found_0)
}

pub open spec fn ask_path_exists<H: Host>(m: Place<H>, path: Seq<char>) -> (Place<H>, bool) {
    let (w, a) = H::reply(m.world, Call::Exists(path));
    (asked(m, Call::Exists(path), w), a->Flag_0)
}

pub open spec fn ask_which<H: Host>(m: Place<H>, program: Seq<char>) -> (Place<H>, bool) {
    let (w, a) = H::reply(m.world, Call::Which(program));
    (asked(m, Call::Which(program), w), a->Flag_0)
}

pub open spec fn ask_plan<H: Host>(m: Place<H>, locale: Seq<char>, out_fn: Option<Seq<char>>, state: StateSpec) -> (Place<H>, Result<Seq<StepSpec>, Seq<char>>) {
    let (w, a) = H::reply(m.world, Call::Plan { locale, out_fn, state });
    (asked(m, Call::Plan { locale, out_fn, state }, w), a->Steps_0)
}

pub open spec fn ask_subp<H: Host>(m: Place<H>, argv: Seq<Seq<char>>) -> (Place<H>, Result<(), Seq<char>>) {
    let (w, a) = H::reply(m.world, Call::Subp(argv));
    (asked(m, Call::Subp(argv), w), a->Done_0)
}

// ---------------------------------------------------------------------------
// A scripted machine

/// A copy of what is done to set a locale.
fn copy_steps(steps: &Vec<Step>) -> (r: Vec<Step>)
    ensures
        steps_of(r@) == steps_of(steps@),
{
    let ghost all = steps_of(steps@);
    let mut out: Vec<Step> = Vec::new();
    let mut i: usize = 0;
    assert(steps_of(out@) =~= all.take(0));
    while i < steps.len()
        invariant
            i <= steps@.len(),
            all == steps_of(steps@),
            steps_of(out@) == all.take(i as int),
        decreases steps.len() - i,
    {
        let ghost before = steps_of(out@);
        let step = match &steps[i] {
            Step::InstallPackages { packages } => Step::InstallPackages { packages: copy_strings(packages) },
            Step::LocaleGen { locale } => Step::LocaleGen { locale: locale.clone() },
            Step::UpdateLocale { argv } => Step::UpdateLocale { argv: copy_strings(argv) },
        };
        assert(step@ == all[i as int]);
        out.push(step);
        assert(steps_of(out@) =~= before.push(all[i as int]));
        i += 1;
        assert(all.take(i as int) =~= all.take(i - 1).push(all[i - 1]));
    }
    assert(all.take(i as int) =~= all);
    out
}

fn copy_option(o: &Option<String>) -> (r: Option<String>)
    ensures
        opt_text(r) == opt_text(*o),
{
    match o {
        Some(s) => Some(s.clone()),
        None => None,
    }
}

/// A machine whose every answer is set up front, and which writes down what it
/// is asked.
pub struct Fixture {
    /// The locale that the system is set to.
    pub system: Option<String>,
    /// The locale of the distribution.
    pub distro: Option<String>,
    /// Paths that exist.
    pub paths: Vec<String>,
    /// Programs that can be found.
    pub present: Vec<String>,
    /// What the distribution does to set a locale.
    pub steps: Vec<Step>,
    /// Calls that fail, by what is written down of them, and the message.
    pub errors: Vec<(String, String)>,
    /// What was asked, in order.
    pub calls: Vec<String>,
    /// The lines of the log, in order.
    pub log: Vec<String>,
    /// The questions themselves.
    pub trace: Ghost<Seq<Call>>,
}

/// The script of a [`Fixture`] and what it wrote down.
pub struct Script {
    pub system: Option<Seq<char>>,
    pub distro: Option<Seq<char>>,
    pub paths: Seq<Seq<char>>,
    pub present: Seq<Seq<char>>,
    pub steps: Seq<StepSpec>,
    pub errors: Seq<(Seq<char>, Seq<char>)>,
    pub calls: Seq<Seq<char>>,
    pub log: Seq<Seq<char>>,
}

/// What a [`Fixture`] writes down when it is asked something.
pub open spec fn line(call: Call) -> Option<Seq<char>> {
    match call {
        Call::Report { level, source, text } => None,
        Call::SystemLocale => Some("system_locale"@),
        Call::DistroLocale(system) => Some("distro_locale"@),
        Call::Exists(path) => Some("exists "@ + path),
        Call::Which(program) => Some("which "@ + program),
        Call::Plan { locale, out_fn, state } => Some("plan "@ + locale),
        Call::Subp(argv) => Some("subp "@ + join(argv, " "@)),
    }
}

/// Whether a call is scripted to fail.
pub open spec fn fails(s: Script, call: Call) -> Result<(), Seq<char>> {
    match line(call) {
        Some(text) => failure(s.errors, text),
        None => Ok(()),
    }
}

/// What a script answers.
pub open spec fn script_answer(s: Script, call: Call) -> Answer {
    match call {
        Call::Report { level, source, text } => Answer::Nothing,
        Call::SystemLocale => Answer::Current(
            match fails(s, call) {
                Ok(()) => Ok(s.system),
                Err(e) => Err(e),
            },
        ),
        Call::DistroLocale(system) => Answer::Found(s.distro),
        Call::Exists(path) => Answer::Flag(s.paths.contains(path)),
        Call::Which(program) => Answer::Flag(s.present.contains(program)),
        Call::Plan { locale, out_fn, state } => Answer::Steps(
            match fails(s, call) {
                Ok(()) => Ok(s.steps),
                Err(e) => Err(e),
            },
        ),
        Call::Subp(argv) => Answer::Done(fails(s, call)),
    }
}

/// The script after it was asked.
pub open spec fn script_after(s: Script, call: Call) -> Script {
    match call {
        Call::Report { level, source, text } => Script { log: s.log.push(log_line(level, source, text)), ..s },
        _ => {
            let calls = match line(call) {
                Some(text) => s.calls.push(text),
                None => s.calls,
            };
            Script { calls, ..s }
        },
    }
}

impl Fixture {
    /// The script as it is now.
    pub open spec fn script(&self) -> Script {
        Script {
            system: opt_text(self.system),
            distro: opt_text(self.distro),
            paths: texts(self.paths@),
            present: texts(self.present@),
            steps: steps_of(self.steps@),
            errors: text_table(self.errors@),
            calls: texts(self.calls@),
            log: texts(self.log@),
        }
    }

    fn record(&mut self, call: &str, Ghost(question): Ghost<Call>)
        requires
            line(question) == Some(call@),
        ensures
            final(self).script() == (Script { calls: old(self).script().calls.push(call@), ..old(self).script() }),
            final(self).trace@ == old(self).trace@.push(question),
    {
        broadcast use texts_push;
        self.calls.push(call.to_owned());
        proof {
            self.trace@ = self.trace@.push(question);
        }
    }

    fn note(&mut self, Ghost(question): Ghost<Call>)
        ensures
            final(self).script() == old(self).script(),
            final(self).trace@ == old(self).trace@.push(question),
    {
        proof {
            self.trace@ = self.trace@.push(question);
        }
    }
}

impl Default for Fixture {
    fn default() -> (r: Self)
        ensures
            r.script() == (Script {
                system: None,
                distro: None,
                paths: Seq::empty(),
                present: Seq::empty(),
                steps: Seq::empty(),
                errors: Seq::empty(),
                calls: Seq::empty(),
                log: Seq::empty(),
            }),
            r.trace@ == Seq::<Call>::empty(),
    {
        let r = Fixture {
            system: None,
            distro: None,
            paths: Vec::new(),
            present: Vec::new(),
            steps: Vec::new(),
            errors: Vec::new(),
            calls: Vec::new(),
            log: Vec::new(),
            trace: Ghost(Seq::empty()),
        };
        proof {
            let w = r.script();
            assert(w.paths =~= Seq::empty());
            assert(w.present =~= Seq::empty());
            assert(w.steps =~= Seq::empty());
            assert(w.errors =~= Seq::empty());
            assert(w.calls =~= Seq::empty());
            assert(w.log =~= Seq::empty());
        }
        r
    }
}

impl Host for Fixture {
    type World = Script;

    open spec fn machine(&self) -> Machine<Call, Script> {
        Machine { calls: self.trace@, world: self.script() }
    }

    open spec fn reply(world: Script, call: Call) -> (Script, Answer) {
        (script_after(world, call), script_answer(world, call))
    }

    fn system_locale(&mut self) -> (r: Result<Option<String>, String>) {
        self.record("system_locale", Ghost(Call::SystemLocale));
        match fail_as_scripted(&self.errors, "system_locale") {
            Ok(()) => Ok(copy_option(&self.system)),
            Err(e) => Err(e),
        }
    }

    fn distro_locale(&mut self, system: &Option<String>) -> (r: Option<String>) {
        self.record("distro_locale", Ghost(Call::DistroLocale(opt_text(*system))));
        copy_option(&self.distro)
    }

    fn path_exists(&mut self, path: &str) -> (r: bool) {
        self.record(cat2("exists ", path).as_str(), Ghost(Call::Exists(path@)));
        has_text(&self.paths, path)
    }

    fn which(&mut self, program: &str) -> (r: bool) {
        self.record(cat2("which ", program).as_str(), Ghost(Call::Which(program@)));
        has_text(&self.present, program)
    }

    fn plan(&mut self, locale: &str, out_fn: &Option<String>, state: &State) -> (r: Result<Vec<Step>, String>) {
        let call = cat2("plan ", locale);
        self.record(call.as_str(), Ghost(Call::Plan { locale: locale@, out_fn: opt_text(*out_fn), state: state@ }));
        match fail_as_scripted(&self.errors, call.as_str()) {
            Ok(()) => Ok(copy_steps(&self.steps)),
            Err(e) => Err(e),
        }
    }

    fn subp(&mut self, argv: &Vec<String>) -> (r: Result<(), String>) {
        let call = cat2("subp ", join_with(argv, " ").as_str());
        self.record(call.as_str(), Ghost(Call::Subp(texts(argv@))));
        fail_as_scripted(&self.errors, call.as_str())
    }

    fn report(&mut self, level: Level, source: &str, text: &str) {
        broadcast use texts_push;
        self.log.push(log_line_of(level, source, text));
        proof {
            self.trace@ = self.trace@.push(Call::Report { level, source: source@, text: text@ });
        }
    }
}

}
