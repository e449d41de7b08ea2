//! What the last message of a boot asks of the machine.

use vstd::prelude::*;

use crate::machine::{answers, asked, lookup, lookup_text, text_table, Machine};
use crate::text::{cat2, has_text, texts, texts_push};
use crate::value::{Object, Val};

verus! {

/// Why a template has no text.
#[derive(Debug, Clone, PartialEq, Eq)]
pub enum RenderError {
    /// It cannot be read.
    Syntax(String),
    /// It cannot be filled in.
    Other,
}

pub enum RenderFailure {
    Syntax(Seq<char>),
    Other,
}

impl View for RenderError {
    type V = RenderFailure;

    open spec fn view(&self) -> RenderFailure {
        match self {
            RenderError::Syntax(e) => RenderFailure::Syntax(e@),
            RenderError::Other => RenderFailure::Other,
        }
    }
}

pub open spec fn rendered(r: Result<String, RenderError>) -> Result<Seq<char>, RenderFailure> {
    match r {
        Ok(s) => Ok(s@),
        Err(e) => Err(e@),
    }
}

/// A question to the machine.
pub enum Call {
    Uptime,
    Timestamp,
    Version,
    Render { template: Seq<char>, names: Seq<(Seq<char>, Val)> },
    Message(Seq<char>),
    WriteFile { path: Seq<char>, content: Seq<char> },
    Warning(Seq<char>),
}

/// The machine's answer to a question.
pub enum Answer {
    Nothing,
    Text(Seq<char>),
    Rendered(Result<Seq<char>, RenderFailure>),
    Flag(bool),
}

/// Everything that the last message of a boot asks of the machine.
///
/// A machine is a state and a rule: [`Host::reply`] gives, for a state and a
/// call, the next state and the answer.
pub trait Host: Sized {
    type World;

    spec fn machine(&self) -> Machine<Call, Self::World>;

    spec fn reply(world: Self::World, call: Call) -> (Self::World, Answer);

    /// For how long the machine is up.
    fn uptime(&mut self) -> (r: String)
        ensures
            answers(
                old(self).machine(),
                Call::Uptime,
                Self::reply(old(self).machine().world, Call::Uptime),
                final(self).machine(),
                Answer::Text(r@),
            ),
    ;

    /// What time it is.
    fn timestamp(&mut self) -> (r: String)
        ensures
            answers(
                old(self).machine(),
                Call::Timestamp,
                Self::reply(old(self).machine().world, Call::Timestamp),
                final(self).machine(),
                Answer::Text(r@),
            ),
    ;

    /// The version of this program.
    fn version(&mut self) -> (r: String)
        ensures
            answers(
                old(self).machine(),
                Call::Version,
                Self::reply(old(self).machine().world, Call::Version),
                final(self).machine(),
                Answer::Text(r@),
            ),
    ;

    /// A template with its names filled in.
    fn render(&mut self, template: &str, names: &Object) -> (r: Result<String, RenderError>)
        ensures
            answers(
                old(self).machine(),
                Call::Render { template: template@, names: names@ },
                Self::reply(old(self).machine().world, Call::Render { template: template@, names: names@ }),
                final(self).machine(),
                Answer::Rendered(rendered(r)),
            ),
    ;

    /// Shows a message to whoever looks at the console.
    fn message(&mut self, text: &str)
        ensures
            answers(
                old(self).machine(),
                Call::Message(text@),
                Self::reply(old(self).machine().world, Call::Message(text@)),
                final(self).machine(),
                Answer::Nothing,
            ),
    ;

    /// Writes a file in a directory that is there.
    fn write_file(&mut self, path: &str, content: &str) -> (r: bool)
        ensures
            answers(
                old(self).machine(),
                Call::WriteFile { path: path@, content: content@ },
                Self::reply(old(self).machine().world, Call::WriteFile { path: path@, content: content@ }),
                final(self).machine(),
                Answer::Flag(r),
            ),
    ;

    /// Warns of something.
    fn warning(&mut self, text: &str)
        ensures
            answers(
                old(self).machine(),
                Call::Warning(text@),
                Self::reply(old(self).machine().world, Call::Warning(text@)),
                final(self).machine(),
                Answer::Nothing,
            ),
    ;
}

/// A machine that the module works on.
pub type Console<H> = Machine<Call, <H as Host>::World>;

pub open spec fn ask_uptime<H: Host>(m: Console<H>) -> (Console<H>, Seq<char>) {
    let (w, a) = H::reply(m.world, Call::Uptime);
    (asked(m, Call::Uptime, w), a->Text_0)
}

pub open spec fn ask_timestamp<H: Host>(m: Console<H>) -> (Console<H>, Seq<char>) {
    let (w, a) = H::reply(m.world, Call::Timestamp);
    (asked(m, Call::Timestamp, w), a->Text_0)
}

pub open spec fn ask_version<H: Host>(m: Console<H>) -> (Console<H>, Seq<char>) {
    let (w, a) = H::reply(m.world, Call::Version);
    (asked(m, Call::Version, w), a->Text_0)
}

pub open spec fn ask_render<H: Host>(m: Console<H>, template: Seq<char>, names: Seq<(Seq<char>, Val)>) -> (Console<H>, Result<Seq<char>, RenderFailure>) {
    let (w, a) = H::reply(m.world, Call::Render { template, names });
    (asked(m, Call::Render { template, names }, w), a->Rendered_0)
}

pub open spec fn ask_message<H: Host>(m: Console<H>, text: Seq<char>) -> Console<H> {
    asked(m, Call::Message(text), H::reply(m.world, Call::Message(text)).0)
}

pub open spec fn ask_write_file<H: Host>(m: Console<H>, path: Seq<char>, content: Seq<char>) -> (Console<H>, bool) {
    let (w, a) = H::reply(m.world, Call::WriteFile { path, content });
    (asked(m, Call::WriteFile { path, content }, w), a->Flag_0)
}

pub open spec fn ask_warning<H: Host>(m: Console<H>, text: Seq<char>) -> Console<H> {
    asked(m, Call::Warning(text), H::reply(m.world, Call::Warning(text)).0)
}

// ---------------------------------------------------------------------------
// A scripted machine

/// A machine whose every answer is set up front, and which writes down what it
/// is asked.
pub struct Fixture {
    /// For how long the machine is up.
    pub up: String,
    /// What time it is.
    pub now: String,
    /// The version of this program.
    pub release: String,
    /// Texts of templates.
    pub rendered: Vec<(String, String)>,
    /// Templates that cannot be read, and the message.
    pub broken: Vec<(String, String)>,
    /// Files that cannot be written.
    pub unwritable: Vec<String>,
    /// What was asked, in order.
    pub calls: Vec<String>,
    /// What was shown, in order.
    pub messages: Vec<String>,
    /// What was warned of, in order.
    pub warnings: Vec<String>,
    /// What was written, in order.
    pub written: Vec<(String, String)>,
    /// The questions themselves.
    pub trace: Ghost<Seq<Call>>,
}

/// The script of a [`Fixture`] and what it wrote down.
pub struct Script {
    pub up: Seq<char>,
    pub now: Seq<char>,
    pub release: Seq<char>,
    pub rendered: Seq<(Seq<char>, Seq<char>)>,
    pub broken: Seq<(Seq<char>, Seq<char>)>,
    pub unwritable: Seq<Seq<char>>,
    pub calls: Seq<Seq<char>>,
    pub messages: Seq<Seq<char>>,
    pub warnings: Seq<Seq<char>>,
    pub written: Seq<(Seq<char>, Seq<char>)>,
}

/// What a [`Fixture`] writes down when it is asked something.
pub open spec fn line(call: Call) -> Option<Seq<char>> {
    match call {
        Call::Uptime => Some("uptime"@),
        Call::Timestamp => Some("timestamp"@),
        Call::Version => Some("version"@),
        Call::Render { template, names } => Some("render"@),
        Call::Message(text) => Some("message"@),
        Call::WriteFile { path, content } => Some("write_file "@ + path),
        Call::Warning(text) => Some("warning"@),
    }
}

/// What a script answers.
pub open spec fn script_answer(s: Script, call: Call) -> Answer {
    match call {
        Call::Uptime => Answer::Text(s.up),
        Call::Timestamp => Answer::Text(s.now),
        Call::Version => Answer::Text(s.release),
        Call::Render { template, names } => Answer::Rendered(
            match lookup(s.broken, template) {
                Some(e) => Err(RenderFailure::Syntax(e)),
                None => match lookup(s.rendered, template) {
                    Some(text) => Ok(text),
                    None => Err(RenderFailure::Other),
                },
            },
        ),
        Call::Message(text) => Answer::Nothing,
        Call::WriteFile { path, content } => Answer::Flag(!s.unwritable.contains(path)),
        Call::Warning(text) => Answer::Nothing,
    }
}

/// The script after it was asked.
pub open spec fn script_after(s: Script, call: Call) -> Script {
    let calls = match line(call) {
        Some(text) => s.calls.push(text),
        None => s.calls,
    };
    let next = Script { calls, ..s };
    match call {
        Call::Message(text) => Script { messages: s.messages.push(text), ..next },
        Call::WriteFile { path, content } => Script { written: s.written.push((path, content)), ..next },
        Call::Warning(text) => Script { warnings: s.warnings.push(text), ..next },
        _ => next,
    }
}

impl Fixture {
    /// The script as it is now.
    pub open spec fn script(&self) -> Script {
        Script {
            up: self.up@,
            now: self.now@,
            release: self.release@,
            rendered: text_table(self.rendered@),
            broken: text_table(self.broken@),
            unwritable: texts(self.unwritable@),
            calls: texts(self.calls@),
            messages: texts(self.messages@),
            warnings: texts(self.warnings@),
            written: text_table(self.written@),
        }
    }

    fn record(&mut self, call: &str, Ghost(question): Ghost<Call>)
        requires
            line(question) == Some(call@),
        ensures
            final(self).script() == (Script { calls: old(self).script().calls.push(call@), ..old(self).script() }),
            final(self).trace@ == old(self).trace@.push(question),
    {
        broadcast use texts_push;
        self.calls.push(call.to_owned());
        proof {
            self.trace@ = self.trace@.push(question);
        }
    }

    fn note(&mut self, Ghost(question): Ghost<Call>)
        ensures
            final(self).script() == old(self).script(),
            final(self).trace@ == old(self).trace@.push(question),
    {
        proof {
            self.trace@ = self.trace@.push(question);
        }
    }
}

impl Default for Fixture {
    fn default() -> (r: Self)
        ensures
            r.script() == (Script {
                up: Seq::empty(),
                now: Seq::empty(),
                release: Seq::empty(),
                rendered: Seq::empty(),
                broken: Seq::empty(),
                unwritable: Seq::empty(),
                calls: Seq::empty(),
                messages: Seq::empty(),
                warnings: Seq::empty(),
                written: Seq::empty(),
            }),
            r.trace@ == Seq::<Call>::empty(),
    {
        let r = Fixture {
            up: String::new(),
            now: String::new(),
            release: String::new(),
            rendered: Vec::new(),
            broken: Vec::new(),
            unwritable: Vec::new(),
            calls: Vec::new(),
            messages: Vec::new(),
            warnings: Vec::new(),
            written: Vec::new(),
            trace: Ghost(Seq::empty()),
        };
        proof {
            let w = r.script();
            assert(w.up =~= Seq::empty());
            assert(w.now =~= Seq::empty());
            assert(w.release =~= Seq::empty());
            assert(w.rendered =~= Seq::empty());
            assert(w.broken =~= Seq::empty());
            assert(w.unwritable =~= Seq::empty());
            assert(w.calls =~= Seq::empty());
            assert(w.messages =~= Seq::empty());
            assert(w.warnings =~= Seq::empty());
            assert(w.written =~= Seq::empty());
        }
        r
    }
}

impl Host for Fixture {
    type World = Script;

    open spec fn machine(&self) -> Machine<Call, Script> {
        Machine { calls: self.trace@, world: self.script() }
    }

    open spec fn reply(world: Script, call: Call) -> (Script, Answer) {
        (script_after(world, call), script_answer(world, call))
    }

    fn uptime(&mut self) -> (r: String) {
        self.record("uptime", Ghost(Call::Uptime));
        self.up.clone()
    }

    fn timestamp(&mut self) -> (r: String) {
        self.record("timestamp", Ghost(Call::Timestamp));
        self.now.clone()
    }

    fn version(&mut self) -> (r: String) {
        self.record("version", Ghost(Call::Version));
        self.release.clone()
    }

    fn render(&mut self, template: &str, names: &Object) -> (r: Result<String, RenderError>) {
        self.record("render", Ghost(Call::Render { template: template@, names: names@ }));
        match lookup_text(&self.broken, template) {
            Some(e) => Err(RenderError::Syntax(e)),
            None => match lookup_text(&self.rendered, template) {
                Some(text) => Ok(text),
                None => Err(RenderError::Other),
            },
        }
    }

    fn message(&mut self, text: &str) {
        broadcast use texts_push;
        self.record("message", Ghost(Call::Message(text@)));
        self.messages.push(text.to_owned());
    }

    fn write_file(&mut self, path: &str, content: &str) -> (r: bool) {
        self.record(cat2("write_file ", path).as_str(), Ghost(Call::WriteFile { path: path@, content: content@ }));
        let ghost before = self.script().written;
        self.written.push((path.to_owned(), content.to_owned()));
        assert(self.script().written =~= before.push((path@, content@)));
        !has_text(&self.unwritable, path)
    }

    fn warning(&mut self, text: &str) {
        broadcast use texts_push;
        self.record("warning", Ghost(Call::Warning(text@)));
        self.warnings.push(text.to_owned());
    }
}

}
