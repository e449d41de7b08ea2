//! The last message of a boot, and the file that says that it is over.

use vstd::prelude::*;

use crate::cc::final_message::host::{
    ask_message, ask_render, ask_timestamp, ask_uptime, ask_version, ask_warning, ask_write_file, Call, Console,
    RenderFailure,
};
use crate::cc::unit_result;
use crate::show::{py_str, show, shown_at};
use crate::space::{trim, trim_of, Class};
use crate::text::{cat2, cat6, same};
use crate::value::{get, put, vals, Node, Object, Val};

pub mod host;
pub mod laws;

pub use crate::cc::final_message::host::{Fixture, Host, RenderError};

verus! {

/// The message where none is configured.
pub const FINAL_MESSAGE_DEF: &'static str = "## template: jinja\nCloud-init v. {{version}} finished at {{timestamp}}. Datasource {{datasource}}.  Up {{uptime}} seconds";

/// Where the machine's data came from.
pub struct Datasource {
    /// The full name of the kind of source.
    pub class_name: String,
    /// Its short name.
    pub dsname: String,
    /// The configuration of the system alone.
    pub sys_cfg: Object,
}

pub struct DatasourceSpec {
    pub class_name: Seq<char>,
    pub dsname: Seq<char>,
    pub sys_cfg: Seq<(Seq<char>, Val)>,
}

impl View for Datasource {
    type V = DatasourceSpec;

    open spec fn view(&self) -> DatasourceSpec {
        DatasourceSpec { class_name: self.class_name@, dsname: self.dsname@, sys_cfg: self.sys_cfg@ }
    }
}

pub open spec fn source_of(o: Option<Datasource>) -> Option<DatasourceSpec> {
    match o {
        Some(ds) => Some(ds@),
        None => None,
    }
}

/// What is configured as the message: the first argument, else what is under the
/// key, else nothing.
pub open spec fn configured(args: Val, cfg: Seq<(Seq<char>, Val)>) -> Seq<char> {
    let under_key = match shown_at(cfg, "final_message"@) {
        Some(s) => s,
        None => ""@,
    };
    match args {
        Val::Array(items) => if items.len() > 0 {
            show(items[0])
        } else {
            under_key
        },
        _ => under_key,
    }
}

/// The template of the message: what is configured, unless it is white space.
pub open spec fn template_for(args: Val, cfg: Seq<(Seq<char>, Val)>) -> Seq<char> {
    let trimmed = trim(Class::TextSpace, configured(args, cfg));
    if trimmed.len() == 0 {
        FINAL_MESSAGE_DEF@
    } else {
        trimmed
    }
}

/// The template of the message.
pub fn template(args: &Node, cfg: &Object) -> (r: String)
    ensures
        r@ == template_for(args@, cfg@),
{
    let mut text = match cfg.get("final_message") {
        Some(v) => py_str(v),
        None => "".to_owned(),
    };
    if let Node::Array(items) = args {
        assert(vals(items@).len() == items@.len());
        if items.len() > 0 {
            assert(vals(items@)[0] == items@[0]@);
            text = py_str(&items[0]);
        }
    }
    let trimmed = trim_of(Class::TextSpace, text.as_str());
    if trimmed.as_str().is_empty() {
        FINAL_MESSAGE_DEF.to_owned()
    } else {
        trimmed
    }
}

/// A name under both its spellings.
pub open spec fn with_name(m: Seq<(Seq<char>, Val)>, lower: Seq<char>, upper: Seq<char>, value: Seq<char>) -> Seq<
    (Seq<char>, Val),
> {
    put(put(m, lower, Val::Text(value)), upper, Val::Text(value))
}

/// What the names in a template stand for.
pub open spec fn names(uptime: Seq<char>, timestamp: Seq<char>, version: Seq<char>, datasource: Seq<char>) -> Seq<
    (Seq<char>, Val),
> {
    with_name(
        with_name(
            with_name(
                with_name(Seq::empty(), "uptime"@, "UPTIME"@, uptime),
                "timestamp"@,
                "TIMESTAMP"@,
                timestamp,
            ),
            "version"@,
            "VERSION"@,
            version,
        ),
        "datasource"@,
        "DATASOURCE"@,
        datasource,
    )
}

/// What the names in a template stand for.
pub fn substitutions(uptime: &str, timestamp: &str, version: &str, datasource: &str) -> (r: Object)
    ensures
        r@ == names(uptime@, timestamp@, version@, datasource@),
{
    let mut m = Object::new();
    m.insert("uptime", Node::text(uptime));
    m.insert("UPTIME", Node::text(uptime));
    m.insert("timestamp", Node::text(timestamp));
    m.insert("TIMESTAMP", Node::text(timestamp));
    m.insert("version", Node::text(version));
    m.insert("VERSION", Node::text(version));
    m.insert("datasource", Node::text(datasource));
    m.insert("DATASOURCE", Node::text(datasource));
    m
}

/// Shows the message. A template that has no text is warned of.
pub open spec fn shown<H: Host>(m: Console<H>, template: Seq<char>, names: Seq<(Seq<char>, Val)>) -> Console<H> {
    let (m1, text) = ask_render::<H>(m, template, names);
    match text {
        Ok(text) => ask_message::<H>(m1, text),
        Err(RenderFailure::Syntax(e)) => ask_warning::<H>(m1, "Failed to render templated final message: "@ + e),
        Err(RenderFailure::Other) => ask_warning::<H>(m1, "Failed to render final message template"@),
    }
}

fn show_message<H: Host>(template: &str, names: &Object, host: &mut H)
    ensures
        final(host).machine() == shown::<H>(old(host).machine(), template@, names@),
{
    match host.render(template, names) {
        Ok(text) => host.message(text.as_str()),
        Err(RenderError::Syntax(e)) => host.warning(
            cat2("Failed to render templated final message: ", e.as_str()).as_str(),
        ),
        Err(RenderError::Other) => host.warning("Failed to render final message template"),
    }
}

/// What the file holds that says that the boot is over.
pub open spec fn finished_text(uptime: Seq<char>, timestamp: Seq<char>, version: Seq<char>) -> Seq<char> {
    uptime + " - "@ + timestamp + " - v. "@ + version + "\n"@
}

/// Writes the file that says that the boot is over; that it cannot be written is
/// warned of.
pub open spec fn finished<H: Host>(m: Console<H>, path: Seq<char>, text: Seq<char>) -> Console<H> {
    let (m1, wrote) = ask_write_file::<H>(m, path, text);
    if wrote {
        m1
    } else {
        ask_warning::<H>(m1, "Failed to write boot finished file "@ + path)
    }
}

/// Whether the source was taken only because there was no other, without the
/// configuration saying that it is the only one.
pub open spec fn is_fallback(ds: DatasourceSpec) -> bool {
    ds.dsname == "None"@ && get(ds.sys_cfg, "datasource_list"@) != Some(Val::Array(seq![Val::Text("None"@)]))
}

/// Whether the source was taken only because there was no other.
pub fn used_fallback(ds: &Datasource) -> (r: bool)
    ensures
        r == is_fallback(ds@),
{
    if !same(ds.dsname.as_str(), "None") {
        return false;
    }
    match ds.sys_cfg.get("datasource_list") {
        Some(Node::Array(items)) => {
            let ghost all = vals(items@);
            assert(all.len() == items@.len());
            if items.len() != 1 {
                return true;
            }
            assert(all[0] == items@[0]@);
            match &items[0] {
                Node::Text(s) => {
                    let only = same(s.as_str(), "None");
                    assert(only ==> all =~= seq![Val::Text("None"@)]);
                    !only
                },
                _ => true,
            }
        },
        _ => true,
    }
}

/// Ends the boot: shows the message, writes the file, and warns of a source that was
/// only taken for want of another.
pub open spec fn ended<H: Host>(
    m: Console<H>,
    args: Val,
    cfg: Seq<(Seq<char>, Val)>,
    ds: Option<DatasourceSpec>,
    boot_finished: Seq<char>,
) -> (Console<H>, Result<(), Seq<char>>) {
    let (m1, uptime) = ask_uptime::<H>(m);
    let (m2, timestamp) = ask_timestamp::<H>(m1);
    let (m3, version) = ask_version::<H>(m2);
    let datasource = match ds {
        Some(ds) => ds.class_name,
        None => "None"@,
    };
    let m4 = shown::<H>(m3, template_for(args, cfg), names(uptime, timestamp, version, datasource));
    let m5 = finished::<H>(m4, boot_finished, finished_text(uptime, timestamp, version));
    match ds {
        None => (m5, Err("'NoneType' object has no attribute 'dsname'"@)),
        Some(ds) => if is_fallback(ds) {
            (ask_warning::<H>(m5, "Used fallback datasource"@), Ok(()))
        } else {
            (m5, Ok(()))
        },
    }
}

/// Ends the boot.
pub fn handle_with<H: Host>(
    args: &Node,
    cfg: &Object,
    ds: &Option<Datasource>,
    boot_finished: &str,
    host: &mut H,
) -> (r: Result<(), String>)
    ensures
        (final(host).machine(), unit_result(r)) == ended::<H>(
            old(host).machine(),
            args@,
            cfg@,
            source_of(*ds),
            boot_finished@,
        ),
{
    let uptime = host.uptime();
    let timestamp = host.timestamp();
    let version = host.version();
    let datasource = match ds {
        Some(ds) => ds.class_name.clone(),
        None => "None".to_owned(),
    };
    let names = substitutions(uptime.as_str(), timestamp.as_str(), version.as_str(), datasource.as_str());
    show_message(template(args, cfg).as_str(), &names, host);
    let text = cat6(uptime.as_str(), " - ", timestamp.as_str(), " - v. ", version.as_str(), "\n");
    if !host.write_file(boot_finished, text.as_str()) {
        host.warning(cat2("Failed to write boot finished file ", boot_finished).as_str());
    }
    match ds {
        None => Err("'NoneType' object has no attribute 'dsname'".to_owned()),
        Some(ds) => {
            if used_fallback(ds) {
                host.warning("Used fallback datasource");
            }
            Ok(())
        },
    }
}

// ---------------------------------------------------------------------------
// Laws

/// Nothing but the want of a source is an error: what becomes of the template and of
/// the file does not matter.
pub proof fn only_a_missing_source_fails<H: Host>(
    m: Console<H>,
    args: Val,
    cfg: Seq<(Seq<char>, Val)>,
    ds: Option<DatasourceSpec>,
    boot_finished: Seq<char>,
)
    ensures
        ended::<H>(m, args, cfg, ds, boot_finished).1 is Ok <==> ds is Some,
{
}

/// The file is written whatever becomes of the template, and once.
pub proof fn the_file_is_always_written<H: Host>(
    m: Console<H>,
    args: Val,
    cfg: Seq<(Seq<char>, Val)>,
    ds: Option<DatasourceSpec>,
    boot_finished: Seq<char>,
)
    ensures
        ({
            let (m1, uptime) = ask_uptime::<H>(m);
            let (m2, timestamp) = ask_timestamp::<H>(m1);
            let (_, version) = ask_version::<H>(m2);
            let calls = ended::<H>(m, args, cfg, ds, boot_finished).0.calls;
            let write = Call::WriteFile { path: boot_finished, content: finished_text(uptime, timestamp, version) };
            exists|at: int|
                m.calls.len() <= at < calls.len() && calls[at] == write && forall|i: int|
                    m.calls.len() <= i < calls.len() && i != at ==> !(#[trigger] calls[i] is WriteFile)
        }),
{
    let calls = ended::<H>(m, args, cfg, ds, boot_finished).0.calls;
    let at: int = m.calls.len() as int + 5;
    assert(calls[at] is WriteFile);
}

/// A configured message that is white space is as good as none.
pub proof fn white_space_is_no_message(args: Val, cfg: Seq<(Seq<char>, Val)>)
    requires
        trim(Class::TextSpace, configured(args, cfg)).len() == 0,
    ensures
        template_for(args, cfg) == FINAL_MESSAGE_DEF@,
{
}

}
