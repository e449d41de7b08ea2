//! What is promised of the last message of a boot.

use vstd::prelude::*;

use crate::cc::final_message::host::{Call, Console, Host};
use crate::cc::final_message::{ended, is_fallback, names, template_for, DatasourceSpec};
use crate::show::show;
use crate::space::{trim, Class};
use crate::value::{get, get_after_put, put, Val};

verus! {

/// Each of the four names stands for its value, in lower case and in upper case.
pub proof fn each_name_stands_for_its_value(uptime: Seq<char>, timestamp: Seq<char>, version: Seq<char>, datasource: Seq<char>)
    ensures
        ({
            let m = names(uptime, timestamp, version, datasource);
            &&& get(m, "uptime"@) == Some(Val::Text(uptime))
            &&& get(m, "UPTIME"@) == Some(Val::Text(uptime))
            &&& get(m, "timestamp"@) == Some(Val::Text(timestamp))
            &&& get(m, "TIMESTAMP"@) == Some(Val::Text(timestamp))
            &&& get(m, "version"@) == Some(Val::Text(version))
            &&& get(m, "VERSION"@) == Some(Val::Text(version))
            &&& get(m, "datasource"@) == Some(Val::Text(datasource))
            &&& get(m, "DATASOURCE"@) == Some(Val::Text(datasource))
        }),
{
    reveal_strlit("uptime");
    reveal_strlit("UPTIME");
    reveal_strlit("timestamp");
    reveal_strlit("TIMESTAMP");
    reveal_strlit("version");
    reveal_strlit("VERSION");
    reveal_strlit("datasource");
    reveal_strlit("DATASOURCE");
    assert("uptime"@.len() == 6 && "uptime"@[0] == 'u');
    assert("UPTIME"@.len() == 6 && "UPTIME"@[0] == 'U');
    assert("timestamp"@.len() == 9 && "timestamp"@[0] == 't');
    assert("TIMESTAMP"@.len() == 9 && "TIMESTAMP"@[0] == 'T');
    assert("version"@.len() == 7 && "version"@[0] == 'v');
    assert("VERSION"@.len() == 7 && "VERSION"@[0] == 'V');
    assert("datasource"@.len() == 10 && "datasource"@[0] == 'd');
    assert("DATASOURCE"@.len() == 10 && "DATASOURCE"@[0] == 'D');
    let u = Val::Text(uptime);
    let t = Val::Text(timestamp);
    let v = Val::Text(version);
    let d = Val::Text(datasource);
    let m0 = Seq::<(Seq<char>, Val)>::empty();
    let m1 = put(m0, "uptime"@, u);
    let m2 = put(m1, "UPTIME"@, u);
    let m3 = put(m2, "timestamp"@, t);
    let m4 = put(m3, "TIMESTAMP"@, t);
    let m5 = put(m4, "version"@, v);
    let m6 = put(m5, "VERSION"@, v);
    let m7 = put(m6, "datasource"@, d);
    assert(names(uptime, timestamp, version, datasource) == put(m7, "DATASOURCE"@, d));
    get_after_put(m0, "uptime"@, u, "uptime"@);
    get_after_put(m1, "UPTIME"@, u, "uptime"@);
    get_after_put(m2, "timestamp"@, t, "uptime"@);
    get_after_put(m2, "timestamp"@, t, "UPTIME"@);
    get_after_put(m3, "TIMESTAMP"@, t, "uptime"@);
    get_after_put(m3, "TIMESTAMP"@, t, "UPTIME"@);
    get_after_put(m3, "TIMESTAMP"@, t, "timestamp"@);
    get_after_put(m4, "version"@, v, "uptime"@);
    get_after_put(m4, "version"@, v, "UPTIME"@);
    get_after_put(m4, "version"@, v, "timestamp"@);
    get_after_put(m4, "version"@, v, "TIMESTAMP"@);
    get_after_put(m5, "VERSION"@, v, "uptime"@);
    get_after_put(m5, "VERSION"@, v, "UPTIME"@);
    get_after_put(m5, "VERSION"@, v, "timestamp"@);
    get_after_put(m5, "VERSION"@, v, "TIMESTAMP"@);
    get_after_put(m5, "VERSION"@, v, "version"@);
    get_after_put(m6, "datasource"@, d, "uptime"@);
    get_after_put(m6, "datasource"@, d, "UPTIME"@);
    get_after_put(m6, "datasource"@, d, "timestamp"@);
    get_after_put(m6, "datasource"@, d, "TIMESTAMP"@);
    get_after_put(m6, "datasource"@, d, "version"@);
    get_after_put(m6, "datasource"@, d, "VERSION"@);
    get_after_put(m7, "DATASOURCE"@, d, "uptime"@);
    get_after_put(m7, "DATASOURCE"@, d, "UPTIME"@);
    get_after_put(m7, "DATASOURCE"@, d, "timestamp"@);
    get_after_put(m7, "DATASOURCE"@, d, "TIMESTAMP"@);
    get_after_put(m7, "DATASOURCE"@, d, "version"@);
    get_after_put(m7, "DATASOURCE"@, d, "VERSION"@);
    get_after_put(m7, "DATASOURCE"@, d, "datasource"@);
}

/// An argument is the message, or else what is configured, without white space around it.
/// Where there is neither, there is a message that names the version, the time, the source
/// and how long the machine has been up.
pub proof fn which_message_is_shown(first: Val, cfg: Seq<(Seq<char>, Val)>)
    ensures
        trim(Class::TextSpace, show(first)).len() > 0 ==> template_for(Val::Array(seq![first]), cfg) == trim(
            Class::TextSpace,
            show(first),
        ),
        get(cfg, "final_message"@) matches Some(v) && trim(Class::TextSpace, show(v)).len() > 0 ==> template_for(
            Val::Array(Seq::empty()),
            cfg,
        ) == trim(Class::TextSpace, show(get(cfg, "final_message"@)->0)),
        get(cfg, "final_message"@) is None ==> template_for(Val::Array(Seq::empty()), cfg)
            == "## template: jinja\nCloud-init v. {{version}} finished at {{timestamp}}. Datasource {{datasource}}.  Up {{uptime}} seconds"@,
{
    reveal_strlit("");
    assert(trim(Class::TextSpace, ""@).len() == 0);
}

/// The end of a boot: the message is shown with what the machine says of itself, or a
/// warning where it has no text; and the file that says that the boot is over gets the
/// uptime, the time and the version.
pub proof fn how_a_boot_ends<H: Host>(
    m: Console<H>,
    args: Val,
    cfg: Seq<(Seq<char>, Val)>,
    ds: DatasourceSpec,
    boot_finished: Seq<char>,
)
    ensures
        ({
            let (w1, uptime) = H::reply(m.world, Call::Uptime);
            let (w2, timestamp) = H::reply(w1, Call::Timestamp);
            let (w3, version) = H::reply(w2, Call::Version);
            let render = Call::Render {
                template: template_for(args, cfg),
                names: names(uptime->Text_0, timestamp->Text_0, version->Text_0, ds.class_name),
            };
            let (w4, text) = H::reply(w3, render);
            let after = ended::<H>(m, args, cfg, Some(ds), boot_finished).0;
            let n = m.calls.len() as int;
            &&& after.calls[n] == Call::Uptime
            &&& after.calls[n + 1] == Call::Timestamp
            &&& after.calls[n + 2] == Call::Version
            &&& after.calls[n + 3] == render
            &&& text->Rendered_0 matches Ok(shown) ==> after.calls[n + 4] == Call::Message(shown)
            &&& text->Rendered_0 is Err ==> after.calls[n + 4] is Warning
            &&& after.calls[n + 5] == Call::WriteFile {
                path: boot_finished,
                content: uptime->Text_0 + " - "@ + timestamp->Text_0 + " - v. "@ + version->Text_0 + "\n"@,
            }
            &&& is_fallback(ds) ==> after.calls.last() == Call::Warning("Used fallback datasource"@)
        }),
{
}

/// A source is a fallback where it is none at all, unless the system is configured for just
/// that.
pub proof fn what_a_fallback_is(ds: DatasourceSpec)
    ensures
        ds.dsname != "None"@ ==> !is_fallback(ds),
        ds.dsname == "None"@ && get(ds.sys_cfg, "datasource_list"@) is None ==> is_fallback(ds),
        ds.dsname == "None"@ && get(ds.sys_cfg, "datasource_list"@) == Some(Val::Array(seq![Val::Text("None"@)]))
            ==> !is_fallback(ds),
{
}

}
