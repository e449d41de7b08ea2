//! What is promised of setting up mcollective.

use vstd::prelude::*;
use vstd::utf8::encode_utf8;

use crate::cc::mcollective::{entries_set, entry_set, options_set, set_up, settings_saved, settings_taken};
use crate::cc::mcollective::host::{ask_add_section, ask_has_section, ask_set_in_section, Call, Host, Server};
use crate::show::show;
use crate::value::{get, Val};

verus! {

/// The public certificate is written for everybody to read and the private one for its
/// owner alone, each to its own file; the server is told where, and that ssl is used.
pub proof fn certificates_go_to_their_files<H: Host>(m: Server<H>, text: Seq<char>)
    ensures
        ({
            let file = Call::WriteFile {
                path: "/etc/mcollective/ssl/server-public.pem"@,
                content: encode_utf8(text),
                mode: 0o644,
            };
            let (after, done) = entry_set::<H>(m, "public-cert"@, Val::Text(text));
            &&& done is Ok <==> H::reply(m.world, file).1->Done_0 is Ok
            &&& done is Err ==> after.calls == m.calls.push(file)
            &&& done is Ok ==> after.calls == m.calls.push(file).push(
                Call::SetText {
                    key: "plugin.ssl_server_public"@,
                    value: "/etc/mcollective/ssl/server-public.pem"@,
                },
            ).push(Call::SetText { key: "securityprovider"@, value: "ssl"@ })
        }),
        ({
            let file = Call::WriteFile {
                path: "/etc/mcollective/ssl/server-private.pem"@,
                content: encode_utf8(text),
                mode: 0o600,
            };
            let (after, done) = entry_set::<H>(m, "private-cert"@, Val::Text(text));
            &&& done is Ok <==> H::reply(m.world, file).1->Done_0 is Ok
            &&& done is Err ==> after.calls == m.calls.push(file)
            &&& done is Ok ==> after.calls == m.calls.push(file).push(
                Call::SetText {
                    key: "plugin.ssl_server_private"@,
                    value: "/etc/mcollective/ssl/server-private.pem"@,
                },
            ).push(Call::SetText { key: "securityprovider"@, value: "ssl"@ })
        }),
{
    reveal_strlit("public-cert");
    reveal_strlit("private-cert");
    assert("public-cert"@.len() != "private-cert"@.len());
}

/// Any other entry is a setting, which is as it is printed, or a section.
pub proof fn other_entries_are_settings<H: Host>(m: Server<H>, key: Seq<char>, v: Val)
    requires
        key != "public-cert"@,
        key != "private-cert"@,
    ensures
        v !is Object ==> entry_set::<H>(m, key, v).1 is Ok && entry_set::<H>(m, key, v).0.calls == m.calls.push(
            Call::SetText { key, value: show(v) },
        ),
        v is Object ==> {
            let after = entry_set::<H>(m, key, v).0;
            let n = m.calls.len() as int;
            let start = if H::reply(m.world, Call::HasSection(key)).1->Flag_0 {
                n + 1
            } else {
                n + 2
            };
            &&& after.calls[n] == Call::HasSection(key)
            &&& !H::reply(m.world, Call::HasSection(key)).1->Flag_0 ==> after.calls[n + 1] == Call::AddSection(key)
            &&& after.calls.len() == start + v->Object_0.len()
            &&& forall|i: int| #![trigger after.calls[i]]
                start <= i < after.calls.len() ==> after.calls[i] == (Call::SetInSection {
                    name: key,
                    option: v->Object_0[i - start].0,
                    value: v->Object_0[i - start].1,
                })
        },
{
    if v is Object {
        let (m1, there) = ask_has_section::<H>(m, key);
        let m2 = if there {
            m1
        } else {
            ask_add_section::<H>(m1, key)
        };
        each_option_is_set::<H>(m2, key, v->Object_0);
        let after = entry_set::<H>(m, key, v).0;
        assert(after.calls[m.calls.len() as int] == after.calls.take(m2.calls.len() as int)[m.calls.len() as int]);
        if !there {
            assert(after.calls[m.calls.len() as int + 1] == after.calls.take(m2.calls.len() as int)[m.calls.len() as int + 1]);
        }
    }
}

proof fn each_option_is_set<H: Host>(m: Server<H>, name: Seq<char>, options: Seq<(Seq<char>, Val)>)
    ensures
        ({
            let after = options_set::<H>(m, name, options);
            let n = m.calls.len() as int;
            &&& after.calls.len() == n + options.len()
            &&& after.calls.take(n) == m.calls
            &&& forall|i: int| #![trigger after.calls[i]]
                n <= i < after.calls.len() ==> after.calls[i] == (Call::SetInSection {
                    name,
                    option: options[i - n].0,
                    value: options[i - n].1,
                })
        }),
    decreases options.len(),
{
    let after = options_set::<H>(m, name, options);
    let n = m.calls.len() as int;
    if options.len() == 0 {
        assert(after.calls.take(n) =~= m.calls);
    } else {
        let call = Call::SetInSection { name, option: options[0].0, value: options[0].1 };
        let m1 = ask_set_in_section::<H>(m, name, options[0].0, options[0].1);
        assert(m1.calls =~= m.calls.push(call));
        each_option_is_set::<H>(m1, name, options.skip(1));
        assert(after.calls.take(n) =~= after.calls.take(n + 1).take(n));
        assert(m1.calls.take(n) =~= m.calls);
        assert forall|i: int| #![trigger after.calls[i]] n <= i < after.calls.len() implies after.calls[i] == (
        Call::SetInSection { name, option: options[i - n].0, value: options[i - n].1 }) by {
            if i == n {
                assert(after.calls[n] == after.calls.take(n + 1)[n]);
            } else {
                assert(options.skip(1)[i - n - 1] == options[i - n]);
            }
        }
    }
}

/// The settings are read from the server's file; that there is none is no failure, and
/// any other fault is.
pub proof fn settings_come_from_the_servers_file<H: Host>(m: Server<H>)
    ensures
        ({
            let (after, done) = settings_taken::<H>(m);
            let load = Call::LoadFile("/etc/mcollective/server.cfg"@);
            let n = m.calls.len() as int;
            let found = H::reply(m.world, load).1->Bytes_0;
            &&& after.calls[n] == load
            &&& found matches Ok(bytes) ==> after.calls == m.calls.push(load).push(Call::ReadSettings(bytes))
            &&& found matches Err(e) ==> {
                &&& e.errno == 2 ==> done is Ok && after.calls.last() == Call::NoSettings
                &&& e.errno != 2 ==> done is Err && after.calls == m.calls.push(load)
            }
        }),
{
}

/// The file is copied aside before it is written anew, for everybody to read.
pub proof fn the_settings_are_copied_aside<H: Host>(m: Server<H>)
    requires
        settings_saved::<H>(m).1 is Ok,
    ensures
        ({
            let after = settings_saved::<H>(m).0;
            let n = m.calls.len() as int;
            &&& after.calls.len() == n + 3
            &&& after.calls[n] == Call::Copy {
                src: "/etc/mcollective/server.cfg"@,
                dest: "/etc/mcollective/server.cfg"@ + ".old"@,
            }
            &&& after.calls[n + 1] == Call::SettingsFile
            &&& (after.calls[n + 2] matches Call::WriteFile { path, mode, .. } && path == "/etc/mcollective/server.cfg"@ && mode
                == 0o644)
        }),
{
}

/// The package is installed first and the service is restarted last.
pub proof fn mcollective_is_installed_first_and_restarted_last<H: Host>(m: Server<H>, name: Seq<char>, cfg: Seq<(Seq<char>, Val)>)
    requires
        get(cfg, "mcollective"@) is Some,
    ensures
        ({
            let (after, done) = set_up::<H>(m, name, cfg);
            let first = Call::Install(Val::Array(seq![Val::Text("mcollective"@)]));
            &&& get(cfg, "mcollective"@) == Some(Val::Object(Seq::empty())) && H::reply(m.world, first).1->Done_0 is Ok
                ==> after.calls == m.calls.push(first).push(Call::Subp(seq!["service"@, "mcollective"@, "restart"@]))
            &&& H::reply(m.world, first).1->Done_0 is Err ==> after.calls == m.calls.push(first) && done is Err
            &&& done is Ok ==> after.calls.last() == Call::Subp(seq!["service"@, "mcollective"@, "restart"@])
        }),
{
}

/// One entry after the other is dealt with, and a failure ends it.
pub proof fn entries_are_set_one_by_one<H: Host>(m: Server<H>, key: Seq<char>, v: Val, rest: Seq<(Seq<char>, Val)>)
    ensures
        ({
            let (m1, done) = entry_set::<H>(m, key, v);
            let r = entries_set::<H>(m, seq![(key, v)] + rest);
            &&& done is Err ==> r.0 == m1 && r.1 is Err
            &&& done is Ok ==> r == entries_set::<H>(m1, rest)
        }),
        entries_set::<H>(m, Seq::empty()).0 == m,
{
    let all = seq![(key, v)] + rest;
    assert(all[0] == (key, v));
    assert(all.skip(1) =~= rest);
}

} // verus!
