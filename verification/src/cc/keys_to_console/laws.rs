//! What is promised of the keys on the console.

use vstd::prelude::*;

use crate::cc::keys_to_console::host::{Call, Host, Keys};
use crate::cc::keys_to_console::{blacklist, emits, shown_on_console, texts_in};
use crate::space::{trim, Class};
use crate::text::join;
use crate::value::{get, Val};

verus! {

/// A blacklist that is a list of texts has commas between them; without one it is empty.
pub proof fn a_blacklist_has_commas(cfg: Seq<(Seq<char>, Val)>, key: Seq<char>, items: Seq<Val>)
    requires
        forall|i: int| 0 <= i < items.len() ==> #[trigger] items[i] is Text,
    ensures
        get(cfg, key) == Some(Val::Array(items)) ==> blacklist(cfg, key) == Ok::<Seq<char>, Seq<char>>(
            join(Seq::new(items.len(), |i: int| items[i]->Text_0), ","@),
        ),
        get(cfg, key) is None ==> blacklist(cfg, key) == Ok::<Seq<char>, Seq<char>>(Seq::empty()),
        get(cfg, key) matches Some(Val::Text(s)) ==> blacklist(cfg, key) == Ok::<Seq<char>, Seq<char>>(s),
{
    the_texts_of_a_list(items, 0);
}

proof fn the_texts_of_a_list(items: Seq<Val>, before: nat)
    requires
        forall|i: int| 0 <= i < items.len() ==> #[trigger] items[i] is Text,
    ensures
        texts_in(items, before) == Ok::<Seq<Seq<char>>, Seq<char>>(Seq::new(items.len(), |i: int| items[i]->Text_0)),
    decreases items.len(),
{
    let all = Seq::new(items.len(), |i: int| items[i]->Text_0);
    if items.len() > 0 {
        let rest = items.skip(1);
        assert(items[0] is Text);
        assert forall|i: int| 0 <= i < rest.len() implies #[trigger] rest[i] is Text by {
            assert(rest[i] == items[i + 1]);
        }
        the_texts_of_a_list(rest, before + 1);
        assert(seq![items[0]->Text_0] + Seq::new(rest.len(), |i: int| rest[i]->Text_0) =~= all);
    } else {
        assert(all =~= Seq::empty());
    }
}

/// The helper gets the blacklist of fingerprints and behind it that of keys, and what it
/// prints goes to the console without the white space around it, on lines of its own.
pub proof fn the_helper_gets_both_blacklists<H: Host>(
    m: Keys<H>,
    name: Seq<char>,
    cfg: Seq<(Seq<char>, Val)>,
    usr_lib_exec: Seq<char>,
    fingerprints: Seq<char>,
    keys: Seq<char>,
)
    requires
        get(cfg, "ssh"@) is None,
        blacklist(cfg, "ssh_fp_console_blacklist"@) == Ok::<Seq<char>, Seq<char>>(fingerprints),
        blacklist(cfg, "ssh_key_console_blacklist"@) == Ok::<Seq<char>, Seq<char>>(keys),
    ensures
        ({
            let helper = usr_lib_exec + "/cloud-init/write-ssh-key-fingerprints"@;
            let there = Call::Exists(helper);
            let run = Call::Subp(seq![helper, fingerprints, keys]);
            let (w, found) = H::reply(m.world, there);
            let out = H::reply(w, run).1->Output_0;
            let (after, done) = shown_on_console::<H>(m, name, cfg, usr_lib_exec);
            &&& !found->Flag_0 ==> done is Ok && after.calls.len() == m.calls.len() + 2 && after.calls.last() is Report
            &&& found->Flag_0 && out is Ok ==> done is Ok && after.calls == m.calls.push(there).push(run).push(
                Call::Console(trim(Class::TextSpace, out->Ok_0) + "\n"@),
            )
            &&& found->Flag_0 && out is Err ==> done is Err
        }),
{
}

/// Keys are put on the console unless that is switched off under `ssh`.
pub proof fn keys_are_shown_unless_switched_off(cfg: Seq<(Seq<char>, Val)>, ssh: Seq<(Seq<char>, Val)>)
    ensures
        get(cfg, "ssh"@) is None ==> emits(cfg) == Ok::<bool, Seq<char>>(true),
        get(cfg, "ssh"@) == Some(Val::Object(ssh)) && get(ssh, "emit_keys_to_console"@) is None ==> emits(cfg) == Ok::<
            bool,
            Seq<char>,
        >(true),
        get(cfg, "ssh"@) == Some(Val::Object(ssh)) && get(ssh, "emit_keys_to_console"@) == Some(Val::Bool(false)) ==> emits(
            cfg,
        ) == Ok::<bool, Seq<char>>(false),
        get(cfg, "ssh"@) == Some(Val::Object(ssh)) && get(ssh, "emit_keys_to_console"@) == Some(Val::Bool(true)) ==> emits(
            cfg,
        ) == Ok::<bool, Seq<char>>(true),
{
}

/// The helper is looked for where the library's programs are; without it there is a line
/// and no failure.
pub proof fn where_the_helper_is<H: Host>(m: Keys<H>, name: Seq<char>, cfg: Seq<(Seq<char>, Val)>, lib: Seq<char>)
    requires
        get(cfg, "ssh"@) is None,
    ensures
        ({
            let (m1, r) = shown_on_console::<H>(m, name, cfg, lib);
            let look = Call::Exists(lib + "/cloud-init/write-ssh-key-fingerprints"@);
            let there = H::reply(m.world, look).1->Flag_0;
            let n = m.calls.len() as int;
            &&& m1.calls.len() > n
            &&& m1.calls[n] == look
            &&& !there ==> r is Ok && m1.calls.len() == n + 2 && m1.calls[n + 1] is Report
            &&& there && r is Ok ==> forall|i: int| n < i < m1.calls.len() ==> !(#[trigger] m1.calls[i] is Exists)
        }),
{
}

} // verus!
