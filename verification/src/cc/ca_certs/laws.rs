//! What is promised of the certificates that a machine trusts.

use vstd::prelude::*;

use crate::cc::option_items;
use crate::cc::ca_certs::{
    additions, deselected, deselected_lines, distro_places, done, file_deselected, planned, removal, removes,
    template, StepSpec,
};
use crate::cc::ca_certs::host::{Call, Host, Store};
use crate::number::dec;
use crate::show::{show, truthy};
use crate::text::{replaced, starts};
use crate::value::{get, Val};

verus! {

proof fn names_differ()
    ensures
        "aosc"@.len() == 4,
        "rhel"@.len() == 4,
        "sles"@.len() == 4,
        "aosc"@[0] == 'a',
        "rhel"@[0] == 'r',
        "sles"@[0] == 's',
        "rocky"@.len() == 5,
        "fedora"@.len() == 6,
        "centos"@.len() == 6,
        "photon"@.len() == 6,
        "ubuntu"@.len() == 6,
        "debian"@.len() == 6,
        "alpine"@.len() == 6,
        "fedora"@[0] == 'f',
        "centos"@[0] == 'c',
        "photon"@[0] == 'p',
        "ubuntu"@[0] == 'u',
        "debian"@[0] == 'd',
        "alpine"@[0] == 'a',
        "sle_hpc"@.len() == 7,
        "opensuse"@.len() == 8,
        "almalinux"@.len() == 9,
        "sle-micro"@.len() == 9,
        "almalinux"@[0] == 'a',
        "sle-micro"@[0] == 's',
        "cloudlinux"@.len() == 10,
        "opensuse-leap"@.len() == 13,
        "raspberry-pi-os"@.len() == 15,
        "opensuse-microos"@.len() == 16,
        "opensuse-tumbleweed"@.len() == 19,
{
    reveal_strlit("aosc");
    reveal_strlit("rhel");
    reveal_strlit("sles");
    reveal_strlit("rocky");
    reveal_strlit("fedora");
    reveal_strlit("centos");
    reveal_strlit("photon");
    reveal_strlit("ubuntu");
    reveal_strlit("debian");
    reveal_strlit("alpine");
    reveal_strlit("sle_hpc");
    reveal_strlit("opensuse");
    reveal_strlit("almalinux");
    reveal_strlit("sle-micro");
    reveal_strlit("cloudlinux");
    reveal_strlit("opensuse-leap");
    reveal_strlit("raspberry-pi-os");
    reveal_strlit("opensuse-microos");
    reveal_strlit("opensuse-tumbleweed");
}

/// Where each distribution keeps certificates, under which names it gets new ones, and
/// which command makes it trust them.
pub proof fn where_certificates_are_kept(name: Seq<char>)
    ensures
        name == "debian"@ || name == "ubuntu"@ || name == "alpine"@ || name == "raspberry-pi-os"@ ==> {
            let d = distro_places(name);
            &&& d.ca_cert_path is None
            &&& template(d) == "/usr/local/share/ca-certificates/cloud-init-ca-cert-{cert_index}.crt"@
            &&& d.ca_cert_config == Some("/etc/ca-certificates.conf"@)
            &&& d.ca_cert_update_cmd == "update-ca-certificates"@
        },
        name == "fedora"@ || name == "rhel"@ || name == "almalinux"@ || name == "centos"@ || name == "cloudlinux"@ || name
            == "rocky"@ ==> {
            let d = distro_places(name);
            &&& d.ca_cert_path == Some("/etc/pki/ca-trust/"@)
            &&& d.ca_cert_local_path == "/usr/share/pki/ca-trust-source/"@
            &&& template(d) == "/usr/share/pki/ca-trust-source/anchors/cloud-init-ca-cert-{cert_index}.crt"@
            &&& d.ca_cert_config is None
            &&& d.ca_cert_update_cmd == "update-ca-trust"@
        },
        name == "opensuse"@ || name == "opensuse-microos"@ || name == "opensuse-tumbleweed"@ || name == "opensuse-leap"@
            || name == "sle_hpc"@ || name == "sle-micro"@ || name == "sles"@ ==> {
            let d = distro_places(name);
            &&& d.ca_cert_path == Some("/etc/pki/trust/"@)
            &&& d.ca_cert_local_path == "/usr/share/pki/trust/"@
            &&& template(d) == "/usr/share/pki/trust/anchors/cloud-init-ca-cert-{cert_index}.crt"@
            &&& d.ca_cert_config is None
            &&& d.ca_cert_update_cmd == "update-ca-certificates"@
        },
        name == "photon"@ ==> {
            let d = distro_places(name);
            &&& d.ca_cert_path == Some("/etc/pki/tls/certs/"@)
            &&& d.ca_cert_local_path == "/etc/ssl/certs/"@
            &&& template(d) == "/etc/ssl/certs/cloud-init-ca-cert-{cert_index}.pem"@
            &&& d.ca_cert_config is None
            &&& d.ca_cert_update_cmd == "rehash_ca_certificates.sh"@
        },
        name == "aosc"@ ==> {
            let d = distro_places(name);
            &&& d.ca_cert_path == Some("/etc/ssl/certs/"@)
            &&& template(d) == "/etc/ssl/certs/cloud-init-ca-cert-{cert_index}.pem"@
            &&& d.ca_cert_config == Some("/etc/ca-certificates/conf.d/cloud-init.conf"@)
            &&& d.ca_cert_update_cmd == "update-ca-bundle"@
        },
{
    names_differ();
    reveal_strlit("/");
    reveal_strlit("/usr/local/share/ca-certificates/");
    reveal_strlit("cloud-init-ca-cert-{cert_index}.crt");
    reveal_strlit("/usr/local/share/ca-certificates/cloud-init-ca-cert-{cert_index}.crt");
    reveal_strlit("/usr/share/pki/ca-trust-source/");
    reveal_strlit("anchors/cloud-init-ca-cert-{cert_index}.crt");
    reveal_strlit("/usr/share/pki/ca-trust-source/anchors/cloud-init-ca-cert-{cert_index}.crt");
    reveal_strlit("/usr/share/pki/trust/");
    reveal_strlit("/usr/share/pki/trust/anchors/cloud-init-ca-cert-{cert_index}.crt");
    reveal_strlit("/etc/ssl/certs/");
    reveal_strlit("cloud-init-ca-cert-{cert_index}.pem");
    reveal_strlit("/etc/ssl/certs/cloud-init-ca-cert-{cert_index}.pem");
    let d = distro_places(name);
    assert(d.ca_cert_filename[0] != '/');
    assert(d.ca_cert_filename.subrange(0, 1)[0] != "/"@[0]);
    assert(!starts(d.ca_cert_filename, "/"@));
    let dir = d.ca_cert_local_path;
    assert(dir.last() == '/');
    assert(dir.subrange(dir.len() - 1, dir.len() as int) =~= "/"@);
    assert("/usr/local/share/ca-certificates/"@ + "cloud-init-ca-cert-{cert_index}.crt"@
        =~= "/usr/local/share/ca-certificates/cloud-init-ca-cert-{cert_index}.crt"@);
    assert("/usr/share/pki/ca-trust-source/"@ + "anchors/cloud-init-ca-cert-{cert_index}.crt"@
        =~= "/usr/share/pki/ca-trust-source/anchors/cloud-init-ca-cert-{cert_index}.crt"@);
    assert("/usr/share/pki/trust/"@ + "anchors/cloud-init-ca-cert-{cert_index}.crt"@
        =~= "/usr/share/pki/trust/anchors/cloud-init-ca-cert-{cert_index}.crt"@);
    assert("/etc/ssl/certs/"@ + "cloud-init-ca-cert-{cert_index}.pem"@
        =~= "/etc/ssl/certs/cloud-init-ca-cert-{cert_index}.pem"@);
}

/// The certificates of a configuration are written in their order, each under its number,
/// counted from one, behind what removes those that came with the system; and what is
/// trusted is brought up to date last.
pub proof fn certificates_are_numbered_from_one(cfg: Seq<(Seq<char>, Val)>, block: Seq<(Seq<char>, Val)>, name: Seq<char>, items: Seq<Val>)
    requires
        get(cfg, "ca_certs"@) == Some(Val::Object(block)),
        get(block, "trusted"@) == Some(Val::Array(items)),
    ensures
        planned(cfg, name) is Ok,
        ({
            let steps = planned(cfg, name)->Ok_0;
            let removed = if (get(block, "remove_defaults"@) matches Some(v) && truthy(v)) || (get(
                block,
                "remove_defaults"@,
            ) is None && (get(block, "remove-defaults"@) matches Some(v) && truthy(v))) {
                removal(name)
            } else {
                Seq::empty()
            };
            let n = removed.len() as int;
            &&& steps.len() == n + items.len() + 1
            &&& steps.take(n) == removed
            &&& forall|i: int| #![trigger items[i]]
                0 <= i < items.len() ==> steps[n + i] == (StepSpec::WriteCert {
                    path: replaced(template(distro_places(name)), "{cert_index}"@, dec((i + 1) as nat)),
                    contents: show(items[i]),
                })
            &&& steps.last() == (StepSpec::UpdateCaCerts { argv: seq![distro_places(name).ca_cert_update_cmd] })
        }),
{
    let steps = planned(cfg, name)->Ok_0;
    let removed = if removes(block) {
        removal(name)
    } else {
        Seq::empty()
    };
    assert(steps.take(removed.len() as int) =~= removed);
}

/// What removes the certificates that came with the system: on Debian and its like they
/// are deselected and new ones are not selected, on Alpine and AOSC they are deselected,
/// and on Red Hat and Photon their two directories are emptied. Elsewhere nothing does.
pub proof fn how_certificates_are_removed(name: Seq<char>)
    ensures
        name == "debian"@ || name == "ubuntu"@ || name == "raspberry-pi-os"@ ==> removal(name) == seq![
            StepSpec::DisableSystemCaCerts { path: "/etc/ca-certificates.conf"@ },
            StepSpec::DebconfSetSelections { data: "ca-certificates ca-certificates/trust_new_crts select no"@ },
        ],
        name == "alpine"@ ==> removal(name) == seq![
            StepSpec::DisableSystemCaCerts { path: "/etc/ca-certificates.conf"@ },
        ],
        name == "aosc"@ ==> removal(name) == seq![
            StepSpec::DisableSystemCaCerts { path: "/etc/ca-certificates/conf.d/cloud-init.conf"@ },
        ],
        name == "rhel"@ ==> removal(name) == seq![
            StepSpec::RemoveDirContents { path: "/etc/pki/ca-trust/"@ },
            StepSpec::RemoveDirContents { path: "/usr/share/pki/ca-trust-source/"@ },
        ],
        name == "photon"@ ==> removal(name) == seq![
            StepSpec::RemoveDirContents { path: "/etc/pki/tls/certs/"@ },
            StepSpec::RemoveDirContents { path: "/etc/ssl/certs/"@ },
        ],
        name == "fedora"@ || name == "centos"@ || name == "almalinux"@ || name == "rocky"@ || name == "opensuse"@ || name
            == "sles"@ ==> removal(name) == Seq::<StepSpec>::empty(),
{
    names_differ();
    where_certificates_are_kept(name);
}

/// What a step asks of the machine itself.
pub proof fn what_a_step_asks<H: Host>(m: Store<H>, path: Seq<char>, text: Seq<char>, argv: Seq<Seq<char>>)
    ensures
        done::<H>(m, StepSpec::RemoveDirContents { path }, true).0.calls == m.calls.push(Call::RemoveContents(path)),
        done::<H>(m, StepSpec::DebconfSetSelections { data: text }, true).0.calls == m.calls.push(
            Call::SetSelections(text),
        ),
        done::<H>(m, StepSpec::WriteCert { path, contents: text }, true).0.calls == m.calls.push(
            Call::WriteFile { path, content: text },
        ),
        done::<H>(m, StepSpec::WriteCert { path, contents: text }, false).0.calls == m.calls.push(
            Call::WriteFile { path, content: text },
        ),
        done::<H>(m, StepSpec::UpdateCaCerts { argv }, true).0.calls.last() == Call::Subp(argv),
        done::<H>(m, StepSpec::UpdateCaCerts { argv }, true).0.calls.len() == m.calls.len() + 2,
{
}

/// The entries of lines that are deselected: each with a mark before it and nothing else
/// changed. What is empty, a comment or marked already stays.
pub proof fn every_entry_gets_a_mark(lines: Seq<Seq<char>>)
    requires
        forall|i: int| 0 <= i < lines.len() ==> (#[trigger] lines[i]).len() > 0 && lines[i][0] != '#' && lines[i][0] != '!',
    ensures
        deselected_lines(lines, true).len() == lines.len(),
        forall|i: int| 0 <= i < lines.len() ==> #[trigger] deselected_lines(lines, true)[i] == seq!['!'] + lines[i],
        lines.len() > 0 ==> deselected_lines(lines, false) == seq![
            "# Modified by cloud-init to deselect certs due to user-data"@,
        ] + deselected_lines(lines, true),
    decreases lines.len(),
{
    reveal_strlit("!");
    assert("!"@ =~= seq!['!']);
    if lines.len() > 0 {
        let rest = lines.skip(1);
        assert forall|i: int| 0 <= i < rest.len() implies (#[trigger] rest[i]).len() > 0 && rest[i][0] != '#' && rest[i][0]
            != '!' by {
            assert(rest[i] == lines[i + 1]);
        }
        every_entry_gets_a_mark(rest);
        assert(lines[0].len() > 0);
        let all = deselected_lines(lines, true);
        assert forall|i: int| 0 <= i < lines.len() implies #[trigger] all[i] == seq!['!'] + lines[i] by {
            if i > 0 {
                assert(all[i] == deselected_lines(rest, true)[i - 1]);
            }
        }
        assert(deselected_lines(lines, false) =~= seq!["# Modified by cloud-init to deselect certs due to user-data"@]
            + deselected_lines(lines, true));
    }
}

/// A file of entries is read, and written where there is something in it; one that is not
/// there or empty stays as it is.
pub proof fn a_file_of_entries_is_written_over<H: Host>(m: Store<H>, path: Seq<char>)
    ensures
        ({
            let (m1, r) = file_deselected::<H>(m, path);
            let ask = Call::Selection(path);
            let read = H::reply(m.world, ask).1->Selected_0;
            &&& m1.calls[m.calls.len() as int] == ask
            &&& read is Err ==> r is Err && m1.calls == m.calls.push(ask)
            &&& read is Ok && (read->Ok_0 is None || (read->Ok_0->0).len() == 0) ==> r is Ok && m1.calls == m.calls.push(
                ask,
            )
            &&& read is Ok && read->Ok_0 is Some && (read->Ok_0->0).len() > 0 ==> m1.calls == m.calls.push(ask).push(
                Call::WriteFile { path, content: deselected(read->Ok_0->0) },
            )
        }),
{
}

/// The certificates that came with the system are removed where that is asked for, under
/// its name or an older one, and they go before others come.
pub proof fn when_certificates_are_removed(cfg: Seq<(Seq<char>, Val)>, block: Seq<(Seq<char>, Val)>, name: Seq<char>)
    requires
        get(cfg, "ca_certs"@) == Some(Val::Object(block)) || (get(cfg, "ca_certs"@) is None && get(cfg, "ca-certs"@)
            == Some(Val::Object(block))),
        get(block, "trusted"@) is None,
    ensures
        ({
            let steps = planned(cfg, name)->Ok_0;
            let gone = removal(name);
            let asked = get(block, "remove_defaults"@) == Some(Val::Bool(true)) || (get(block, "remove_defaults"@) is None
                && get(block, "remove-defaults"@) == Some(Val::Bool(true)));
            let not_asked = get(block, "remove_defaults"@) == Some(Val::Bool(false)) || (get(block, "remove_defaults"@)
                is None && get(block, "remove-defaults"@) is None);
            &&& asked ==> steps.drop_last() == gone
            &&& not_asked ==> steps.len() == 1
        }),
{
    let steps = planned(cfg, name)->Ok_0;
    let gone = removal(name);
    let d = distro_places(name);
    let none = additions(
        option_items(block, "trusted"@, Seq::empty()),
        template(d),
    );
    assert(none =~= Seq::empty());
    assert(gone + none =~= gone);
    if removes(block) {
        assert(steps.drop_last() =~= gone);
    }
}

} // verus!
