//! Which modules have something to run, by name.

use vstd::prelude::*;

use crate::order::{before, before_irreflexive, before_total, before_transitive, first_difference, is_before};
use crate::order::{neighbours_make_order, ordered};
use crate::text::same;

verus! {

/// What is run for a module.
#[derive(Debug, Clone, Copy, PartialEq, Eq, Structural)]
pub enum Handler {
    Ansible,
    AptConfigure,
    AptPipelining,
    Bootcmd,
    CaCerts,
    Chef,
    DiskSetup,
    FinalMessage,
    Growpart,
    KeysToConsole,
    Locale,
    Mcollective,
    Mounts,
    PackageUpdateUpgradeInstall,
    Puppet,
    Resizefs,
    Rsyslog,
    Runcmd,
    SaltMinion,
    ScriptsPerBoot,
    ScriptsPerInstance,
    ScriptsPerOnce,
    ScriptsUser,
    ScriptsVendor,
    SeedRandom,
    SetHostname,
    SetPasswords,
    Snap,
    Ssh,
    SshAuthkeyFingerprints,
    SshImportId,
    Timezone,
    UpdateEtcHosts,
    UpdateHostname,
    UsersGroups,
    WriteFiles,
    WriteFilesDeferred,
}

/// The names of the modules.
pub open spec fn names() -> Seq<Seq<char>> {
    seq![
        "cc_ansible"@,
        "cc_apt_configure"@,
        "cc_apt_pipelining"@,
        "cc_bootcmd"@,
        "cc_ca_certs"@,
        "cc_chef"@,
        "cc_disk_setup"@,
        "cc_final_message"@,
        "cc_growpart"@,
        "cc_keys_to_console"@,
        "cc_locale"@,
        "cc_mcollective"@,
        "cc_mounts"@,
        "cc_package_update_upgrade_install"@,
        "cc_puppet"@,
        "cc_resizefs"@,
        "cc_rsyslog"@,
        "cc_runcmd"@,
        "cc_salt_minion"@,
        "cc_scripts_per_boot"@,
        "cc_scripts_per_instance"@,
        "cc_scripts_per_once"@,
        "cc_scripts_user"@,
        "cc_scripts_vendor"@,
        "cc_seed_random"@,
        "cc_set_hostname"@,
        "cc_set_passwords"@,
        "cc_snap"@,
        "cc_ssh"@,
        "cc_ssh_authkey_fingerprints"@,
        "cc_ssh_import_id"@,
        "cc_timezone"@,
        "cc_update_etc_hosts"@,
        "cc_update_hostname"@,
        "cc_users_groups"@,
        "cc_write_files"@,
        "cc_write_files_deferred"@,
    ]
}

/// What is run for the modules, in the order of their names.
pub open spec fn handlers() -> Seq<Handler> {
    seq![
        Handler::Ansible,
        Handler::AptConfigure,
        Handler::AptPipelining,
        Handler::Bootcmd,
        Handler::CaCerts,
        Handler::Chef,
        Handler::DiskSetup,
        Handler::FinalMessage,
        Handler::Growpart,
        Handler::KeysToConsole,
        Handler::Locale,
        Handler::Mcollective,
        Handler::Mounts,
        Handler::PackageUpdateUpgradeInstall,
        Handler::Puppet,
        Handler::Resizefs,
        Handler::Rsyslog,
        Handler::Runcmd,
        Handler::SaltMinion,
        Handler::ScriptsPerBoot,
        Handler::ScriptsPerInstance,
        Handler::ScriptsPerOnce,
        Handler::ScriptsUser,
        Handler::ScriptsVendor,
        Handler::SeedRandom,
        Handler::SetHostname,
        Handler::SetPasswords,
        Handler::Snap,
        Handler::Ssh,
        Handler::SshAuthkeyFingerprints,
        Handler::SshImportId,
        Handler::Timezone,
        Handler::UpdateEtcHosts,
        Handler::UpdateHostname,
        Handler::UsersGroups,
        Handler::WriteFiles,
        Handler::WriteFilesDeferred,
    ]
}

pub open spec fn row_names(rows: Seq<(&'static str, Handler)>) -> Seq<Seq<char>> {
    Seq::new(rows.len(), |i: int| rows[i].0@)
}

pub open spec fn row_handlers(rows: Seq<(&'static str, Handler)>) -> Seq<Handler> {
    Seq::new(rows.len(), |i: int| rows[i].1)
}

/// The modules by name, in order.
pub fn table() -> (rows: Vec<(&'static str, Handler)>)
    ensures
        row_names(rows@) == names(),
        row_handlers(rows@) == handlers(),
{
    let mut rows: Vec<(&'static str, Handler)> = Vec::new();
    rows.push(("cc_ansible", Handler::Ansible));
    rows.push(("cc_apt_configure", Handler::AptConfigure));
    rows.push(("cc_apt_pipelining", Handler::AptPipelining));
    rows.push(("cc_bootcmd", Handler::Bootcmd));
    rows.push(("cc_ca_certs", Handler::CaCerts));
    rows.push(("cc_chef", Handler::Chef));
    rows.push(("cc_disk_setup", Handler::DiskSetup));
    rows.push(("cc_final_message", Handler::FinalMessage));
    rows.push(("cc_growpart", Handler::Growpart));
    rows.push(("cc_keys_to_console", Handler::KeysToConsole));
    rows.push(("cc_locale", Handler::Locale));
    rows.push(("cc_mcollective", Handler::Mcollective));
    rows.push(("cc_mounts", Handler::Mounts));
    rows.push(("cc_package_update_upgrade_install", Handler::PackageUpdateUpgradeInstall));
    rows.push(("cc_puppet", Handler::Puppet));
    rows.push(("cc_resizefs", Handler::Resizefs));
    rows.push(("cc_rsyslog", Handler::Rsyslog));
    rows.push(("cc_runcmd", Handler::Runcmd));
    rows.push(("cc_salt_minion", Handler::SaltMinion));
    rows.push(("cc_scripts_per_boot", Handler::ScriptsPerBoot));
    rows.push(("cc_scripts_per_instance", Handler::ScriptsPerInstance));
    rows.push(("cc_scripts_per_once", Handler::ScriptsPerOnce));
    rows.push(("cc_scripts_user", Handler::ScriptsUser));
    rows.push(("cc_scripts_vendor", Handler::ScriptsVendor));
    rows.push(("cc_seed_random", Handler::SeedRandom));
    rows.push(("cc_set_hostname", Handler::SetHostname));
    rows.push(("cc_set_passwords", Handler::SetPasswords));
    rows.push(("cc_snap", Handler::Snap));
    rows.push(("cc_ssh", Handler::Ssh));
    rows.push(("cc_ssh_authkey_fingerprints", Handler::SshAuthkeyFingerprints));
    rows.push(("cc_ssh_import_id", Handler::SshImportId));
    rows.push(("cc_timezone", Handler::Timezone));
    rows.push(("cc_update_etc_hosts", Handler::UpdateEtcHosts));
    rows.push(("cc_update_hostname", Handler::UpdateHostname));
    rows.push(("cc_users_groups", Handler::UsersGroups));
    rows.push(("cc_write_files", Handler::WriteFiles));
    rows.push(("cc_write_files_deferred", Handler::WriteFilesDeferred));
    assert(row_names(rows@) =~= names());
    assert(row_handlers(rows@) =~= handlers());
    rows
}

/// The names of the modules are in order, and none is there twice.
pub proof fn the_table_is_in_order()
    ensures
        ordered(names()),
{
    let list = names();
    assert(before("cc_ansible"@, "cc_apt_configure"@)) by {
        reveal_strlit("cc_ansible");
        reveal_strlit("cc_apt_configure");
        first_difference("cc_ansible"@, "cc_apt_configure"@, 4);
    }
    assert(before("cc_apt_configure"@, "cc_apt_pipelining"@)) by {
        reveal_strlit("cc_apt_configure");
        reveal_strlit("cc_apt_pipelining");
        first_difference("cc_apt_configure"@, "cc_apt_pipelining"@, 7);
    }
    assert(before("cc_apt_pipelining"@, "cc_bootcmd"@)) by {
        reveal_strlit("cc_apt_pipelining");
        reveal_strlit("cc_bootcmd");
        first_difference("cc_apt_pipelining"@, "cc_bootcmd"@, 3);
    }
    assert(before("cc_bootcmd"@, "cc_ca_certs"@)) by {
        reveal_strlit("cc_bootcmd");
        reveal_strlit("cc_ca_certs");
        first_difference("cc_bootcmd"@, "cc_ca_certs"@, 3);
    }
    assert(before("cc_ca_certs"@, "cc_chef"@)) by {
        reveal_strlit("cc_ca_certs");
        reveal_strlit("cc_chef");
        first_difference("cc_ca_certs"@, "cc_chef"@, 4);
    }
    assert(before("cc_chef"@, "cc_disk_setup"@)) by {
        reveal_strlit("cc_chef");
        reveal_strlit("cc_disk_setup");
        first_difference("cc_chef"@, "cc_disk_setup"@, 3);
    }
    assert(before("cc_disk_setup"@, "cc_final_message"@)) by {
        reveal_strlit("cc_disk_setup");
        reveal_strlit("cc_final_message");
        first_difference("cc_disk_setup"@, "cc_final_message"@, 3);
    }
    assert(before("cc_final_message"@, "cc_growpart"@)) by {
        reveal_strlit("cc_final_message");
        reveal_strlit("cc_growpart");
        first_difference("cc_final_message"@, "cc_growpart"@, 3);
    }
    assert(before("cc_growpart"@, "cc_keys_to_console"@)) by {
        reveal_strlit("cc_growpart");
        reveal_strlit("cc_keys_to_console");
        first_difference("cc_growpart"@, "cc_keys_to_console"@, 3);
    }
    assert(before("cc_keys_to_console"@, "cc_locale"@)) by {
        reveal_strlit("cc_keys_to_console");
        reveal_strlit("cc_locale");
        first_difference("cc_keys_to_console"@, "cc_locale"@, 3);
    }
    assert(before("cc_locale"@, "cc_mcollective"@)) by {
        reveal_strlit("cc_locale");
        reveal_strlit("cc_mcollective");
        first_difference("cc_locale"@, "cc_mcollective"@, 3);
    }
    assert(before("cc_mcollective"@, "cc_mounts"@)) by {
        reveal_strlit("cc_mcollective");
        reveal_strlit("cc_mounts");
        first_difference("cc_mcollective"@, "cc_mounts"@, 4);
    }
    assert(before("cc_mounts"@, "cc_package_update_upgrade_install"@)) by {
        reveal_strlit("cc_mounts");
        reveal_strlit("cc_package_update_upgrade_install");
        first_difference("cc_mounts"@, "cc_package_update_upgrade_install"@, 3);
    }
    assert(before("cc_package_update_upgrade_install"@, "cc_puppet"@)) by {
        reveal_strlit("cc_package_update_upgrade_install");
        reveal_strlit("cc_puppet");
        first_difference("cc_package_update_upgrade_install"@, "cc_puppet"@, 4);
    }
    assert(before("cc_puppet"@, "cc_resizefs"@)) by {
        reveal_strlit("cc_puppet");
        reveal_strlit("cc_resizefs");
        first_difference("cc_puppet"@, "cc_resizefs"@, 3);
    }
    assert(before("cc_resizefs"@, "cc_rsyslog"@)) by {
        reveal_strlit("cc_resizefs");
        reveal_strlit("cc_rsyslog");
        first_difference("cc_resizefs"@, "cc_rsyslog"@, 4);
    }
    assert(before("cc_rsyslog"@, "cc_runcmd"@)) by {
        reveal_strlit("cc_rsyslog");
        reveal_strlit("cc_runcmd");
        first_difference("cc_rsyslog"@, "cc_runcmd"@, 4);
    }
    assert(before("cc_runcmd"@, "cc_salt_minion"@)) by {
        reveal_strlit("cc_runcmd");
        reveal_strlit("cc_salt_minion");
        first_difference("cc_runcmd"@, "cc_salt_minion"@, 3);
    }
    assert(before("cc_salt_minion"@, "cc_scripts_per_boot"@)) by {
        reveal_strlit("cc_salt_minion");
        reveal_strlit("cc_scripts_per_boot");
        first_difference("cc_salt_minion"@, "cc_scripts_per_boot"@, 4);
    }
    assert(before("cc_scripts_per_boot"@, "cc_scripts_per_instance"@)) by {
        reveal_strlit("cc_scripts_per_boot");
        reveal_strlit("cc_scripts_per_instance");
        first_difference("cc_scripts_per_boot"@, "cc_scripts_per_instance"@, 15);
    }
    assert(before("cc_scripts_per_instance"@, "cc_scripts_per_once"@)) by {
        reveal_strlit("cc_scripts_per_instance");
        reveal_strlit("cc_scripts_per_once");
        first_difference("cc_scripts_per_instance"@, "cc_scripts_per_once"@, 15);
    }
    assert(before("cc_scripts_per_once"@, "cc_scripts_user"@)) by {
        reveal_strlit("cc_scripts_per_once");
        reveal_strlit("cc_scripts_user");
        first_difference("cc_scripts_per_once"@, "cc_scripts_user"@, 11);
    }
    assert(before("cc_scripts_user"@, "cc_scripts_vendor"@)) by {
        reveal_strlit("cc_scripts_user");
        reveal_strlit("cc_scripts_vendor");
        first_difference("cc_scripts_user"@, "cc_scripts_vendor"@, 11);
    }
    assert(before("cc_scripts_vendor"@, "cc_seed_random"@)) by {
        reveal_strlit("cc_scripts_vendor");
        reveal_strlit("cc_seed_random");
        first_difference("cc_scripts_vendor"@, "cc_seed_random"@, 4);
    }
    assert(before("cc_seed_random"@, "cc_set_hostname"@)) by {
        reveal_strlit("cc_seed_random");
        reveal_strlit("cc_set_hostname");
        first_difference("cc_seed_random"@, "cc_set_hostname"@, 5);
    }
    assert(before("cc_set_hostname"@, "cc_set_passwords"@)) by {
        reveal_strlit("cc_set_hostname");
        reveal_strlit("cc_set_passwords");
        first_difference("cc_set_hostname"@, "cc_set_passwords"@, 7);
    }
    assert(before("cc_set_passwords"@, "cc_snap"@)) by {
        reveal_strlit("cc_set_passwords");
        reveal_strlit("cc_snap");
        first_difference("cc_set_passwords"@, "cc_snap"@, 4);
    }
    assert(before("cc_snap"@, "cc_ssh"@)) by {
        reveal_strlit("cc_snap");
        reveal_strlit("cc_ssh");
        first_difference("cc_snap"@, "cc_ssh"@, 4);
    }
    assert(before("cc_ssh"@, "cc_ssh_authkey_fingerprints"@)) by {
        reveal_strlit("cc_ssh");
        reveal_strlit("cc_ssh_authkey_fingerprints");
        first_difference("cc_ssh"@, "cc_ssh_authkey_fingerprints"@, 6);
    }
    assert(before("cc_ssh_authkey_fingerprints"@, "cc_ssh_import_id"@)) by {
        reveal_strlit("cc_ssh_authkey_fingerprints");
        reveal_strlit("cc_ssh_import_id");
        first_difference("cc_ssh_authkey_fingerprints"@, "cc_ssh_import_id"@, 7);
    }
    assert(before("cc_ssh_import_id"@, "cc_timezone"@)) by {
        reveal_strlit("cc_ssh_import_id");
        reveal_strlit("cc_timezone");
        first_difference("cc_ssh_import_id"@, "cc_timezone"@, 3);
    }
    assert(before("cc_timezone"@, "cc_update_etc_hosts"@)) by {
        reveal_strlit("cc_timezone");
        reveal_strlit("cc_update_etc_hosts");
        first_difference("cc_timezone"@, "cc_update_etc_hosts"@, 3);
    }
    assert(before("cc_update_etc_hosts"@, "cc_update_hostname"@)) by {
        reveal_strlit("cc_update_etc_hosts");
        reveal_strlit("cc_update_hostname");
        first_difference("cc_update_etc_hosts"@, "cc_update_hostname"@, 10);
    }
    assert(before("cc_update_hostname"@, "cc_users_groups"@)) by {
        reveal_strlit("cc_update_hostname");
        reveal_strlit("cc_users_groups");
        first_difference("cc_update_hostname"@, "cc_users_groups"@, 4);
    }
    assert(before("cc_users_groups"@, "cc_write_files"@)) by {
        reveal_strlit("cc_users_groups");
        reveal_strlit("cc_write_files");
        first_difference("cc_users_groups"@, "cc_write_files"@, 3);
    }
    assert(before("cc_write_files"@, "cc_write_files_deferred"@)) by {
        reveal_strlit("cc_write_files");
        reveal_strlit("cc_write_files_deferred");
        first_difference("cc_write_files"@, "cc_write_files_deferred"@, 14);
    }
    assert forall|i: int| 0 <= i < list.len() - 1 implies before(#[trigger] list[i], list[i + 1]) by {}
    neighbours_make_order(list);
}

/// What is run for a module of that name, if there is one.
pub open spec fn handler_of(name: Seq<char>) -> Option<Handler> {
    if names().contains(name) {
        Some(handlers()[names().index_of(name)])
    } else {
        None
    }
}

/// What is run for a module of that name, if there is one.
pub fn handler(module_name: &str) -> (r: Option<Handler>)
    ensures
        r == handler_of(module_name@),
{
    let rows = table();
    let ghost list = names();
    proof {
        the_table_is_in_order();
    }
    let mut low: usize = 0;
    let mut high: usize = rows.len();
    while low < high
        invariant
            low <= high <= rows@.len(),
            list == names(),
            ordered(list),
            row_names(rows@) == list,
            row_handlers(rows@) == handlers(),
            list.len() == rows@.len(),
            forall|i: int| 0 <= i < low ==> list[i] != module_name@,
            forall|i: int| high <= i < list.len() ==> list[i] != module_name@,
        decreases high - low,
    {
        let middle: usize = low + (high - low) / 2;
        assert(list[middle as int] == rows@[middle as int].0@);
        if same(rows[middle].0, module_name) {
            proof {
                let at = list.index_of(module_name@);
                assert(list.contains(module_name@));
                if at != middle {
                    before_irreflexive(module_name@);
                }
                assert(row_handlers(rows@)[middle as int] == rows@[middle as int].1);
            }
            return Some(rows[middle].1);
        }
        if is_before(rows[middle].0, module_name) {
            proof {
                assert forall|i: int| 0 <= i <= middle implies list[i] != module_name@ by {
                    before_irreflexive(module_name@);
                    if i < middle {
                        assert(before(list[i], list[middle as int]));
                        before_transitive(list[i], list[middle as int], module_name@);
                    }
                }
            }
            low = middle + 1;
        } else {
            proof {
                before_total(list[middle as int], module_name@);
                assert forall|i: int| middle <= i < list.len() implies list[i] != module_name@ by {
                    before_irreflexive(module_name@);
                    if middle < i {
                        assert(before(list[middle as int], list[i]));
                        before_transitive(module_name@, list[middle as int], list[i]);
                    }
                }
            }
            high = middle;
        }
    }
    None
}

proof fn found_at(i: int)
    requires
        0 <= i < names().len(),
    ensures
        handler_of(names()[i]) == Some(handlers()[i]),
{
    the_table_is_in_order();
    let list = names();
    let name = list[i];
    assert(list.contains(name));
    let at = list.index_of(name);
    assert(list[at] == name);
    before_irreflexive(name);
    if at < i {
        assert(before(list[at], list[i]));
    } else if i < at {
        assert(before(list[i], list[at]));
    }
}

/// Each module is run by the handler of its own name.
pub proof fn each_module_has_its_handler()
    ensures
        handler_of("cc_ansible"@) == Some(Handler::Ansible),
        handler_of("cc_apt_configure"@) == Some(Handler::AptConfigure),
        handler_of("cc_apt_pipelining"@) == Some(Handler::AptPipelining),
        handler_of("cc_bootcmd"@) == Some(Handler::Bootcmd),
        handler_of("cc_ca_certs"@) == Some(Handler::CaCerts),
        handler_of("cc_chef"@) == Some(Handler::Chef),
        handler_of("cc_disk_setup"@) == Some(Handler::DiskSetup),
        handler_of("cc_final_message"@) == Some(Handler::FinalMessage),
        handler_of("cc_growpart"@) == Some(Handler::Growpart),
        handler_of("cc_keys_to_console"@) == Some(Handler::KeysToConsole),
        handler_of("cc_locale"@) == Some(Handler::Locale),
        handler_of("cc_mcollective"@) == Some(Handler::Mcollective),
        handler_of("cc_mounts"@) == Some(Handler::Mounts),
        handler_of("cc_package_update_upgrade_install"@) == Some(Handler::PackageUpdateUpgradeInstall),
        handler_of("cc_puppet"@) == Some(Handler::Puppet),
        handler_of("cc_resizefs"@) == Some(Handler::Resizefs),
        handler_of("cc_rsyslog"@) == Some(Handler::Rsyslog),
        handler_of("cc_runcmd"@) == Some(Handler::Runcmd),
        handler_of("cc_salt_minion"@) == Some(Handler::SaltMinion),
        handler_of("cc_scripts_per_boot"@) == Some(Handler::ScriptsPerBoot),
        handler_of("cc_scripts_per_instance"@) == Some(Handler::ScriptsPerInstance),
        handler_of("cc_scripts_per_once"@) == Some(Handler::ScriptsPerOnce),
        handler_of("cc_scripts_user"@) == Some(Handler::ScriptsUser),
        handler_of("cc_scripts_vendor"@) == Some(Handler::ScriptsVendor),
        handler_of("cc_seed_random"@) == Some(Handler::SeedRandom),
        handler_of("cc_set_hostname"@) == Some(Handler::SetHostname),
        handler_of("cc_set_passwords"@) == Some(Handler::SetPasswords),
        handler_of("cc_snap"@) == Some(Handler::Snap),
        handler_of("cc_ssh"@) == Some(Handler::Ssh),
        handler_of("cc_ssh_authkey_fingerprints"@) == Some(Handler::SshAuthkeyFingerprints),
        handler_of("cc_ssh_import_id"@) == Some(Handler::SshImportId),
        handler_of("cc_timezone"@) == Some(Handler::Timezone),
        handler_of("cc_update_etc_hosts"@) == Some(Handler::UpdateEtcHosts),
        handler_of("cc_update_hostname"@) == Some(Handler::UpdateHostname),
        handler_of("cc_users_groups"@) == Some(Handler::UsersGroups),
        handler_of("cc_write_files"@) == Some(Handler::WriteFiles),
        handler_of("cc_write_files_deferred"@) == Some(Handler::WriteFilesDeferred),
{
    found_at(0);
    found_at(1);
    found_at(2);
    found_at(3);
    found_at(4);
    found_at(5);
    found_at(6);
    found_at(7);
    found_at(8);
    found_at(9);
    found_at(10);
    found_at(11);
    found_at(12);
    found_at(13);
    found_at(14);
    found_at(15);
    found_at(16);
    found_at(17);
    found_at(18);
    found_at(19);
    found_at(20);
    found_at(21);
    found_at(22);
    found_at(23);
    found_at(24);
    found_at(25);
    found_at(26);
    found_at(27);
    found_at(28);
    found_at(29);
    found_at(30);
    found_at(31);
    found_at(32);
    found_at(33);
    found_at(34);
    found_at(35);
    found_at(36);
}

}
