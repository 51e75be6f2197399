//! The user service that runs the MCP server.
//!
//! This module says what the unit file holds and which `systemctl --user`
//! commands install, restart, remove and query the service; the application
//! writes the file and runs the commands.
use vstd::prelude::*;

use crate::fsutil::FileWrite;
use crate::paths::{AppPaths, SERVICE_NAME};
use crate::process::{command_args, ProcessOutput};
use crate::text;

verus! {

/// `s` with every space written as `\x20`, as systemd unit files need.
pub open spec fn escaped(s: Seq<char>) -> Seq<char>
    decreases s.len(),
{
    if s.len() == 0 {
        Seq::empty()
    } else if s.last() == ' ' {
        escaped(s.drop_last()) + seq!['\\', 'x', '2', '0']
    } else {
        escaped(s.drop_last()).push(s.last())
    }
}

/// A path with its spaces escaped for a unit file.
pub fn escape(path: &str) -> (res: String)
    ensures
        res@ == escaped(path@),
{
    let cs = text::chars_of(path);
    let mut out: Vec<char> = Vec::new();
    let mut i: usize = 0;
    while i < cs.len()
        invariant
            i <= cs@.len(),
            cs@ == path@,
            out@ == escaped(cs@.subrange(0, i as int)),
        decreases cs.len() - i,
    {
        assert(cs@.subrange(0, i + 1).drop_last() =~= cs@.subrange(0, i as int));
        if cs[i] == ' ' {
            out.push('\\');
            out.push('x');
            out.push('2');
            out.push('0');
        } else {
            out.push(cs[i]);
        }
        i = i + 1;
    }
    assert(cs@.subrange(0, cs@.len() as int) =~= cs@);
    text::string_from_chars(&out)
}

/// The unit file of the MCP service for a Hermes profile.
pub open spec fn unit_of(secrets_file: Seq<char>, binary_path: Seq<char>, hermes_profile: Seq<char>) -> Seq<char> {
    "[Unit]\nDescription=Hermes Search Agent MCP\nAfter=network-online.target hermes-gateway-"@ + hermes_profile
        + ".service\nWants=network-online.target\n\n[Service]\nType=simple\nEnvironmentFile="@ + escaped(secrets_file)
        + "\nExecStart="@ + escaped(binary_path)
        + " serve\nRestart=on-failure\nRestartSec=2\nNoNewPrivileges=true\nPrivateTmp=true\n\n[Install]\nWantedBy=default.target\n"@
}

/// The unit file: started after the network and the profile's Hermes
/// gateway, reading the secrets file, restarted on failure.
pub fn unit_text(paths: &AppPaths, hermes_profile: &str) -> (res: String)
    ensures
        res@ == unit_of(paths.secrets_file@, paths.binary_path@, hermes_profile@),
{
    let mut s = String::from_str(
        "[Unit]\nDescription=Hermes Search Agent MCP\nAfter=network-online.target hermes-gateway-",
    );
    s.append(hermes_profile);
    s.append(".service\nWants=network-online.target\n\n[Service]\nType=simple\nEnvironmentFile=");
    let secrets = escape(paths.secrets_file.as_str());
    s.append(secrets.as_str());
    s.append("\nExecStart=");
    let binary = escape(paths.binary_path.as_str());
    s.append(binary.as_str());
    s.append(
        " serve\nRestart=on-failure\nRestartSec=2\nNoNewPrivileges=true\nPrivateTmp=true\n\n[Install]\nWantedBy=default.target\n",
    );
    s
}

/// Installing the service: the unit file, then `daemon-reload` and
/// `enable --now`, each of which must succeed.
pub struct ServiceInstall {
    pub unit: FileWrite,
    pub reload: Vec<String>,
    pub enable: Vec<String>,
}

pub open spec fn reload_args() -> Seq<Seq<char>> {
    seq!["--user"@, "daemon-reload"@]
}

/// What installing the service for a Hermes profile writes and runs.
pub fn install(paths: &AppPaths, hermes_profile: &str) -> (res: ServiceInstall)
    ensures
        res.unit.path@ == paths.service_file@,
        res.unit.contents@ == unit_of(paths.secrets_file@, paths.binary_path@, hermes_profile@),
        res.unit.mode == 0o644,
        text::string_views(res.reload@) == reload_args(),
        text::string_views(res.enable@) == seq!["--user"@, "enable"@, "--now"@, SERVICE_NAME@],
{
    let unit = FileWrite { path: paths.service_file.clone(), contents: unit_text(paths, hermes_profile), mode: 0o644 };
    let reload = command_args(vec!["--user", "daemon-reload"]);
    let enable = command_args(vec!["--user", "enable", "--now", SERVICE_NAME]);
    ServiceInstall { unit, reload, enable }
}

/// Restarting the service: `daemon-reload`, then `restart`, each of which
/// must succeed.
pub struct ServiceRestart {
    pub reload: Vec<String>,
    pub restart: Vec<String>,
}

/// The commands that restart the service.
pub fn restart() -> (res: ServiceRestart)
    ensures
        text::string_views(res.reload@) == reload_args(),
        text::string_views(res.restart@) == seq!["--user"@, "restart"@, SERVICE_NAME@],
{
    ServiceRestart {
        reload: command_args(vec!["--user", "daemon-reload"]),
        restart: command_args(vec!["--user", "restart", SERVICE_NAME]),
    }
}

/// Removing the service: `disable --now` (its outcome ignored), the unit
/// file removed, then `daemon-reload` (its outcome ignored).  Without
/// `systemctl` only the file is removed.
pub struct ServiceRemoval {
    pub disable: Vec<String>,
    pub unit_file: String,
    pub reload: Vec<String>,
}

/// What removing the service runs and deletes.
pub fn uninstall(paths: &AppPaths) -> (res: ServiceRemoval)
    ensures
        text::string_views(res.disable@) == seq!["--user"@, "disable"@, "--now"@, SERVICE_NAME@],
        res.unit_file@ == paths.service_file@,
        text::string_views(res.reload@) == reload_args(),
{
    ServiceRemoval {
        disable: command_args(vec!["--user", "disable", "--now", SERVICE_NAME]),
        unit_file: paths.service_file.clone(),
        reload: command_args(vec!["--user", "daemon-reload"]),
    }
}

/// The `systemctl` arguments that ask whether a unit is active.
pub fn is_active_command(service: &str) -> (res: Vec<String>)
    ensures
        text::string_views(res@) == seq!["--user"@, "is-active"@, "--quiet"@, service@],
{
    command_args(vec!["--user", "is-active", "--quiet", service])
}

/// A unit is active when the query ran and exited with status zero; a
/// missing `systemctl` or a query that could not run counts as inactive.
pub fn is_active(outcome: Option<&ProcessOutput>) -> (res: bool)
    ensures
        res == (outcome matches Some(o) && o.code == Some(0i32)),
{
    match outcome {
        Some(o) => o.success(),
        None => false,
    }
}

} // verus!
