//! The checks made before anything is installed.
//!
//! The application probes the machine (which commands exist, whether the
//! user's systemd answers, whether the ports are free, what is on disk) and
//! hands the findings in; this module decides, in a fixed order, whether the
//! installation may go ahead.
use vstd::prelude::*;

use crate::error::SearchError;
use crate::install::manifest::InstallManifest;
use crate::paths::{AppPaths, DEFAULT_HERMES_PROFILE};
use crate::process::ProcessOutput;

verus! {

/// What the installation found.
#[derive(Debug)]
pub struct Preflight {
    pub dsh: String,
    pub dsh_version: String,
    pub hermes: Option<String>,
    pub existing: Option<InstallManifest>,
}

/// What the application found out about the machine.
pub struct PreflightProbe {
    /// The machine runs Linux.
    pub is_linux: bool,
    /// The outcome of `systemctl --user show-environment`; `None` when
    /// `systemctl` was not found.
    pub systemd: Option<Result<ProcessOutput, SearchError>>,
    /// `dsh`'s path and the outcome of `dsh --version`; `None` when not found.
    pub dsh: Option<(String, Result<ProcessOutput, SearchError>)>,
    /// The installation record, if any.
    pub existing: Result<Option<InstallManifest>, SearchError>,
    /// `hermes`'s path; `None` when not found.
    pub hermes: Option<String>,
    /// Whether `bash`, `curl` and `git` were found.
    pub bash: bool,
    pub curl: bool,
    pub git: bool,
    /// Why the Hermes API port could not be bound; `None` when it is free.
    pub api_port_error: Option<String>,
    /// Why the MCP port could not be bound; `None` when it is free.
    pub mcp_port_error: Option<String>,
    /// The research profile's directory and its ownership marker exist.
    pub profile_dir_exists: bool,
    pub profile_marker_exists: bool,
    /// The DSH profile's path exists, and is a directory.
    pub dsh_profile_exists: bool,
    pub dsh_profile_is_dir: bool,
}

/// How the checks end.
pub enum PreflightCheck {
    Ready,
    Refused(Seq<char>),
    SystemdUnreadable,
    DshUnreadable,
    ManifestUnreadable,
}

/// The checks, in order: Linux; `systemctl` present and the user manager
/// answering; `dsh` present and reporting its version; the record readable;
/// without Hermes, the tools to install it; on a first installation, free
/// ports; an existing research profile owned; the DSH profile path a directory.
pub open spec fn preflight_check(paths: AppPaths, dsh_profile: Seq<char>, p: PreflightProbe) -> PreflightCheck {
    if !p.is_linux {
        PreflightCheck::Refused("the managed installer currently supports Linux only"@)
    } else {
        match p.systemd {
            None => PreflightCheck::Refused("systemctl was not found"@),
            Some(Err(_)) => PreflightCheck::SystemdUnreadable,
            Some(Ok(o)) => if o.code != Some(0i32) {
                PreflightCheck::Refused("systemd user manager is unavailable: "@ + o.stderr@)
            } else {
                match p.dsh {
                    None => PreflightCheck::Refused("dsh was not found in PATH or ~/.local/bin"@),
                    Some((_, Err(_))) => PreflightCheck::DshUnreadable,
                    Some((_, Ok(v))) => if v.code != Some(0i32) {
                        PreflightCheck::Refused("dsh --version failed: "@ + v.stderr@)
                    } else {
                        match p.existing {
                            Err(_) => PreflightCheck::ManifestUnreadable,
                            Ok(existing) => later_checks(paths, dsh_profile, p, existing is None),
                        }
                    },
                }
            },
        }
    }
}

/// The checks after the record has been read.
pub open spec fn later_checks(paths: AppPaths, dsh_profile: Seq<char>, p: PreflightProbe, first: bool) -> PreflightCheck {
    if p.hermes is None && !p.bash {
        PreflightCheck::Refused("bash is required to install Hermes"@)
    } else if p.hermes is None && !p.curl {
        PreflightCheck::Refused("curl is required to install Hermes"@)
    } else if p.hermes is None && !p.git {
        PreflightCheck::Refused("git is required to install Hermes"@)
    } else if first && p.api_port_error is Some {
        PreflightCheck::Refused(
            "Hermes research API port 127.0.0.1:8643 is already in use: "@ + p.api_port_error->0@,
        )
    } else if first && p.mcp_port_error is Some {
        PreflightCheck::Refused("research MCP port 127.0.0.1:8932 is already in use: "@ + p.mcp_port_error->0@)
    } else if p.profile_dir_exists && first && !p.profile_marker_exists {
        PreflightCheck::Refused(
            "Hermes profile '"@ + paths.profile_dir_of(DEFAULT_HERMES_PROFILE@)
                + "' already exists but is not owned by this application"@,
        )
    } else if p.dsh_profile_exists && !p.dsh_profile_is_dir {
        PreflightCheck::Refused("DSH profile path is not a directory: "@ + paths.dsh_profile_dir_of(dsh_profile))
    } else {
        PreflightCheck::Ready
    }
}

fn refuse(message: &str) -> (res: Result<Preflight, SearchError>)
    ensures
        res matches Err(SearchError::Install(m)) && m@ == message@,
{
    Err(SearchError::Install(String::from_str(message)))
}

fn refuse_with(message: &str, detail: &str) -> (res: Result<Preflight, SearchError>)
    ensures
        res matches Err(SearchError::Install(m)) && m@ == message@ + detail@,
{
    let mut m = String::from_str(message);
    m.append(detail);
    Err(SearchError::Install(m))
}

/// Decides whether the installation may go ahead, for the DSH profile
/// `dsh_profile`, from what the application found.
pub fn run(paths: &AppPaths, dsh_profile: &str, probe: PreflightProbe) -> (res: Result<Preflight, SearchError>)
    ensures
        match preflight_check(*paths, dsh_profile@, probe) {
            PreflightCheck::Ready => res matches Ok(p) && probe.dsh matches Some((d, Ok(v))) && p.dsh@ == d@
                && p.dsh_version@ == v.stdout@ && p.hermes == probe.hermes && probe.existing == Ok::<
                Option<InstallManifest>,
                SearchError,
            >(p.existing),
            PreflightCheck::Refused(m) => res matches Err(SearchError::Install(x)) && x@ == m,
            PreflightCheck::SystemdUnreadable => probe.systemd matches Some(Err(e)) && res == Err::<
                Preflight,
                SearchError,
            >(e),
            PreflightCheck::DshUnreadable => probe.dsh matches Some((_, Err(e))) && res == Err::<
                Preflight,
                SearchError,
            >(e),
            PreflightCheck::ManifestUnreadable => probe.existing matches Err(e) && res == Err::<
                Preflight,
                SearchError,
            >(e),
        },
{
    let ghost probe_v = probe;
    let PreflightProbe {
        is_linux,
        systemd,
        dsh,
        existing,
        hermes,
        bash,
        curl,
        git,
        api_port_error,
        mcp_port_error,
        profile_dir_exists,
        profile_marker_exists,
        dsh_profile_exists,
        dsh_profile_is_dir,
    } = probe;
    if !is_linux {
        return refuse("the managed installer currently supports Linux only");
    }
    let systemd = match systemd {
        None => return refuse("systemctl was not found"),
        Some(r) => r?,
    };
    if !systemd.success() {
        return refuse_with("systemd user manager is unavailable: ", systemd.stderr.as_str());
    }
    let (dsh, version) = match dsh {
        None => return refuse("dsh was not found in PATH or ~/.local/bin"),
        Some((d, r)) => (d, r?),
    };
    if !version.success() {
        return refuse_with("dsh --version failed: ", version.stderr.as_str());
    }
    let existing = existing?;
    let first = existing.is_none();
    if hermes.is_none() {
        if !bash {
            return refuse("bash is required to install Hermes");
        }
        if !curl {
            return refuse("curl is required to install Hermes");
        }
        if !git {
            return refuse("git is required to install Hermes");
        }
    }
    if first {
        if let Some(e) = &api_port_error {
            return refuse_with("Hermes research API port 127.0.0.1:8643 is already in use: ", e.as_str());
        }
        if let Some(e) = &mcp_port_error {
            return refuse_with("research MCP port 127.0.0.1:8932 is already in use: ", e.as_str());
        }
    }
    if profile_dir_exists && first && !profile_marker_exists {
        let dir = paths.hermes_profile_dir(DEFAULT_HERMES_PROFILE);
        let mut m = String::from_str("Hermes profile '");
        m.append(dir.as_str());
        m.append("' already exists but is not owned by this application");
        return Err(SearchError::Install(m));
    }
    if dsh_profile_exists && !dsh_profile_is_dir {
        let dir = paths.dsh_profile_dir(dsh_profile);
        return refuse_with("DSH profile path is not a directory: ", dir.as_str());
    }
    Ok(Preflight { dsh, dsh_version: version.stdout, hermes, existing })
}

} // verus!
