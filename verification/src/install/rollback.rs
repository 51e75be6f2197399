//! Undoing a failed installation.
use vstd::prelude::*;

use crate::paths::{joined, AppPaths, OWNER_MARKER};
use crate::text;

verus! {

/// The files an installation may change, in the order a rollback puts
/// them back: DSH's settings and profile patch, the research profile's
/// marker, environment and configuration, the service unit, the installed
/// binary, the installation record, the secrets and the configuration.
pub open spec fn snapshot_list(paths: AppPaths, profile: Seq<char>, dsh_profile: Seq<char>) -> Seq<Seq<char>> {
    let profile_dir = paths.profile_dir_of(profile);
    seq![
        joined(paths.dsh_home@, "settings.yaml"@),
        joined(paths.dsh_profile_dir_of(dsh_profile), "cordis.patch.yml"@),
        joined(profile_dir, OWNER_MARKER@),
        joined(profile_dir, ".env"@),
        joined(profile_dir, "config.yaml"@),
        paths.service_file@,
        paths.binary_path@,
        paths.manifest_file@,
        paths.secrets_file@,
        paths.config_file@,
    ]
}

/// The files to capture before installing, in restore order.
pub fn snapshot_paths(paths: &AppPaths, profile: &str, dsh_profile: &str) -> (res: Vec<String>)
    ensures
        text::string_views(res@) == snapshot_list(*paths, profile@, dsh_profile@),
{
    let profile_dir = paths.hermes_profile_dir(profile);
    let mut res: Vec<String> = Vec::new();
    res.push(paths.dsh_settings_file());
    res.push(paths.dsh_patch_file(dsh_profile));
    res.push(crate::paths::join_path(profile_dir.as_str(), OWNER_MARKER));
    res.push(crate::paths::join_path(profile_dir.as_str(), ".env"));
    res.push(crate::paths::join_path(profile_dir.as_str(), "config.yaml"));
    res.push(paths.service_file.clone());
    res.push(paths.binary_path.clone());
    res.push(paths.manifest_file.clone());
    res.push(paths.secrets_file.clone());
    res.push(paths.config_file.clone());
    assert(text::string_views(res@) =~= snapshot_list(*paths, profile@, dsh_profile@));
    res
}

/// What a rollback does besides putting the files back.
#[derive(Debug, PartialEq, Eq, Structural)]
pub struct RollbackPlan {
    /// Delete the research profile this installation created.
    pub delete_profile: bool,
    /// Reload the user's systemd units once the old unit file is back.
    pub reload_service: bool,
    /// Start the service again, as it was running before.
    pub restart_service: bool,
}

/// The rollback of a failed installation: a research profile that did not
/// exist before is deleted when Hermes can be run and the profile carries
/// this installation's marker; a service unit that existed before is
/// reloaded, and started again when it was running.
pub fn rollback_plan(
    profile_existed: bool,
    hermes_found: bool,
    marker_exists: bool,
    service_existed: bool,
    systemctl_found: bool,
    service_was_active: bool,
) -> (res: RollbackPlan)
    ensures
        res.delete_profile == (!profile_existed && hermes_found && marker_exists),
        res.reload_service == (service_existed && systemctl_found),
        res.restart_service == (service_existed && systemctl_found && service_was_active),
{
    RollbackPlan {
        delete_profile: !profile_existed && hermes_found && marker_exists,
        reload_service: service_existed && systemctl_found,
        restart_service: service_existed && systemctl_found && service_was_active,
    }
}

} // verus!
