//! The record of what an installation manages.
use vstd::prelude::*;

use crate::fsutil::now_unix;
use crate::paths::{joined, AppPaths};

verus! {

/// The installer's record of the DSH native web tool choice.
#[derive(Clone, Debug)]
pub struct NativeWebManifest {
    /// True once the installer has explicitly resolved the user's native-web choices.
    pub choice_recorded: bool,
    /// Preset copied to create the managed variant.
    pub source_preset_id: Option<String>,
    /// The owned user preset currently selected for new DSH sessions.
    pub managed_preset_id: Option<String>,
    /// DSH settings value that existed before the preset choice was managed.
    /// `None` means the `agent-presets.default` setting was absent.
    pub original_settings_default: Option<String>,
}

impl Default for NativeWebManifest {
    fn default() -> (res: NativeWebManifest)
        ensures
            !res.choice_recorded,
            res.source_preset_id is None,
            res.managed_preset_id is None,
            res.original_settings_default is None,
    {
        NativeWebManifest {
            choice_recorded: false,
            source_preset_id: None,
            managed_preset_id: None,
            original_settings_default: None,
        }
    }
}

impl NativeWebManifest {
    /// Forgets the managed preset, its source and the setting it replaced;
    /// the recorded choice stays.
    pub fn forget_preset(&mut self)
        ensures
            final(self).choice_recorded == old(self).choice_recorded,
            final(self).source_preset_id is None,
            final(self).managed_preset_id is None,
            final(self).original_settings_default is None,
    {
        self.source_preset_id = None;
        self.managed_preset_id = None;
        self.original_settings_default = None;
    }
}

/// What an installation created and owns.
#[derive(Clone, Debug)]
pub struct InstallManifest {
    pub install_id: String,
    pub app_version: String,
    pub hermes_profile: String,
    pub dsh_profile: String,
    pub server_name: String,
    pub binary_path: String,
    pub service_file: String,
    pub dsh_patch_file: String,
    pub dsh_backup: Option<String>,
    pub profile_owned: bool,
    pub installed_hermes: bool,
    pub native_web: NativeWebManifest,
    pub installed_at: u64,
    pub updated_at: u64,
}

impl InstallManifest {
    /// The record of a fresh installation, stamped with the current time.
    /// `app_version` is the running program's version.
    pub fn new(
        paths: &AppPaths,
        install_id: String,
        hermes_profile: String,
        dsh_profile: String,
        server_name: String,
        app_version: &str,
    ) -> (res: InstallManifest)
        ensures
            res.install_id@ == install_id@,
            res.app_version@ == app_version@,
            res.hermes_profile@ == hermes_profile@,
            res.dsh_profile@ == dsh_profile@,
            res.server_name@ == server_name@,
            res.dsh_patch_file@ == joined(paths.dsh_profile_dir_of(dsh_profile@), "cordis.patch.yml"@),
            res.binary_path@ == paths.binary_path@,
            res.service_file@ == paths.service_file@,
            res.dsh_backup is None,
            !res.profile_owned,
            !res.installed_hermes,
            !res.native_web.choice_recorded,
            res.native_web.source_preset_id is None,
            res.native_web.managed_preset_id is None,
            res.native_web.original_settings_default is None,
            res.installed_at == res.updated_at,
    {
        let now = now_unix();
        let dsh_patch_file = paths.dsh_patch_file(dsh_profile.as_str());
        InstallManifest {
            install_id,
            app_version: String::from_str(app_version),
            dsh_patch_file,
            binary_path: paths.binary_path.clone(),
            service_file: paths.service_file.clone(),
            hermes_profile,
            dsh_profile,
            server_name,
            dsh_backup: None,
            profile_owned: false,
            installed_hermes: false,
            native_web: NativeWebManifest::default(),
            installed_at: now,
            updated_at: now,
        }
    }

    /// Marks the record as written now by the program of version
    /// `app_version`; nothing else changes.
    pub fn stamp(&mut self, app_version: &str)
        ensures
            final(self).app_version@ == app_version@,
            final(self).install_id == old(self).install_id,
            final(self).hermes_profile == old(self).hermes_profile,
            final(self).dsh_profile == old(self).dsh_profile,
            final(self).server_name == old(self).server_name,
            final(self).binary_path == old(self).binary_path,
            final(self).service_file == old(self).service_file,
            final(self).dsh_patch_file == old(self).dsh_patch_file,
            final(self).dsh_backup == old(self).dsh_backup,
            final(self).profile_owned == old(self).profile_owned,
            final(self).installed_hermes == old(self).installed_hermes,
            final(self).native_web == old(self).native_web,
            final(self).installed_at == old(self).installed_at,
    {
        self.app_version = String::from_str(app_version);
        self.updated_at = now_unix();
    }
}

} // verus!
