//! Where the application, Hermes and DSH keep their files.
//!
//! Paths are held as strings and joined the way `PathBuf::join` joins them
//! on Unix.  The application reads the environment and hands the values in.
use vstd::prelude::*;

use crate::error::SearchError;

verus! {

pub const APP_NAME: &'static str = "hermes-search-agent";

pub const DEFAULT_HERMES_PROFILE: &'static str = "hsa-research";

pub const DEFAULT_DSH_PROFILE: &'static str = "web";

pub const SERVICE_NAME: &'static str = "hermes-search-agent.service";

pub const OWNER_MARKER: &'static str = ".hermes-search-agent-owned";

/// `base` joined with `part`: an absolute `part` replaces `base`; otherwise a
/// separator is put between them unless `base` is empty or already ends in one.
pub open spec fn joined(base: Seq<char>, part: Seq<char>) -> Seq<char> {
    if part.len() > 0 && part[0] == '/' {
        part
    } else if base.len() == 0 || base.last() == '/' {
        base + part
    } else {
        base + "/"@ + part
    }
}

/// `base` joined with `part` (`Path::join`).
pub fn join_path(base: &str, part: &str) -> (res: String)
    ensures
        res@ == joined(base@, part@),
{
    let plen = part.unicode_len();
    if plen > 0 && part.get_char(0) == '/' {
        return String::from_str(part);
    }
    let blen = base.unicode_len();
    let mut res = String::from_str(base);
    if blen > 0 && base.get_char(blen - 1) != '/' {
        res.append("/");
    }
    res.append(part);
    res
}

/// A value given with `~` or `~/...` for the home directory.
pub open spec fn expanded_home(raw: Seq<char>, home: Seq<char>) -> Seq<char> {
    if raw == "~"@ {
        home
    } else if raw.len() >= 2 && raw[0] == '~' && raw[1] == '/' {
        joined(home, raw.subrange(2, raw.len() as int))
    } else {
        raw
    }
}

/// Expands a leading `~` to the home directory.
pub fn expand_home(raw: &str, home: &str) -> (res: String)
    ensures
        res@ == expanded_home(raw@, home@),
{
    proof {
        reveal_strlit("~");
    }
    let n = raw.unicode_len();
    if n == 1 && raw.get_char(0) == '~' {
        assert(raw@ =~= "~"@);
        return String::from_str(home);
    }
    if n >= 2 && raw.get_char(0) == '~' && raw.get_char(1) == '/' {
        assert(raw@ != "~"@);
        return join_path(home, raw.substring_char(2, n));
    }
    assert(n == 1 ==> raw@ != "~"@ || raw@[0] == '~');
    String::from_str(raw)
}

/// A directory named by an environment variable: a value that is not blank
/// (with `~` expanded), else `default`.
pub open spec fn env_path_of(value: Option<Seq<char>>, home: Seq<char>, default: Seq<char>) -> Seq<char> {
    match value {
        Some(raw) => if crate::text::is_blank(raw) {
            default
        } else {
            expanded_home(raw, home)
        },
        None => default,
    }
}

/// The directory named by an environment variable's value, or `default`.
pub fn env_path(value: Option<&str>, home: &str, default: String) -> (res: String)
    ensures
        res@ == env_path_of(crate::text::opt_str_view(value), home@, default@),
{
    match value {
        Some(raw) => if crate::text::blank(raw) {
            default
        } else {
            expand_home(raw, home)
        },
        None => default,
    }
}

/// A root given by an XDG variable when it is set and not empty, else `fallback`.
pub open spec fn xdg_root(value: Option<Seq<char>>, fallback: Seq<char>) -> Seq<char> {
    match value {
        Some(v) => if v.len() > 0 {
            v
        } else {
            fallback
        },
        None => fallback,
    }
}

/// The files and directories the application manages.
#[derive(Clone, Debug)]
pub struct AppPaths {
    pub home: String,
    pub config_dir: String,
    pub state_dir: String,
    pub binary_path: String,
    pub config_file: String,
    pub secrets_file: String,
    pub manifest_file: String,
    pub backups_dir: String,
    pub systemd_user_dir: String,
    pub service_file: String,
    pub hermes_home: String,
    pub dsh_home: String,
}

/// The environment values that decide where things live.
pub struct PathEnv {
    pub home: Option<String>,
    pub xdg_config_home: Option<String>,
    pub xdg_state_home: Option<String>,
    pub hermes_home: Option<String>,
    pub dsh_home: Option<String>,
}

/// `p` holds the layout that the environment `env` gives for home `h`.
pub open spec fn discovered(p: AppPaths, env: PathEnv, h: Seq<char>) -> bool {
    let config_root = xdg_root(crate::text::opt_string_view(env.xdg_config_home), joined(h, ".config"@));
    let state_root = xdg_root(crate::text::opt_string_view(env.xdg_state_home), joined(h, ".local/state"@));
    &&& p.home@ == h
    &&& p.config_dir@ == joined(config_root, APP_NAME@)
    &&& p.state_dir@ == joined(state_root, APP_NAME@)
    &&& p.systemd_user_dir@ == joined(config_root, "systemd/user"@)
    &&& p.hermes_home@ == env_path_of(crate::text::opt_string_view(env.hermes_home), h, joined(h, ".hermes"@))
    &&& p.dsh_home@ == env_path_of(crate::text::opt_string_view(env.dsh_home), h, joined(h, ".dsh"@))
    &&& p.binary_path@ == joined(joined(h, ".local/bin"@), APP_NAME@)
    &&& p.config_file@ == joined(p.config_dir@, "config.toml"@)
    &&& p.secrets_file@ == joined(p.config_dir@, "secrets.env"@)
    &&& p.manifest_file@ == joined(p.state_dir@, "install.json"@)
    &&& p.backups_dir@ == joined(p.state_dir@, "backups"@)
    &&& p.service_file@ == joined(p.systemd_user_dir@, SERVICE_NAME@)
}

impl AppPaths {
    /// The layout for the given environment.  `HOME` must be set and not
    /// empty; `XDG_CONFIG_HOME` and `XDG_STATE_HOME` count when not empty,
    /// `HERMES_HOME` and `DSH_HOME` when not blank.
    pub fn discover(env: &PathEnv) -> (res: Result<AppPaths, SearchError>)
        ensures
            match env.home {
                Some(h) if h@.len() > 0 => res matches Ok(p) && discovered(p, *env, h@),
                _ => res matches Err(SearchError::Config(m)) && m@ == "HOME is not set"@,
            },
    {
        let home = match &env.home {
            Some(h) if h.unicode_len() > 0 => h.clone(),
            _ => return Err(SearchError::Config(String::from_str("HOME is not set"))),
        };
        let config_root = match &env.xdg_config_home {
            Some(v) if v.unicode_len() > 0 => v.clone(),
            _ => join_path(home.as_str(), ".config"),
        };
        let state_root = match &env.xdg_state_home {
            Some(v) if v.unicode_len() > 0 => v.clone(),
            _ => join_path(home.as_str(), ".local/state"),
        };
        let config_dir = join_path(config_root.as_str(), APP_NAME);
        let state_dir = join_path(state_root.as_str(), APP_NAME);
        let systemd_user_dir = join_path(config_root.as_str(), "systemd/user");
        let hermes_default = join_path(home.as_str(), ".hermes");
        let hermes_home = match &env.hermes_home {
            Some(v) => env_path(Some(v.as_str()), home.as_str(), hermes_default),
            None => env_path(None, home.as_str(), hermes_default),
        };
        let dsh_default = join_path(home.as_str(), ".dsh");
        let dsh_home = match &env.dsh_home {
            Some(v) => env_path(Some(v.as_str()), home.as_str(), dsh_default),
            None => env_path(None, home.as_str(), dsh_default),
        };
        let bin_dir = join_path(home.as_str(), ".local/bin");
        let binary_path = join_path(bin_dir.as_str(), APP_NAME);
        let config_file = join_path(config_dir.as_str(), "config.toml");
        let secrets_file = join_path(config_dir.as_str(), "secrets.env");
        let manifest_file = join_path(state_dir.as_str(), "install.json");
        let backups_dir = join_path(state_dir.as_str(), "backups");
        let service_file = join_path(systemd_user_dir.as_str(), SERVICE_NAME);
        Ok(AppPaths {
            home,
            config_dir,
            state_dir,
            binary_path,
            config_file,
            secrets_file,
            manifest_file,
            backups_dir,
            systemd_user_dir,
            service_file,
            hermes_home,
            dsh_home,
        })
    }

    pub open spec fn profile_dir_of(self, profile: Seq<char>) -> Seq<char> {
        joined(joined(self.hermes_home@, "profiles"@), profile)
    }

    pub open spec fn dsh_profile_dir_of(self, profile: Seq<char>) -> Seq<char> {
        joined(joined(self.dsh_home@, "profiles"@), profile)
    }

    pub open spec fn user_presets_dir_of(self) -> Seq<char> {
        joined(self.dsh_home@, ".agent-presets"@)
    }

    /// `<hermes home>/profiles/<profile>`.
    pub fn hermes_profile_dir(&self, profile: &str) -> (res: String)
        ensures
            res@ == self.profile_dir_of(profile@),
    {
        let profiles = join_path(self.hermes_home.as_str(), "profiles");
        join_path(profiles.as_str(), profile)
    }

    /// The ownership marker inside a Hermes profile directory.
    pub fn hermes_profile_marker(&self, profile: &str) -> (res: String)
        ensures
            res@ == joined(self.profile_dir_of(profile@), OWNER_MARKER@),
    {
        let dir = self.hermes_profile_dir(profile);
        join_path(dir.as_str(), OWNER_MARKER)
    }

    /// `<dsh home>/profiles/<profile>`.
    pub fn dsh_profile_dir(&self, profile: &str) -> (res: String)
        ensures
            res@ == self.dsh_profile_dir_of(profile@),
    {
        let profiles = join_path(self.dsh_home.as_str(), "profiles");
        join_path(profiles.as_str(), profile)
    }

    /// The DSH composition patch of a profile.
    pub fn dsh_patch_file(&self, profile: &str) -> (res: String)
        ensures
            res@ == joined(self.dsh_profile_dir_of(profile@), "cordis.patch.yml"@),
    {
        let dir = self.dsh_profile_dir(profile);
        join_path(dir.as_str(), "cordis.patch.yml")
    }

    /// DSH's user settings file.
    pub fn dsh_settings_file(&self) -> (res: String)
        ensures
            res@ == joined(self.dsh_home@, "settings.yaml"@),
    {
        join_path(self.dsh_home.as_str(), "settings.yaml")
    }

    /// The directory of DSH's user presets.
    pub fn dsh_user_presets_dir(&self) -> (res: String)
        ensures
            res@ == self.user_presets_dir_of(),
    {
        join_path(self.dsh_home.as_str(), ".agent-presets")
    }

    /// The directory of one DSH user preset.
    pub fn dsh_user_preset_dir(&self, preset: &str) -> (res: String)
        ensures
            res@ == joined(self.user_presets_dir_of(), preset@),
    {
        let dir = self.dsh_user_presets_dir();
        join_path(dir.as_str(), preset)
    }
}

} // verus!
