//! The dedicated Hermes research profile.
//!
//! This module holds the profile configuration edits, the ownership checks
//! and the Hermes commands; the application runs the commands and reads
//! and writes the files.
use vstd::prelude::*;

use crate::error::SearchError;
use crate::install::manifest::InstallManifest;
use crate::install::secrets::{merged_env, profile_env_merge};
use crate::paths::AppPaths;
use crate::process::{command_args, literal_views};
use crate::text;
use crate::yaml::{
    self, as_mapping, as_str, get, index_of, insert, key, retag, tags_of, view_entries, Yaml, YamlV,
};

verus! {

pub const TESTED_HERMES_REF: &'static str = "v2026.8.31";

pub const TESTED_HERMES_VERSION: &'static str = "0.21.0";

pub const INSTALLER_URL: &'static str = "https://raw.githubusercontent.com/NousResearch/hermes-agent/v2026.8.31/scripts/install.sh";

pub const PROFILE_DESCRIPTION: &'static str = "Dedicated evidence-driven web research agent managed by Hermes Search Agent.";

// ---------------------------------------------------------------------------
// The profile's config.yaml
// ---------------------------------------------------------------------------

/// The entries once key `k` holds a mapping: kept when it already does
/// (under any tags), else set to an empty mapping.
pub open spec fn entries_with_mapping(es: Seq<(YamlV, YamlV)>, k: YamlV) -> Seq<(YamlV, YamlV)> {
    match get(es, k) {
        Some(v) => if as_mapping(v) is Some {
            es
        } else {
            insert(es, k, YamlV::Mapping(Seq::empty()))
        },
        None => insert(es, k, YamlV::Mapping(Seq::empty())),
    }
}

/// The mapping held by key `k` once it holds one.
pub open spec fn mapping_at(es: Seq<(YamlV, YamlV)>, k: YamlV) -> Seq<(YamlV, YamlV)> {
    as_mapping(get(entries_with_mapping(es, k), k)->0)->0
}

/// The entries with the mapping held by key `k` replaced by `m` (its tags kept).
pub open spec fn with_mapping_at(es: Seq<(YamlV, YamlV)>, k: YamlV, m: Seq<(YamlV, YamlV)>) -> Seq<(YamlV, YamlV)> {
    let es1 = entries_with_mapping(es, k);
    insert(es1, k, retag(get(es1, k)->0, YamlV::Mapping(m)))
}

/// `{enabled: b}`.
pub open spec fn enabled_entry(b: bool) -> YamlV {
    YamlV::Mapping(seq![(key("enabled"@), YamlV::Bool(b))])
}

/// The messaging platforms the research profile must not serve.
pub open spec fn platform_names() -> Seq<Seq<char>> {
    seq![
        "telegram"@, "discord"@, "whatsapp"@, "whatsapp_cloud"@, "slack"@, "signal"@, "mattermost"@, "matrix"@,
        "homeassistant"@, "email"@, "sms"@, "dingtalk"@, "webhook"@, "msgraph_webhook"@, "feishu"@, "wecom"@,
        "wecom_callback"@, "weixin"@, "bluebubbles"@, "qqbot"@, "yuanbao"@, "relay"@,
    ]
}

/// The platform entries with each of `names` disabled, in order.
pub open spec fn with_platforms_disabled(m: Seq<(YamlV, YamlV)>, names: Seq<Seq<char>>) -> Seq<(YamlV, YamlV)>
    decreases names.len(),
{
    if names.len() == 0 {
        m
    } else {
        with_platforms_disabled(insert(m, key(names[0]), enabled_entry(false)), names.drop_first())
    }
}

/// `{api_server: [web, browser]}`.
pub open spec fn toolsets() -> YamlV {
    YamlV::Mapping(seq![(key("api_server"@), YamlV::Sequence(seq![YamlV::Str("web"@), YamlV::Str("browser"@)]))])
}

/// The profile configuration's entries after the research settings: the API
/// server's toolsets, the web backends, a gateway that serves this profile
/// alone, and every platform but the API server disabled.
pub open spec fn profile_entries(es: Seq<(YamlV, YamlV)>) -> Seq<(YamlV, YamlV)> {
    let e1 = insert(es, key("platform_toolsets"@), toolsets());
    let web = key("web"@);
    let e2 = with_mapping_at(
        e1,
        web,
        insert(insert(mapping_at(e1, web), key("search_backend"@), YamlV::Str("ddgs"@)), key("extract_backend"@), YamlV::Str("firecrawl"@)),
    );
    let gateway = key("gateway"@);
    let e3 = with_mapping_at(e2, gateway, insert(mapping_at(e2, gateway), key("multiplex_profiles"@), YamlV::Bool(false)));
    let platforms = key("platforms"@);
    with_mapping_at(
        e3,
        platforms,
        insert(with_platforms_disabled(mapping_at(e3, platforms), platform_names()), key("api_server"@), enabled_entry(true)),
    )
}

/// The profile configuration after the research settings; a missing or
/// unreadable document counts as an empty mapping.
pub open spec fn configured_profile(root: Option<YamlV>, path: Seq<char>) -> Result<YamlV, Seq<char>> {
    let r = match root {
        Some(v) => v,
        None => YamlV::Mapping(Seq::empty()),
    };
    match as_mapping(r) {
        None => Err("Hermes profile config is not a mapping: "@ + path),
        Some(es) => Ok(retag(r, YamlV::Mapping(profile_entries(es)))),
    }
}

/// Takes out the mapping held by key `name`, first making it an empty
/// mapping when it holds none.
fn open_entry(es: &mut Vec<(Yaml, Yaml)>, name: &str) -> (res: (usize, Vec<String>, Vec<(Yaml, Yaml)>))
    ensures
        ({
            let es1 = entries_with_mapping(view_entries(old(es)@), key(name@));
            &&& res.0 < final(es)@.len()
            &&& index_of(es1, key(name@)) == Some(res.0 as int)
            &&& view_entries(final(es)@) == es1.update(res.0 as int, (es1[res.0 as int].0, YamlV::Null))
            &&& text::string_views(res.1@) == tags_of(es1[res.0 as int].1)
            &&& as_mapping(es1[res.0 as int].1) == Some(view_entries(res.2@))
        }),
{
    let ghost es0 = view_entries(es@);
    let ghost k = key(name@);
    let needs = match yaml::find_key(es, name) {
        Some(i) => yaml::mapping_of(&es[i].1).is_none(),
        None => true,
    };
    proof {
        yaml::lemma_view_entries(es@);
        yaml::lemma_index_of_none(es0, k);
    }
    if needs {
        yaml::insert_entry(es, name, yaml::empty_mapping());
    }
    let ghost es1 = view_entries(es@);
    proof {
        yaml::lemma_get_insert(es0, k, YamlV::Mapping(Seq::empty()));
        assert(es1 == entries_with_mapping(es0, k));
    }
    let idx = yaml::find_key(es, name).unwrap();
    proof {
        yaml::lemma_index_of_none(es1, k);
        assert(as_mapping(es1[idx as int].1) is Some);
    }
    match yaml::open_mapping_at(es, idx) {
        Some((tags, inner)) => (idx, tags, inner),
        None => {
            proof {
                assert(false);
            }
            (idx, Vec::new(), Vec::new())
        },
    }
}

/// Puts back a mapping taken out by [`open_entry`].
fn close_entry(
    es: &mut Vec<(Yaml, Yaml)>,
    idx: usize,
    tags: Vec<String>,
    inner: Vec<(Yaml, Yaml)>,
    Ghost(es1): Ghost<Seq<(YamlV, YamlV)>>,
    Ghost(k): Ghost<YamlV>,
)
    requires
        idx < old(es)@.len(),
        index_of(es1, k) == Some(idx as int),
        view_entries(old(es)@) == es1.update(idx as int, (es1[idx as int].0, YamlV::Null)),
        text::string_views(tags@) == tags_of(es1[idx as int].1),
    ensures
        view_entries(final(es)@) == insert(es1, k, retag(get(es1, k)->0, YamlV::Mapping(view_entries(inner@)))),
{
    proof {
        yaml::lemma_index_of_none(es1, k);
    }
    let ghost before = view_entries(es@);
    let ghost w = yaml::wrap(text::string_views(tags@), YamlV::Mapping(view_entries(inner@)));
    yaml::close_mapping_at(es, idx, tags, inner);
    assert(before[idx as int].0 == es1[idx as int].0);
    assert(get(es1, k)->0 == es1[idx as int].1);
    assert(retag(get(es1, k)->0, YamlV::Mapping(view_entries(inner@))) == w);
    assert(insert(es1, k, w) == es1.update(idx as int, (es1[idx as int].0, w)));
    assert(view_entries(es@) =~= es1.update(idx as int, (es1[idx as int].0, w)));
}

fn toolsets_value() -> (res: Yaml)
    ensures
        res@ == toolsets(),
{
    let items = vec![yaml::string("web"), yaml::string("browser")];
    let mut es: Vec<(Yaml, Yaml)> = Vec::new();
    es.push((yaml::string("api_server"), Yaml::Sequence(items)));
    proof {
        yaml::lemma_view_items(items@);
        yaml::lemma_view_entries(es@);
        assert(yaml::view_items(items@) =~= seq![YamlV::Str("web"@), YamlV::Str("browser"@)]);
        assert(view_entries(es@) =~= seq![(key("api_server"@), YamlV::Sequence(seq![YamlV::Str("web"@), YamlV::Str("browser"@)]))]);
    }
    Yaml::Mapping(es)
}

fn enabled_value(b: bool) -> (res: Yaml)
    ensures
        res@ == enabled_entry(b),
{
    let mut es: Vec<(Yaml, Yaml)> = Vec::new();
    es.push((yaml::string("enabled"), Yaml::Bool(b)));
    proof {
        yaml::lemma_view_entries(es@);
        assert(view_entries(es@) =~= seq![(key("enabled"@), YamlV::Bool(b))]);
    }
    Yaml::Mapping(es)
}

fn disable_platforms(m: &mut Vec<(Yaml, Yaml)>)
    ensures
        view_entries(final(m)@) == with_platforms_disabled(view_entries(old(m)@), platform_names()),
{
    let names = vec![
        "telegram", "discord", "whatsapp", "whatsapp_cloud", "slack", "signal", "mattermost", "matrix",
        "homeassistant", "email", "sms", "dingtalk", "webhook", "msgraph_webhook", "feishu", "wecom",
        "wecom_callback", "weixin", "bluebubbles", "qqbot", "yuanbao", "relay",
    ];
    let ghost all = literal_views(names@);
    assert(all =~= platform_names());
    let mut i: usize = 0;
    assert(all.subrange(0, all.len() as int) =~= all);
    while i < names.len()
        invariant
            i <= names@.len(),
            all == literal_views(names@),
            all.len() == names@.len(),
            with_platforms_disabled(view_entries(old(m)@), all) == with_platforms_disabled(
                view_entries(m@),
                all.subrange(i as int, all.len() as int),
            ),
        decreases names.len() - i,
    {
        let name = names[i];
        let ghost rest = all.subrange(i as int, all.len() as int);
        assert(rest[0] == name@);
        assert(rest.drop_first() =~= all.subrange(i + 1, all.len() as int));
        yaml::insert_entry(m, name, enabled_value(false));
        i = i + 1;
    }
    assert(all.subrange(i as int, all.len() as int) =~= Seq::<Seq<char>>::empty());
}

/// The profile configuration with the research settings applied.  `root`
/// is the parsed `config.yaml`, `None` when the file is missing or does not
/// parse; `path` names the file in messages.
pub fn configure_profile(root: Option<Yaml>, path: &str) -> (res: Result<Yaml, SearchError>)
    ensures
        match configured_profile(
            match root {
                Some(r) => Some(r@),
                None => None::<YamlV>,
            },
            path@,
        ) {
            Ok(doc) => res matches Ok(r) && r@ == doc,
            Err(m) => res matches Err(SearchError::Install(x)) && x@ == m,
        },
{
    let root = match root {
        Some(r) => r,
        None => yaml::empty_mapping(),
    };
    let ghost root_v = root@;
    let (tags, core) = yaml::split_tags(root);
    proof {
        yaml::lemma_untag_retag(root_v);
    }
    let mut es = match core {
        Yaml::Mapping(es) => es,
        _ => {
            let mut m = String::from_str("Hermes profile config is not a mapping: ");
            m.append(path);
            return Err(SearchError::Install(m));
        },
    };
    yaml::insert_entry(&mut es, "platform_toolsets", toolsets_value());
    let ghost e1 = view_entries(es@);

    let ghost web_es1 = entries_with_mapping(e1, key("web"@));
    let (wi, wt, mut web) = open_entry(&mut es, "web");
    yaml::insert_entry(&mut web, "search_backend", yaml::string("ddgs"));
    yaml::insert_entry(&mut web, "extract_backend", yaml::string("firecrawl"));
    close_entry(&mut es, wi, wt, web, Ghost(web_es1), Ghost(key("web"@)));
    let ghost e2 = view_entries(es@);

    let ghost gw_es1 = entries_with_mapping(e2, key("gateway"@));
    let (gi, gt, mut gateway) = open_entry(&mut es, "gateway");
    yaml::insert_entry(&mut gateway, "multiplex_profiles", Yaml::Bool(false));
    close_entry(&mut es, gi, gt, gateway, Ghost(gw_es1), Ghost(key("gateway"@)));
    let ghost e3 = view_entries(es@);

    let ghost pl_es1 = entries_with_mapping(e3, key("platforms"@));
    let (pi, pt, mut platforms) = open_entry(&mut es, "platforms");
    disable_platforms(&mut platforms);
    yaml::insert_entry(&mut platforms, "api_server", enabled_value(true));
    close_entry(&mut es, pi, pt, platforms, Ghost(pl_es1), Ghost(key("platforms"@)));
    Ok(yaml::wrap_tags(tags, Yaml::Mapping(es)))
}

// ---------------------------------------------------------------------------
// The profile's .env file
// ---------------------------------------------------------------------------

/// The environment the profile's API server runs with.
pub open spec fn profile_env_updates(secret: Seq<char>) -> Seq<(Seq<char>, Seq<char>)> {
    seq![
        ("API_SERVER_ENABLED"@, "true"@),
        ("API_SERVER_HOST"@, "127.0.0.1"@),
        ("API_SERVER_PORT"@, "8643"@),
        ("API_SERVER_KEY"@, secret),
        ("GATEWAY_MULTIPLEX_PROFILES"@, "false"@),
    ]
}

/// The profile's `.env` with the API server settings and `secret` merged in.
pub fn profile_env(existing: &str, secret: &str) -> (res: String)
    ensures
        res@ == merged_env(existing@, profile_env_updates(secret@)),
{
    let updates: Vec<(&str, &str)> = vec![
        ("API_SERVER_ENABLED", "true"),
        ("API_SERVER_HOST", "127.0.0.1"),
        ("API_SERVER_PORT", "8643"),
        ("API_SERVER_KEY", secret),
        ("GATEWAY_MULTIPLEX_PROFILES", "false"),
    ];
    let r = profile_env_merge(existing, updates.as_slice());
    assert(crate::install::secrets::update_views(updates@) =~= profile_env_updates(secret@));
    r
}

// ---------------------------------------------------------------------------
// Model, ownership, commands
// ---------------------------------------------------------------------------

/// A string value that is present and not blank.
pub open spec fn nonblank_str(v: Option<YamlV>) -> bool {
    match v {
        Some(x) => match as_str(x) {
            Some(s) => !text::is_blank(s),
            None => false,
        },
        None => false,
    }
}

/// The profile names a model: its `model` mapping has a non-blank
/// `default` or `model` string.
pub open spec fn has_model(doc: YamlV) -> bool {
    match as_mapping(doc) {
        Some(es) => match get(es, key("model"@)) {
            Some(m) => match as_mapping(m) {
                Some(me) => nonblank_str(get(me, key("default"@))) || nonblank_str(get(me, key("model"@))),
                None => false,
            },
            None => false,
        },
        None => false,
    }
}

fn nonblank_member(es: &Vec<(Yaml, Yaml)>, name: &str) -> (res: bool)
    ensures
        res == nonblank_str(get(view_entries(es@), key(name@))),
{
    match yaml::get_ref(es, name) {
        Some(v) => match yaml::str_of(v) {
            Some(s) => !text::blank(s.as_str()),
            None => false,
        },
        None => false,
    }
}

/// Whether a parsed profile configuration names a model.
pub fn profile_has_model(doc: &Yaml) -> (res: bool)
    ensures
        res == has_model(doc@),
{
    match yaml::mapping_of(doc) {
        Some(es) => match yaml::get_ref(es, "model") {
            Some(m) => match yaml::mapping_of(m) {
                Some(me) => nonblank_member(me, "default") || nonblank_member(me, "model"),
                None => false,
            },
            None => false,
        },
        None => false,
    }
}

/// The outcome of checking a profile's ownership marker at `marker_path`
/// whose text is `marker` (`None` when it cannot be read).
pub open spec fn ownership(marker_path: Seq<char>, marker: Option<Seq<char>>, install_id: Seq<char>) -> Result<(), Seq<char>> {
    match marker {
        None => Err("refusing to manage existing Hermes profile without ownership marker: "@ + marker_path),
        Some(m) => if text::trim(m) != install_id {
            Err("Hermes profile ownership marker does not match this installation: "@ + marker_path)
        } else {
            Ok(())
        },
    }
}

/// Checks that the profile belongs to this installation: its marker must
/// be readable and hold the installation id (surrounding white space aside).
pub fn verify_ownership(marker_path: &str, marker: Option<&str>, install_id: &str) -> (res: Result<(), SearchError>)
    ensures
        match ownership(marker_path@, text::opt_str_view(marker), install_id@) {
            Ok(()) => res is Ok,
            Err(m) => res matches Err(SearchError::Install(x)) && x@ == m,
        },
{
    match marker {
        None => {
            let mut m = String::from_str("refusing to manage existing Hermes profile without ownership marker: ");
            m.append(marker_path);
            Err(SearchError::Install(m))
        },
        Some(text_) => {
            let t = text::trim_str(text_);
            let id = String::from_str(install_id);
            if t != id {
                let mut m = String::from_str("Hermes profile ownership marker does not match this installation: ");
                m.append(marker_path);
                Err(SearchError::Install(m))
            } else {
                Ok(())
            }
        },
    }
}

/// The ownership marker's text.
pub fn owner_marker(install_id: &str) -> (res: String)
    ensures
        res@ == install_id@ + "\n"@,
{
    let mut s = String::from_str(install_id);
    s.append("\n");
    s
}

/// The Hermes commands that set up the research profile.
pub struct ProfileCommands {
    /// Creates the profile as a clone of the default one.
    pub create: Vec<String>,
    /// Creates a fresh profile when cloning fails; must succeed.
    pub create_fallback: Vec<String>,
    /// Opts the profile out of skills; its outcome is ignored.
    pub skills_opt_out: Vec<String>,
    /// The interactive setup wizard.
    pub setup: Vec<String>,
    /// Installs and starts the profile's gateway service; must succeed.
    pub gateway_install: Vec<String>,
}

/// The commands that set up profile `profile`.
pub fn profile_commands(profile: &str) -> (res: ProfileCommands)
    ensures
        text::string_views(res.create@) == seq![
            "profile"@, "create"@, profile@, "--clone-from"@, "default"@, "--clone"@, "--no-alias"@,
            "--description"@, PROFILE_DESCRIPTION@,
        ],
        text::string_views(res.create_fallback@) == seq![
            "profile"@, "create"@, profile@, "--no-alias"@, "--no-skills"@, "--description"@, PROFILE_DESCRIPTION@,
        ],
        text::string_views(res.skills_opt_out@) == seq!["-p"@, profile@, "skills"@, "opt-out"@],
        text::string_views(res.setup@) == seq!["-p"@, profile@, "setup"@],
        text::string_views(res.gateway_install@) == seq![
            "-p"@, profile@, "gateway"@, "install"@, "--force"@, "--start-now"@, "--start-on-login"@,
        ],
{
    ProfileCommands {
        create: command_args(
            vec![
                "profile", "create", profile, "--clone-from", "default", "--clone", "--no-alias", "--description",
                PROFILE_DESCRIPTION,
            ],
        ),
        create_fallback: command_args(
            vec!["profile", "create", profile, "--no-alias", "--no-skills", "--description", PROFILE_DESCRIPTION],
        ),
        skills_opt_out: command_args(vec!["-p", profile, "skills", "opt-out"]),
        setup: command_args(vec!["-p", profile, "setup"]),
        gateway_install: command_args(
            vec!["-p", profile, "gateway", "install", "--force", "--start-now", "--start-on-login"],
        ),
    }
}

/// The error for a profile without a model when nobody can be asked.
pub fn missing_model_error(profile: &str) -> (res: SearchError)
    ensures
        res matches SearchError::Install(m) && m@ == "Hermes profile "@ + profile@
            + " has no configured model; run `hermes -p "@ + profile@ + " setup` and then `hermes-search-agent repair`"@,
{
    let mut m = String::from_str("Hermes profile ");
    m.append(profile);
    m.append(" has no configured model; run `hermes -p ");
    m.append(profile);
    m.append(" setup` and then `hermes-search-agent repair`");
    SearchError::Install(m)
}

/// Where setting up the research profile stands.
#[derive(Debug, PartialEq, Eq, Structural)]
pub enum ProfileState {
    /// Waiting to learn whether the profile directory exists.
    CheckingExists,
    /// Checking that the existing profile belongs to this installation.
    VerifyingOwnership,
    /// Creating the profile as a clone of the default one.
    Cloning,
    /// Creating a fresh profile after cloning failed.
    CreatingPlain,
    /// Recording that the profile was created here.
    MarkingCreated,
    /// Writing the profile's configuration and environment.
    Configuring,
    /// Writing the ownership marker.
    WritingMarker,
    /// Recording that the profile is owned.
    MarkingOwned,
    /// Opting the profile out of skills.
    OptingOut,
    /// Checking that the profile has a model.
    CheckingModel,
    /// Running the interactive setup wizard.
    SettingUp,
    /// Writing the configuration again after the wizard.
    Reconfiguring,
    /// Installing and starting the profile's gateway.
    InstallingGateway,
    /// Nothing is left to do.
    Finished,
}

/// What the application reports of the action it performed.
pub enum ProfileEvent {
    /// The action succeeded; the flag answers the action's question (the
    /// directory exists, cloning succeeded, a model is configured) and is
    /// `true` for actions that ask none.
    Succeeded(bool),
    /// The action failed with this error.
    Failed(SearchError),
}

/// What the application is to do next.
pub enum ProfileAction {
    /// Tell whether the profile directory exists.
    CheckExists,
    /// Check the existing profile's ownership marker.
    VerifyOwnership,
    /// Run the clone command and report whether it succeeded.
    CreateByClone,
    /// Run the fallback create command; it must succeed.
    CreatePlain,
    /// Record in the manifest that the profile is owned.
    MarkOwned,
    /// Write the profile's configuration and environment.
    Configure,
    /// Write the ownership marker.
    WriteMarker,
    /// Run the skills opt-out command; its outcome does not matter.
    SkillsOptOut,
    /// Tell whether the profile's configuration names a model.
    CheckModel,
    /// Run the interactive setup wizard.
    Setup,
    /// Install and start the gateway; it must succeed.
    InstallGateway,
    /// Stop: the profile is set up.
    Done,
    /// Stop with the missing-model error (`missing_model_error`).
    MissingModel,
    /// Stop with this error.
    Fail(SearchError),
}

/// One step of setting up the research profile: an existing profile must
/// belong to this installation, a missing one is cloned from the default
/// profile (or created fresh when cloning fails); then the profile is
/// configured, marked as owned, opted out of skills (whatever that gives),
/// given a model (an error when nobody can be asked, else the setup wizard
/// and a second configuration), and its gateway installed.  A failed action
/// ends the run with its error.
pub open spec fn profile_transition(state: ProfileState, event: ProfileEvent, non_interactive: bool) -> (
    ProfileState,
    ProfileAction,
) {
    match state {
        ProfileState::Finished => (ProfileState::Finished, ProfileAction::Done),
        ProfileState::OptingOut => (ProfileState::CheckingModel, ProfileAction::CheckModel),
        _ => match event {
            ProfileEvent::Failed(e) => (ProfileState::Finished, ProfileAction::Fail(e)),
            ProfileEvent::Succeeded(flag) => match state {
                ProfileState::CheckingExists => if flag {
                    (ProfileState::VerifyingOwnership, ProfileAction::VerifyOwnership)
                } else {
                    (ProfileState::Cloning, ProfileAction::CreateByClone)
                },
                ProfileState::VerifyingOwnership => (ProfileState::Configuring, ProfileAction::Configure),
                ProfileState::Cloning => if flag {
                    (ProfileState::MarkingCreated, ProfileAction::MarkOwned)
                } else {
                    (ProfileState::CreatingPlain, ProfileAction::CreatePlain)
                },
                ProfileState::CreatingPlain => (ProfileState::MarkingCreated, ProfileAction::MarkOwned),
                ProfileState::MarkingCreated => (ProfileState::Configuring, ProfileAction::Configure),
                ProfileState::Configuring => (ProfileState::WritingMarker, ProfileAction::WriteMarker),
                ProfileState::WritingMarker => (ProfileState::MarkingOwned, ProfileAction::MarkOwned),
                ProfileState::MarkingOwned => (ProfileState::OptingOut, ProfileAction::SkillsOptOut),
                ProfileState::CheckingModel => if flag {
                    (ProfileState::InstallingGateway, ProfileAction::InstallGateway)
                } else if non_interactive {
                    (ProfileState::Finished, ProfileAction::MissingModel)
                } else {
                    (ProfileState::SettingUp, ProfileAction::Setup)
                },
                ProfileState::SettingUp => (ProfileState::Reconfiguring, ProfileAction::Configure),
                ProfileState::Reconfiguring => (ProfileState::InstallingGateway, ProfileAction::InstallGateway),
                _ => (ProfileState::Finished, ProfileAction::Done),
            },
        },
    }
}

/// How many steps at most are left from `state`.
pub open spec fn profile_steps_left(state: ProfileState) -> nat {
    match state {
        ProfileState::CheckingExists => 12,
        ProfileState::Cloning => 11,
        ProfileState::VerifyingOwnership => 10,
        ProfileState::CreatingPlain => 10,
        ProfileState::MarkingCreated => 9,
        ProfileState::Configuring => 8,
        ProfileState::WritingMarker => 7,
        ProfileState::MarkingOwned => 6,
        ProfileState::OptingOut => 5,
        ProfileState::CheckingModel => 4,
        ProfileState::SettingUp => 3,
        ProfileState::Reconfiguring => 2,
        ProfileState::InstallingGateway => 1,
        ProfileState::Finished => 0,
    }
}

/// Setting up the profile always ends: every step from an unfinished state
/// moves closer to the end, whatever the action gave, and only the end
/// stops with `Done`, the missing-model error or a failure.
pub proof fn law_profile_setup_ends(state: ProfileState, event: ProfileEvent, non_interactive: bool)
    ensures
        state != ProfileState::Finished ==> profile_steps_left(profile_transition(state, event, non_interactive).0)
            < profile_steps_left(state),
        (profile_transition(state, event, non_interactive).1 is Done || profile_transition(
            state,
            event,
            non_interactive,
        ).1 is MissingModel || profile_transition(state, event, non_interactive).1 is Fail) <==> profile_transition(
            state,
            event,
            non_interactive,
        ).0 == ProfileState::Finished,
{
}

/// The state and first action of setting up the research profile.
pub fn profile_start() -> (res: (ProfileState, ProfileAction))
    ensures
        res == (ProfileState::CheckingExists, ProfileAction::CheckExists),
{
    (ProfileState::CheckingExists, ProfileAction::CheckExists)
}

/// Takes one step of setting up the research profile: from where it
/// stands and what the last action gave, the next state and action.
pub fn profile_step(state: ProfileState, event: ProfileEvent, non_interactive: bool) -> (res: (
    ProfileState,
    ProfileAction,
))
    ensures
        res == profile_transition(state, event, non_interactive),
{
    match state {
        ProfileState::Finished => return (ProfileState::Finished, ProfileAction::Done),
        ProfileState::OptingOut => return (ProfileState::CheckingModel, ProfileAction::CheckModel),
        _ => {},
    }
    let flag = match event {
        ProfileEvent::Failed(e) => return (ProfileState::Finished, ProfileAction::Fail(e)),
        ProfileEvent::Succeeded(flag) => flag,
    };
    match state {
        ProfileState::CheckingExists => if flag {
            (ProfileState::VerifyingOwnership, ProfileAction::VerifyOwnership)
        } else {
            (ProfileState::Cloning, ProfileAction::CreateByClone)
        },
        ProfileState::VerifyingOwnership => (ProfileState::Configuring, ProfileAction::Configure),
        ProfileState::Cloning => if flag {
            (ProfileState::MarkingCreated, ProfileAction::MarkOwned)
        } else {
            (ProfileState::CreatingPlain, ProfileAction::CreatePlain)
        },
        ProfileState::CreatingPlain => (ProfileState::MarkingCreated, ProfileAction::MarkOwned),
        ProfileState::MarkingCreated => (ProfileState::Configuring, ProfileAction::Configure),
        ProfileState::Configuring => (ProfileState::WritingMarker, ProfileAction::WriteMarker),
        ProfileState::WritingMarker => (ProfileState::MarkingOwned, ProfileAction::MarkOwned),
        ProfileState::MarkingOwned => (ProfileState::OptingOut, ProfileAction::SkillsOptOut),
        ProfileState::CheckingModel => if flag {
            (ProfileState::InstallingGateway, ProfileAction::InstallGateway)
        } else if non_interactive {
            (ProfileState::Finished, ProfileAction::MissingModel)
        } else {
            (ProfileState::SettingUp, ProfileAction::Setup)
        },
        ProfileState::SettingUp => (ProfileState::Reconfiguring, ProfileAction::Configure),
        ProfileState::Reconfiguring => (ProfileState::InstallingGateway, ProfileAction::InstallGateway),
        _ => (ProfileState::Finished, ProfileAction::Done),
    }
}

/// The command that restarts the profile's gateway; it must succeed.
pub fn restart_gateway(profile: &str) -> (res: Vec<String>)
    ensures
        text::string_views(res@) == seq!["-p"@, profile@, "gateway"@, "restart"@],
{
    command_args(vec!["-p", profile, "gateway", "restart"])
}

/// The command that stops the profile's gateway; its exit status is ignored.
pub fn stop_gateway(profile: &str) -> (res: Vec<String>)
    ensures
        text::string_views(res@) == seq!["-p"@, profile@, "gateway"@, "stop"@],
{
    command_args(vec!["-p", profile, "gateway", "stop"])
}

/// The command that deletes the installation's profile, once its marker
/// (`marker`, read from the profile's marker path) shows it is owned.
pub fn delete_owned_profile(paths: &AppPaths, manifest: &InstallManifest, marker: Option<&str>) -> (res: Result<
    Vec<String>,
    SearchError,
>)
    ensures
        match ownership(
            crate::paths::joined(paths.profile_dir_of(manifest.hermes_profile@), crate::paths::OWNER_MARKER@),
            text::opt_str_view(marker),
            manifest.install_id@,
        ) {
            Ok(()) => res matches Ok(args) && text::string_views(args@) == seq![
                "profile"@,
                "delete"@,
                manifest.hermes_profile@,
                "--yes"@,
            ],
            Err(m) => res matches Err(SearchError::Install(x)) && x@ == m,
        },
{
    let marker_path = paths.hermes_profile_marker(manifest.hermes_profile.as_str());
    verify_ownership(marker_path.as_str(), marker, manifest.install_id.as_str())?;
    Ok(command_args(vec!["profile", "delete", manifest.hermes_profile.as_str(), "--yes"]))
}

/// The `platforms` mapping of a profile configuration, when it has one.
pub open spec fn platforms_of(doc: YamlV) -> Option<Seq<(YamlV, YamlV)>> {
    match as_mapping(doc) {
        Some(es) => match get(es, key("platforms"@)) {
            Some(p) => as_mapping(p),
            None => None,
        },
        None => None,
    }
}

proof fn lemma_disabling_keeps_others(m: Seq<(YamlV, YamlV)>, names: Seq<Seq<char>>, k: YamlV)
    requires
        forall|i: int| 0 <= i < names.len() ==> key(#[trigger] names[i]) != k,
    ensures
        get(with_platforms_disabled(m, names), k) == get(m, k),
    decreases names.len(),
{
    if names.len() > 0 {
        let m1 = insert(m, key(names[0]), enabled_entry(false));
        yaml::lemma_get_insert_other(m, key(names[0]), enabled_entry(false), k);
        assert forall|i: int| 0 <= i < names.drop_first().len() implies key(#[trigger] names.drop_first()[i]) != k by {
            assert(names.drop_first()[i] == names[i + 1]);
        }
        lemma_disabling_keeps_others(m1, names.drop_first(), k);
    }
}

proof fn lemma_disabling_disables(m: Seq<(YamlV, YamlV)>, names: Seq<Seq<char>>, n: Seq<char>)
    requires
        names.contains(n),
    ensures
        get(with_platforms_disabled(m, names), key(n)) == Some(enabled_entry(false)),
    decreases names.len(),
{
    let m1 = insert(m, key(names[0]), enabled_entry(false));
    let rest = names.drop_first();
    if rest.contains(n) {
        lemma_disabling_disables(m1, rest, n);
    } else {
        let w = choose|w: int| 0 <= w < names.len() && names[w] == n;
        if w > 0 {
            assert(rest[w - 1] == n);
        }
        assert forall|i: int| 0 <= i < rest.len() implies key(#[trigger] rest[i]) != key(n) by {
            if key(rest[i]) == key(n) {
                assert(rest[i] == n);
            }
        }
        lemma_disabling_keeps_others(m1, rest, key(n));
        yaml::lemma_get_insert(m, key(names[0]), enabled_entry(false));
    }
}

/// The mapping that `with_mapping_at` puts under `k` is read back there.
proof fn lemma_mapping_at_reads_back(es: Seq<(YamlV, YamlV)>, k: YamlV, m: Seq<(YamlV, YamlV)>)
    ensures
        get(with_mapping_at(es, k, m), k) matches Some(v) && as_mapping(v) == Some(m),
{
    let es1 = entries_with_mapping(es, k);
    yaml::lemma_get_insert(es1, k, retag(get(es1, k)->0, YamlV::Mapping(m)));
    yaml::lemma_as_mapping_retag(get(es1, k)->0, m);
}

/// The research profile serves none of the messaging platforms: once
/// configured, each of them is set to `{enabled: false}`, whatever the
/// cloned configuration said, and only the API server is enabled.
pub proof fn law_research_profile_serves_no_platform(root: Option<YamlV>, path: Seq<char>, name: Seq<char>)
    requires
        configured_profile(root, path) is Ok,
        name == "telegram"@ || name == "discord"@ || name == "whatsapp"@ || name == "whatsapp_cloud"@ ||
            name == "slack"@ || name == "signal"@ || name == "mattermost"@ || name == "matrix"@ ||
            name == "homeassistant"@ || name == "email"@ || name == "sms"@ || name == "dingtalk"@ ||
            name == "webhook"@ || name == "msgraph_webhook"@ || name == "feishu"@ || name == "wecom"@ ||
            name == "wecom_callback"@ || name == "weixin"@ || name == "bluebubbles"@ || name == "qqbot"@ ||
            name == "yuanbao"@ || name == "relay"@,
    ensures
        platforms_of(configured_profile(root, path)->Ok_0) matches Some(pm) && get(pm, key(name)) == Some(
            YamlV::Mapping(seq![(key("enabled"@), YamlV::Bool(false))]),
        ) && get(pm, key("api_server"@)) == Some(YamlV::Mapping(seq![(key("enabled"@), YamlV::Bool(true))])),
{
    reveal_strlit("telegram");
    reveal_strlit("discord");
    reveal_strlit("whatsapp");
    reveal_strlit("whatsapp_cloud");
    reveal_strlit("slack");
    reveal_strlit("signal");
    reveal_strlit("mattermost");
    reveal_strlit("matrix");
    reveal_strlit("homeassistant");
    reveal_strlit("email");
    reveal_strlit("sms");
    reveal_strlit("dingtalk");
    reveal_strlit("webhook");
    reveal_strlit("msgraph_webhook");
    reveal_strlit("feishu");
    reveal_strlit("wecom");
    reveal_strlit("wecom_callback");
    reveal_strlit("weixin");
    reveal_strlit("bluebubbles");
    reveal_strlit("qqbot");
    reveal_strlit("yuanbao");
    reveal_strlit("relay");
    reveal_strlit("api_server");
    let ps = platform_names();
    assert(ps[0] == "telegram"@);
    assert(ps[1] == "discord"@);
    assert(ps[2] == "whatsapp"@);
    assert(ps[3] == "whatsapp_cloud"@);
    assert(ps[4] == "slack"@);
    assert(ps[5] == "signal"@);
    assert(ps[6] == "mattermost"@);
    assert(ps[7] == "matrix"@);
    assert(ps[8] == "homeassistant"@);
    assert(ps[9] == "email"@);
    assert(ps[10] == "sms"@);
    assert(ps[11] == "dingtalk"@);
    assert(ps[12] == "webhook"@);
    assert(ps[13] == "msgraph_webhook"@);
    assert(ps[14] == "feishu"@);
    assert(ps[15] == "wecom"@);
    assert(ps[16] == "wecom_callback"@);
    assert(ps[17] == "weixin"@);
    assert(ps[18] == "bluebubbles"@);
    assert(ps[19] == "qqbot"@);
    assert(ps[20] == "yuanbao"@);
    assert(ps[21] == "relay"@);
    assert(ps.contains(name));
    assert("api_server"@.len() == 10 && "api_server"@[0] == 'a');
    assert(name.len() != 10 || name[0] != 'a');
    assert(name != "api_server"@);
    let r = match root {
        Some(v) => v,
        None => YamlV::Mapping(Seq::empty()),
    };
    let es = as_mapping(r)->0;
    let e1 = insert(es, key("platform_toolsets"@), toolsets());
    let web = key("web"@);
    let e2 = with_mapping_at(
        e1,
        web,
        insert(insert(mapping_at(e1, web), key("search_backend"@), YamlV::Str("ddgs"@)), key("extract_backend"@), YamlV::Str("firecrawl"@)),
    );
    let gateway = key("gateway"@);
    let e3 = with_mapping_at(e2, gateway, insert(mapping_at(e2, gateway), key("multiplex_profiles"@), YamlV::Bool(false)));
    let platforms = key("platforms"@);
    let disabled = with_platforms_disabled(mapping_at(e3, platforms), ps);
    let pm = insert(disabled, key("api_server"@), enabled_entry(true));
    assert(profile_entries(es) == with_mapping_at(e3, platforms, pm));
    yaml::lemma_as_mapping_retag(r, profile_entries(es));
    lemma_mapping_at_reads_back(e3, platforms, pm);
    lemma_disabling_disables(mapping_at(e3, platforms), ps, name);
    yaml::lemma_get_insert_other(disabled, key("api_server"@), enabled_entry(true), key(name));
    yaml::lemma_get_insert(disabled, key("api_server"@), enabled_entry(true));
}
} // verus!
