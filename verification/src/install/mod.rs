//! Installing, repairing and removing the research bridge.
//!
//! The decisions of the installer stand here; the application asks the
//! user, runs the commands and touches the files.
pub mod dsh;
pub mod dsh_native_web;
pub mod hermes;
pub mod manifest;
pub mod native_web_laws;
pub mod preflight;
pub mod preset_source;
pub mod rollback;
pub mod secrets;
pub mod systemd;

use vstd::prelude::*;

use crate::config::DshNativeWebConfig;
use crate::install::manifest::{InstallManifest, NativeWebManifest};
use crate::install::secrets::is_hex_digit;
use crate::text;

verus! {

/// How the installer was asked to run.
#[derive(Clone, Debug)]
pub struct InstallOptions {
    pub dry_run: bool,
    pub non_interactive: bool,
    pub dsh_profile: String,
    /// `Some(true)` keeps the native tool, `Some(false)` disables it, `None` asks or keeps.
    pub dsh_web_search: Option<bool>,
    /// `Some(true)` keeps the native tool, `Some(false)` disables it, `None` asks or keeps.
    pub dsh_web_fetch: Option<bool>,
}

/// Whether a native tool stays enabled, or the question to ask.
#[derive(Debug, PartialEq, Eq, Structural)]
pub enum ToolChoice {
    /// Settled: `true` keeps the tool enabled.
    Decided(bool),
    /// Ask "Disable ...?"; `default_yes` is the answer an empty reply gives.
    Ask { default_yes: bool },
}

/// The choice for one native tool: an explicit flag wins; without a terminal
/// the recorded choice stays, and a first installation keeps the tool; with
/// one the user is asked, defaulting to the recorded choice or, the first
/// time, to the recommendation.
pub open spec fn tool_choice(
    explicit_enabled: Option<bool>,
    current_enabled: bool,
    recommended_enabled: bool,
    recorded: bool,
    non_interactive: bool,
) -> ToolChoice {
    match explicit_enabled {
        Some(b) => ToolChoice::Decided(b),
        None => if non_interactive {
            ToolChoice::Decided(if recorded { current_enabled } else { true })
        } else {
            ToolChoice::Ask { default_yes: !(if recorded { current_enabled } else { recommended_enabled }) }
        },
    }
}

/// Resolves the choice for one native tool.
pub fn resolve_tool_choice(
    explicit_enabled: Option<bool>,
    current_enabled: bool,
    recommended_enabled: bool,
    recorded: bool,
    non_interactive: bool,
) -> (res: ToolChoice)
    ensures
        res == tool_choice(explicit_enabled, current_enabled, recommended_enabled, recorded, non_interactive),
        // A non-interactive first install never silently removes host capabilities.
        explicit_enabled is None && non_interactive && !recorded ==> res == ToolChoice::Decided(true),
{
    if let Some(enabled) = explicit_enabled {
        return ToolChoice::Decided(enabled);
    }
    if non_interactive {
        return ToolChoice::Decided(if recorded { current_enabled } else { true });
    }
    let default_enabled = if recorded { current_enabled } else { recommended_enabled };
    ToolChoice::Ask { default_yes: !default_enabled }
}

/// Whether the tool stays enabled, given the reply to the question when
/// one was asked (`true` means "disable").
pub fn tool_enabled(choice: &ToolChoice, disable_reply: bool) -> (res: bool)
    ensures
        res == match choice {
            ToolChoice::Decided(b) => *b,
            ToolChoice::Ask { .. } => !disable_reply,
        },
{
    match choice {
        ToolChoice::Decided(b) => *b,
        ToolChoice::Ask { .. } => !disable_reply,
    }
}

/// The choices for DSH's native web tools, and whether to explain them
/// first (when a question may follow).
#[derive(Debug)]
pub struct NativeWebChoices {
    pub explain: bool,
    pub search: ToolChoice,
    pub fetch: ToolChoice,
}

/// Resolves the native web tool choices.  Disabling `web_search` is
/// recommended, keeping `web_fetch` is; `current` is the configured policy
/// and counts once a choice has been recorded.
pub fn resolve_native_web_policy(
    options: &InstallOptions,
    current: &DshNativeWebConfig,
    native_web: &NativeWebManifest,
) -> (res: NativeWebChoices)
    ensures
        res.explain == (!options.non_interactive && (options.dsh_web_search is None || options.dsh_web_fetch is None)),
        res.search == tool_choice(
            options.dsh_web_search,
            current.search,
            false,
            native_web.choice_recorded,
            options.non_interactive,
        ),
        res.fetch == tool_choice(
            options.dsh_web_fetch,
            current.fetch,
            true,
            native_web.choice_recorded,
            options.non_interactive,
        ),
{
    let recorded = native_web.choice_recorded;
    let explain = !options.non_interactive && (options.dsh_web_search.is_none() || options.dsh_web_fetch.is_none());
    let search = resolve_tool_choice(options.dsh_web_search, current.search, false, recorded, options.non_interactive);
    let fetch = resolve_tool_choice(options.dsh_web_fetch, current.fetch, true, recorded, options.non_interactive);
    NativeWebChoices { explain, search, fetch }
}

/// A non-interactive installation that has recorded no choice and got no
/// flags keeps both of DSH's native web tools.
pub proof fn law_first_unattended_install_keeps_native_tools(
    options: InstallOptions,
    current: DshNativeWebConfig,
    recorded: bool,
)
    requires
        options.non_interactive,
        !recorded,
        options.dsh_web_search is None,
        options.dsh_web_fetch is None,
    ensures
        tool_choice(options.dsh_web_search, current.search, false, recorded, options.non_interactive)
            == ToolChoice::Decided(true),
        tool_choice(options.dsh_web_fetch, current.fetch, true, recorded, options.non_interactive)
            == ToolChoice::Decided(true),
{
}

/// The reply to a yes/no question: an empty reply gives the default,
/// `y`/`yes` and `n`/`no` (in any case, white space around ignored) give
/// their answer, anything else asks again (`None`).
pub open spec fn reply_answer(input: Seq<char>, default_yes: bool) -> Option<bool> {
    let t = text::trim(input).map_values(|c: char| text::ascii_lower(c));
    if t.len() == 0 {
        Some(default_yes)
    } else if t == seq!['y'] || t == seq!['y', 'e', 's'] {
        Some(true)
    } else if t == seq!['n'] || t == seq!['n', 'o'] {
        Some(false)
    } else {
        None
    }
}

/// Reads the reply to a yes/no question.
pub fn parse_answer(input: &str, default_yes: bool) -> (res: Option<bool>)
    ensures
        res == reply_answer(input@, default_yes),
{
    let cs = text::chars_of(input);
    let (a, b) = text::trim_bounds(&cs);
    let ghost t = text::trim(input@).map_values(|c: char| text::ascii_lower(c));
    let mut low: Vec<char> = Vec::new();
    let mut i = a;
    while i < b
        invariant
            a <= i <= b <= cs@.len(),
            cs@ == input@,
            text::trim(input@) == cs@.subrange(a as int, b as int),
            t == text::trim(input@).map_values(|c: char| text::ascii_lower(c)),
            low@ == t.subrange(0, (i - a) as int),
        decreases b - i,
    {
        low.push(text::ascii_lowercase(cs[i]));
        assert(low@ =~= t.subrange(0, (i + 1 - a) as int));
        i = i + 1;
    }
    assert(low@ =~= t);
    let n = low.len();
    if n == 0 {
        Some(default_yes)
    } else if (n == 1 && low[0] == 'y') || (n == 3 && low[0] == 'y' && low[1] == 'e' && low[2] == 's') {
        assert(low@ == seq!['y'] || low@ == seq!['y', 'e', 's']) by {
            if n == 1 {
                assert(low@ =~= seq!['y']);
            } else {
                assert(low@ =~= seq!['y', 'e', 's']);
            }
        }
        Some(true)
    } else if (n == 1 && low[0] == 'n') || (n == 2 && low[0] == 'n' && low[1] == 'o') {
        assert(low@ == seq!['n'] || low@ == seq!['n', 'o']) by {
            if n == 1 {
                assert(low@ =~= seq!['n']);
            } else {
                assert(low@ =~= seq!['n', 'o']);
            }
        }
        assert(!(low@ == seq!['y'] || low@ == seq!['y', 'e', 's']));
        Some(false)
    } else {
        assert(low@ != seq!['y'] && low@ != seq!['y', 'e', 's'] && low@ != seq!['n'] && low@ != seq!['n', 'o']) by {
            if low@ == seq!['y'] || low@ == seq!['n'] {
                assert(n == 1);
            }
            if low@ == seq!['y', 'e', 's'] {
                assert(n == 3 && low@[0] == 'y' && low@[1] == 'e' && low@[2] == 's');
            }
            if low@ == seq!['n', 'o'] {
                assert(n == 2 && low@[0] == 'n' && low@[1] == 'o');
            }
        }
        None
    }
}

/// The hyphenated lower-case text of a random (version 4) UUID: 36
/// characters, hyphens at 8, 13, 18 and 23, lower-case hexadecimal digits
/// elsewhere, the version digit `4` at 14 and one of `8`, `9`, `a`, `b` at 19.
pub open spec fn is_uuid_v4_text(s: Seq<char>) -> bool {
    &&& s.len() == 36
    &&& forall|i: int|
        0 <= i < 36 ==> if i == 8 || i == 13 || i == 18 || i == 23 {
            #[trigger] s[i] == '-'
        } else {
            is_hex_digit(s[i])
        }
    &&& s[14] == '4'
    &&& (s[19] == '8' || s[19] == '9' || s[19] == 'a' || s[19] == 'b')
}

/// A fresh installation id (`Uuid::new_v4().to_string()`): the hyphenated
/// lower-case text of a version 4 UUID.  Its random digits are not stated.
#[verifier::external_body]
fn random_uuid() -> (res: String)
    ensures
        is_uuid_v4_text(res@),
{
    uuid::Uuid::new_v4().to_string()
}

/// The installation id to use: the recorded one; else the one in an
/// existing profile's ownership marker (`marker`, trimmed) when not blank;
/// else a fresh random one.
pub fn existing_install_id(manifest: Option<&InstallManifest>, marker: Option<&str>) -> (res: String)
    ensures
        match manifest {
            Some(m) => res@ == m.install_id@,
            None => match marker {
                Some(t) if !text::is_blank(t@) => res@ == text::trim(t@),
                _ => is_uuid_v4_text(res@),
            },
        },
{
    if let Some(m) = manifest {
        return m.install_id.clone();
    }
    if let Some(t) = marker {
        if !text::blank(t) {
            return text::trim_str(t);
        }
    }
    random_uuid()
}

} // verus!
