//! Configuration values of the research bridge and its installer.
//!
//! The application reads the environment and hands the raw values in; the
//! listen address is checked there, since parsing socket addresses is not
//! this library's business.
use vstd::prelude::*;

use crate::error::SearchError;
use crate::text;

verus! {

/// Which of DSH's native web tools stay enabled.
#[derive(Clone, Copy, Debug, PartialEq, Eq, Structural)]
pub struct DshNativeWebConfig {
    pub search: bool,
    pub fetch: bool,
}

pub const DEFAULT_BIND: &'static str = "127.0.0.1:8932";

pub const DEFAULT_HERMES_URL: &'static str = "http://127.0.0.1:8643";

/// Why a decimal number did not parse, as `ParseIntError` reports it.
#[derive(Clone, Copy, Debug, PartialEq, Eq, Structural)]
pub enum IntErrorKind {
    Empty,
    InvalidDigit,
    PosOverflow,
}

/// `ParseIntError`'s message for each kind.
pub open spec fn int_error_text(k: IntErrorKind) -> Seq<char> {
    match k {
        IntErrorKind::Empty => "cannot parse integer from empty string"@,
        IntErrorKind::InvalidDigit => "invalid digit found in string"@,
        IntErrorKind::PosOverflow => "number too large to fit in target type"@,
    }
}

fn int_error_str(k: IntErrorKind) -> (res: &'static str)
    ensures
        res@ == int_error_text(k),
{
    match k {
        IntErrorKind::Empty => "cannot parse integer from empty string",
        IntErrorKind::InvalidDigit => "invalid digit found in string",
        IntErrorKind::PosOverflow => "number too large to fit in target type",
    }
}

pub open spec fn is_digit(c: char) -> bool {
    '0' <= c && c <= '9'
}

/// The value of a decimal digit.
pub open spec fn digit_value(c: char) -> nat {
    (c as int - '0' as int) as nat
}

/// Reads the digits left to right: the first character that is not a digit,
/// or the first digit that takes the value past `u64::MAX`, ends the scan
/// with an error.
pub open spec fn scan_digits(ds: Seq<char>) -> Result<nat, IntErrorKind>
    decreases ds.len(),
{
    if ds.len() == 0 {
        Ok(0)
    } else {
        match scan_digits(ds.drop_last()) {
            Err(e) => Err(e),
            Ok(v) => if !is_digit(ds.last()) {
                Err(IntErrorKind::InvalidDigit)
            } else if v * 10 + digit_value(ds.last()) > u64::MAX {
                Err(IntErrorKind::PosOverflow)
            } else {
                Ok(v * 10 + digit_value(ds.last()))
            },
        }
    }
}

/// `u64::from_str`: decimal digits after an optional `+`.
pub open spec fn parse_u64_spec(s: Seq<char>) -> Result<nat, IntErrorKind> {
    if s.len() == 0 {
        Err(IntErrorKind::Empty)
    } else if s.len() == 1 && (s[0] == '+' || s[0] == '-') {
        Err(IntErrorKind::InvalidDigit)
    } else if s[0] == '+' {
        scan_digits(s.drop_first())
    } else {
        scan_digits(s)
    }
}

/// Parses a decimal `u64` the way `str::parse::<u64>` does.
pub fn parse_u64(s: &str) -> (res: Result<u64, IntErrorKind>)
    ensures
        match parse_u64_spec(s@) {
            Ok(v) => res == Ok::<u64, IntErrorKind>(v as u64),
            Err(e) => res == Err::<u64, IntErrorKind>(e),
        },
{
    let cs = text::chars_of(s);
    let n = cs.len();
    if n == 0 {
        return Err(IntErrorKind::Empty);
    }
    if n == 1 && (cs[0] == '+' || cs[0] == '-') {
        return Err(IntErrorKind::InvalidDigit);
    }
    let start: usize = if cs[0] == '+' {
        1
    } else {
        0
    };
    let ghost ds = cs@.subrange(start as int, n as int);
    assert(start == 1 ==> ds =~= cs@.drop_first());
    assert(start == 0 ==> ds =~= cs@);
    assert(parse_u64_spec(s@) == scan_digits(ds));
    let mut value: u64 = 0;
    let mut i = start;
    while i < n
        invariant
            start <= i <= n == cs@.len(),
            ds == cs@.subrange(start as int, n as int),
            parse_u64_spec(s@) == scan_digits(ds),
            scan_digits(ds.subrange(0, (i - start) as int)) == Ok::<nat, IntErrorKind>(value as nat),
        decreases n - i,
    {
        let c = cs[i];
        let ghost pre = ds.subrange(0, (i + 1 - start) as int);
        assert(pre.drop_last() =~= ds.subrange(0, (i - start) as int));
        assert(pre.last() == c);
        if !('0' <= c && c <= '9') {
            proof {
                lemma_scan_error_sticks(ds, (i + 1 - start) as int, IntErrorKind::InvalidDigit);
            }
            return Err(IntErrorKind::InvalidDigit);
        }
        let d: u64 = (c as u32 - '0' as u32) as u64;
        assert(d == digit_value(c));
        if value > 1844674407370955161 || (value == 1844674407370955161 && d > 5) {
            proof {
                assert(value * 10 + d > u64::MAX);
                lemma_scan_error_sticks(ds, (i + 1 - start) as int, IntErrorKind::PosOverflow);
            }
            return Err(IntErrorKind::PosOverflow);
        }
        value = value * 10 + d;
        i = i + 1;
    }
    assert(ds.subrange(0, (n - start) as int) =~= ds);
    Ok(value)
}

/// Once the scan of a prefix fails, the scan of the whole fails the same way.
proof fn lemma_scan_error_sticks(ds: Seq<char>, k: int, e: IntErrorKind)
    requires
        0 <= k <= ds.len(),
        scan_digits(ds.subrange(0, k)) == Err::<nat, IntErrorKind>(e),
    ensures
        scan_digits(ds) == Err::<nat, IntErrorKind>(e),
    decreases ds.len() - k,
{
    if k == ds.len() {
        assert(ds.subrange(0, k) =~= ds);
    } else {
        let next = ds.subrange(0, k + 1);
        assert(next.drop_last() =~= ds.subrange(0, k));
        lemma_scan_error_sticks(ds, k + 1, e);
    }
}

/// A research timeout in seconds: the variable's value when set, else
/// `default_seconds`; it must parse and be positive.
pub open spec fn timeout_of(name: Seq<char>, raw: Option<Seq<char>>, default_seconds: u64) -> Result<nat, Seq<char>> {
    let parsed = match raw {
        Some(r) => match parse_u64_spec(r) {
            Ok(v) => Ok(v),
            Err(k) => Err("invalid "@ + name + ": "@ + int_error_text(k)),
        },
        None => Ok(default_seconds as nat),
    };
    match parsed {
        Err(m) => Err(m),
        Ok(v) => if v == 0 {
            Err(name + " must be greater than zero"@)
        } else {
            Ok(v)
        },
    }
}

/// Reads a research timeout (seconds) from the variable `name`'s value.
pub fn timeout_from_env(name: &str, raw: Option<&str>, default_seconds: u64) -> (res: Result<u64, SearchError>)
    ensures
        match timeout_of(name@, text::opt_str_view(raw), default_seconds) {
            Ok(v) => res == Ok::<u64, SearchError>(v as u64),
            Err(m) => res matches Err(SearchError::Config(x)) && x@ == m,
        },
{
    let seconds = match raw {
        Some(r) => match parse_u64(r) {
            Ok(v) => v,
            Err(k) => {
                let mut m = String::from_str("invalid ");
                m.append(name);
                m.append(": ");
                m.append(int_error_str(k));
                return Err(SearchError::Config(m));
            },
        },
        None => default_seconds,
    };
    if seconds == 0 {
        let mut m = String::from_str(name);
        m.append(" must be greater than zero");
        return Err(SearchError::Config(m));
    }
    Ok(seconds)
}

/// The bridge's settings, timeouts in seconds.
#[derive(Clone, Debug)]
pub struct Settings {
    pub bind: String,
    pub hermes_url: String,
    pub hermes_api_key: String,
    pub light_timeout: u64,
    pub medium_timeout: u64,
    pub deep_timeout: u64,
}

/// The environment values the bridge reads.
pub struct SettingsEnv {
    pub bind: Option<String>,
    pub hermes_url: Option<String>,
    pub hermes_api_key: Option<String>,
    pub light_timeout: Option<String>,
    pub medium_timeout: Option<String>,
    pub deep_timeout: Option<String>,
}

/// The listen address: the variable's value, else the default.
pub fn bind_address(raw: Option<String>) -> (res: String)
    ensures
        res@ == (match raw {
            Some(r) => r@,
            None => DEFAULT_BIND@,
        }),
{
    match raw {
        Some(r) => r,
        None => String::from_str(DEFAULT_BIND),
    }
}

impl Settings {
    /// The settings the environment gives.  The API key is required and must
    /// not be blank; the timeouts default to 30, 120 and 360 seconds.  The
    /// listen address is handed back as given (the application checks it
    /// first).
    pub fn from_env(env: SettingsEnv) -> (res: Result<Settings, SearchError>)
        ensures
            match env.hermes_api_key {
                None => res matches Err(SearchError::Config(m)) && m@ == "HERMES_RESEARCH_API_KEY is required"@,
                Some(k) => if text::is_blank(k@) {
                    res matches Err(SearchError::Config(m)) && m@ == "HERMES_RESEARCH_API_KEY cannot be empty"@
                } else {
                    match timeout_of(
                        "HERMES_SEARCH_LIGHT_TIMEOUT_SECS"@,
                        text::opt_string_view(env.light_timeout),
                        30,
                    ) {
                        Err(m) => res matches Err(SearchError::Config(x)) && x@ == m,
                        Ok(light) => match timeout_of(
                            "HERMES_SEARCH_MEDIUM_TIMEOUT_SECS"@,
                            text::opt_string_view(env.medium_timeout),
                            120,
                        ) {
                            Err(m) => res matches Err(SearchError::Config(x)) && x@ == m,
                            Ok(medium) => match timeout_of(
                                "HERMES_SEARCH_DEEP_TIMEOUT_SECS"@,
                                text::opt_string_view(env.deep_timeout),
                                360,
                            ) {
                                Err(m) => res matches Err(SearchError::Config(x)) && x@ == m,
                                Ok(deep) => res matches Ok(s) && s.hermes_api_key@ == k@ && s.hermes_url@ == (
                                match env.hermes_url {
                                    Some(u) => u@,
                                    None => DEFAULT_HERMES_URL@,
                                }) && s.bind@ == (match env.bind {
                                    Some(b) => b@,
                                    None => DEFAULT_BIND@,
                                }) && s.light_timeout == light && s.medium_timeout == medium && s.deep_timeout
                                    == deep,
                            },
                        },
                    }
                },
            },
    {
        let SettingsEnv { bind, hermes_url, hermes_api_key, light_timeout, medium_timeout, deep_timeout } = env;
        let bind = bind_address(bind);
        let hermes_url = match hermes_url {
            Some(u) => u,
            None => String::from_str(DEFAULT_HERMES_URL),
        };
        let hermes_api_key = match hermes_api_key {
            Some(k) => k,
            None => return Err(SearchError::Config(String::from_str("HERMES_RESEARCH_API_KEY is required"))),
        };
        if text::blank(hermes_api_key.as_str()) {
            return Err(SearchError::Config(String::from_str("HERMES_RESEARCH_API_KEY cannot be empty")));
        }
        let light_timeout = match &light_timeout {
            Some(r) => timeout_from_env("HERMES_SEARCH_LIGHT_TIMEOUT_SECS", Some(r.as_str()), 30)?,
            None => timeout_from_env("HERMES_SEARCH_LIGHT_TIMEOUT_SECS", None, 30)?,
        };
        let medium_timeout = match &medium_timeout {
            Some(r) => timeout_from_env("HERMES_SEARCH_MEDIUM_TIMEOUT_SECS", Some(r.as_str()), 120)?,
            None => timeout_from_env("HERMES_SEARCH_MEDIUM_TIMEOUT_SECS", None, 120)?,
        };
        let deep_timeout = match &deep_timeout {
            Some(r) => timeout_from_env("HERMES_SEARCH_DEEP_TIMEOUT_SECS", Some(r.as_str()), 360)?,
            None => timeout_from_env("HERMES_SEARCH_DEEP_TIMEOUT_SECS", None, 360)?,
        };
        Ok(Settings { bind, hermes_url, hermes_api_key, light_timeout, medium_timeout, deep_timeout })
    }
}

/// The DSH side of the installed configuration.
#[derive(Clone, Debug)]
pub struct DshConfig {
    pub profile: String,
    pub server_name: String,
    pub native_web: DshNativeWebConfig,
}

/// The Hermes side of the installed configuration.
#[derive(Clone, Debug)]
pub struct HermesConfig {
    pub profile: String,
    pub url: String,
}

/// The MCP server side of the installed configuration.
#[derive(Clone, Debug)]
pub struct McpConfig {
    pub bind: String,
}

/// The installed configuration file.
#[derive(Clone, Debug)]
pub struct FileConfig {
    pub dsh: DshConfig,
    pub hermes: HermesConfig,
    pub mcp: McpConfig,
}

impl Default for FileConfig {
    /// The configuration before anything was installed: the `web` DSH
    /// profile with both native tools, the `hsa-research` Hermes profile on
    /// the local API port, and the local MCP address.
    fn default() -> (res: FileConfig)
        ensures
            res.dsh.profile@ == "web"@,
            res.dsh.server_name@ == "hermes_search"@,
            res.dsh.native_web == (DshNativeWebConfig { search: true, fetch: true }),
            res.hermes.profile@ == "hsa-research"@,
            res.hermes.url@ == DEFAULT_HERMES_URL@,
            res.mcp.bind@ == DEFAULT_BIND@,
    {
        FileConfig {
            dsh: DshConfig {
                profile: String::from_str("web"),
                server_name: String::from_str("hermes_search"),
                native_web: DshNativeWebConfig { search: true, fetch: true },
            },
            hermes: HermesConfig { profile: String::from_str("hsa-research"), url: String::from_str(DEFAULT_HERMES_URL) },
            mcp: McpConfig { bind: String::from_str(DEFAULT_BIND) },
        }
    }
}

impl FileConfig {
    /// Records an installation: the DSH profile, the Hermes profile, the
    /// local endpoints, the server name and the native web policy.
    pub fn record_install(&mut self, dsh_profile: &str, hermes_profile: &str, native_web: DshNativeWebConfig)
        ensures
            final(self).dsh.profile@ == dsh_profile@,
            final(self).dsh.server_name@ == "hermes_search"@,
            final(self).dsh.native_web == native_web,
            final(self).hermes.profile@ == hermes_profile@,
            final(self).hermes.url@ == DEFAULT_HERMES_URL@,
            final(self).mcp.bind@ == DEFAULT_BIND@,
    {
        self.dsh.profile = String::from_str(dsh_profile);
        self.hermes.profile = String::from_str(hermes_profile);
        self.hermes.url = String::from_str(DEFAULT_HERMES_URL);
        self.mcp.bind = String::from_str(DEFAULT_BIND);
        self.dsh.server_name = String::from_str("hermes_search");
        self.dsh.native_web = native_web;
    }
}

} // verus!
