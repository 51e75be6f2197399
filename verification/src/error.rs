//! The error type of the library.
use vstd::prelude::*;

use crate::text;

verus! {

/// Errors reported by the research bridge and its installer.
///
/// Failures of HTTP requests and of file or process I/O happen in the
/// application around this library, which wraps this type with variants of
/// its own for them.
#[derive(Debug)]
pub enum SearchError {
    Config(String),
    InvalidInput(String),
    HermesHttp { status: u16, body: String },
    HermesProtocol(String),
    HermesRun(String),
    Timeout { seconds: u64 },
    Command { program: String, code: Option<i32>, stderr: String },
    Install(String),
}

/// `-` and the digits of `-n` for negative `n`, else the digits of `n`.
pub open spec fn signed_decimal(n: int) -> Seq<char> {
    if n < 0 {
        "-"@ + text::decimal((-n) as nat)
    } else {
        text::decimal(n as nat)
    }
}

/// An optional exit code as `{:?}` writes it.
pub open spec fn code_text(code: Option<i32>) -> Seq<char> {
    match code {
        Some(c) => "Some("@ + signed_decimal(c as int) + ")"@,
        None => "None"@,
    }
}

/// The message of each error.
pub open spec fn message(e: SearchError) -> Seq<char> {
    match e {
        SearchError::Config(m) => "invalid configuration: "@ + m@,
        SearchError::InvalidInput(m) => "invalid research brief: "@ + m@,
        SearchError::HermesHttp { status, body } => "Hermes API returned HTTP "@ + text::decimal(status as nat) + ": "@
            + body@,
        SearchError::HermesProtocol(m) => "Hermes protocol error: "@ + m@,
        SearchError::HermesRun(m) => "Hermes research run failed: "@ + m@,
        SearchError::Timeout { seconds } => "research timed out after "@ + text::decimal(seconds as nat) + "s"@,
        SearchError::Command { program, code, stderr } => "command failed: "@ + program@ + " (exit "@ + code_text(
            code,
        ) + ")\n"@ + stderr@,
        SearchError::Install(m) => "installation error: "@ + m@,
    }
}

fn code_string(code: Option<i32>) -> (res: String)
    ensures
        res@ == code_text(code),
{
    match code {
        Some(c) => {
            let mut s = String::from_str("Some(");
            if c < 0 {
                s.append("-");
                let magnitude: u64 = (0i64 - c as i64) as u64;
                let digits = text::decimal_string(magnitude);
                s.append(digits.as_str());
            } else {
                let digits = text::decimal_string(c as u64);
                s.append(digits.as_str());
            }
            s.append(")");
            s
        },
        None => String::from_str("None"),
    }
}

impl SearchError {
    /// The error's message, as it is shown to users.
    pub fn describe(&self) -> (res: String)
        ensures
            res@ == message(*self),
    {
        match self {
            SearchError::Config(m) => {
                let mut s = String::from_str("invalid configuration: ");
                s.append(m.as_str());
                s
            },
            SearchError::InvalidInput(m) => {
                let mut s = String::from_str("invalid research brief: ");
                s.append(m.as_str());
                s
            },
            SearchError::HermesHttp { status, body } => {
                let mut s = String::from_str("Hermes API returned HTTP ");
                let digits = text::decimal_string(*status as u64);
                s.append(digits.as_str());
                s.append(": ");
                s.append(body.as_str());
                s
            },
            SearchError::HermesProtocol(m) => {
                let mut s = String::from_str("Hermes protocol error: ");
                s.append(m.as_str());
                s
            },
            SearchError::HermesRun(m) => {
                let mut s = String::from_str("Hermes research run failed: ");
                s.append(m.as_str());
                s
            },
            SearchError::Timeout { seconds } => {
                let mut s = String::from_str("research timed out after ");
                let digits = text::decimal_string(*seconds);
                s.append(digits.as_str());
                s.append("s");
                s
            },
            SearchError::Command { program, code, stderr } => {
                let mut s = String::from_str("command failed: ");
                s.append(program.as_str());
                s.append(" (exit ");
                let c = code_string(*code);
                s.append(c.as_str());
                s.append(")\n");
                s.append(stderr.as_str());
                s
            },
            SearchError::Install(m) => {
                let mut s = String::from_str("installation error: ");
                s.append(m.as_str());
                s
            },
        }
    }
}

/// `res` is the text `expected` gives, or an installation error with the
/// message `expected` gives.
pub open spec fn install_outcome(res: Result<String, SearchError>, expected: Result<Seq<char>, Seq<char>>) -> bool {
    match expected {
        Ok(t) => res matches Ok(r) && r@ == t,
        Err(m) => res matches Err(SearchError::Install(x)) && x@ == m,
    }
}

/// An installation error carrying `msg`.
pub fn install_error(msg: &str) -> (res: SearchError)
    ensures
        res matches SearchError::Install(m) && m@ == msg@,
{
    SearchError::Install(String::from_str(msg))
}

} // verus!
