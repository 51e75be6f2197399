//! The research levels and how a research run ends.
//!
//! Starting the run and waiting for it, under a time limit, is the
//! application's work; this module decides what each level waits for, how
//! the run's session is named, and what the caller gets back.
use vstd::prelude::*;

use crate::config::Settings;
use crate::error::SearchError;
use crate::hermes::CompletedRun;

verus! {

/// The three research levels.
#[derive(Clone, Copy, Debug, PartialEq, Eq, Structural)]
pub enum ResearchMode {
    Light,
    Medium,
    Deep,
}

impl ResearchMode {
    /// The level's tool name.
    pub fn name(self) -> (res: &'static str)
        ensures
            res@ == (match self {
                ResearchMode::Light => "light_search"@,
                ResearchMode::Medium => "medium_research"@,
                ResearchMode::Deep => "deep_research"@,
            }),
    {
        match self {
            ResearchMode::Light => "light_search",
            ResearchMode::Medium => "medium_research",
            ResearchMode::Deep => "deep_research",
        }
    }
}

/// How long each level may run, in seconds.
#[derive(Clone, Copy, Debug)]
pub struct ResearchTimeouts {
    pub light: u64,
    pub medium: u64,
    pub deep: u64,
}

impl ResearchTimeouts {
    /// The time limits the settings give.
    pub fn new(settings: &Settings) -> (res: ResearchTimeouts)
        ensures
            res.light == settings.light_timeout,
            res.medium == settings.medium_timeout,
            res.deep == settings.deep_timeout,
    {
        ResearchTimeouts { light: settings.light_timeout, medium: settings.medium_timeout, deep: settings.deep_timeout }
    }

    /// The time limit of a level.
    pub fn timeout_for(&self, mode: ResearchMode) -> (res: u64)
        ensures
            res == (match mode {
                ResearchMode::Light => self.light,
                ResearchMode::Medium => self.medium,
                ResearchMode::Deep => self.deep,
            }),
    {
        match mode {
            ResearchMode::Light => self.light,
            ResearchMode::Medium => self.medium,
            ResearchMode::Deep => self.deep,
        }
    }
}

/// The Hermes session of a research request.
pub fn session_id(request_id: &str) -> (res: String)
    ensures
        res@ == "dsh-research-"@ + request_id@,
{
    let mut s = String::from_str("dsh-research-");
    s.append(request_id);
    s
}

/// How waiting for a started run ended.
pub enum RunOutcome {
    Completed(CompletedRun),
    Failed(SearchError),
    TimedOut,
}

/// What the caller gets, and whether the abandoned run must be stopped.
pub struct RunEnd {
    pub result: Result<String, SearchError>,
    pub stop_run: bool,
}

/// The end of a research run: a completed run answers with its final text;
/// a failed one passes its error on; one that ran out of time reports the
/// limit.  Any run that did not complete is stopped.
pub fn finish_run(outcome: RunOutcome, timeout_seconds: u64) -> (res: RunEnd)
    ensures
        match outcome {
            RunOutcome::Completed(run) => res.result matches Ok(t) && t@ == run.content@ && !res.stop_run,
            RunOutcome::Failed(e) => res.result == Err::<String, SearchError>(e) && res.stop_run,
            RunOutcome::TimedOut => res.result matches Err(SearchError::Timeout { seconds }) && seconds
                == timeout_seconds && res.stop_run,
        },
{
    match outcome {
        RunOutcome::Completed(run) => RunEnd { result: Ok(run.content), stop_run: false },
        RunOutcome::Failed(e) => RunEnd { result: Err(e), stop_run: true },
        RunOutcome::TimedOut => RunEnd { result: Err(SearchError::Timeout { seconds: timeout_seconds }), stop_run: true },
    }
}

} // verus!
