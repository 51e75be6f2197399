//! Results of the external commands the installer runs.
//!
//! Spawning a command is the application's work; this module holds what a
//! finished command produced and the rule that turns a failure into an error.
use vstd::prelude::*;

use crate::error::SearchError;
use crate::text;

verus! {

/// What a finished command produced; its output is trimmed text.
#[derive(Debug, Clone)]
pub struct ProcessOutput {
    pub code: Option<i32>,
    pub stdout: String,
    pub stderr: String,
}

impl ProcessOutput {
    /// The command exited with status zero.
    pub fn success(&self) -> (res: bool)
        ensures
            res == (self.code == Some(0i32)),
    {
        match self.code {
            Some(c) => c == 0,
            None => false,
        }
    }
}

/// The output of a command that must succeed: handed back when it did, else
/// a command error naming `program` with its exit code and error output.
pub fn require_success(program: &str, output: ProcessOutput) -> (res: Result<ProcessOutput, SearchError>)
    ensures
        output.code == Some(0i32) ==> res == Ok::<ProcessOutput, SearchError>(output),
        output.code != Some(0i32) ==> (res matches Err(SearchError::Command { program: p, code, stderr })
            && p@ == program@ && code == output.code && stderr@ == output.stderr@),
{
    if output.success() {
        Ok(output)
    } else {
        let ProcessOutput { code, stdout: _, stderr } = output;
        Err(SearchError::Command { program: String::from_str(program), code, stderr })
    }
}

/// The views of a literal argument list.
pub open spec fn literal_views(parts: Seq<&str>) -> Seq<Seq<char>> {
    parts.map_values(|p: &str| p@)
}

/// An owned argument list.
pub fn command_args(parts: Vec<&str>) -> (res: Vec<String>)
    ensures
        text::string_views(res@) == literal_views(parts@),
{
    let mut res: Vec<String> = Vec::new();
    let mut i: usize = 0;
    while i < parts.len()
        invariant
            i <= parts@.len(),
            text::string_views(res@) == literal_views(parts@.subrange(0, i as int)),
        decreases parts.len() - i,
    {
        let ghost before = res@;
        res.push(String::from_str(parts[i]));
        assert(literal_views(parts@.subrange(0, i + 1)) =~= literal_views(parts@.subrange(0, i as int)).push(parts@[i as int]@));
        assert(text::string_views(res@) =~= text::string_views(before).push(parts@[i as int]@));
        i = i + 1;
    }
    assert(parts@.subrange(0, parts@.len() as int) =~= parts@);
    res
}

} // verus!
