//! The clock used to stamp the installation record, and the description of
//! a file that the application is to write.
use vstd::prelude::*;

use crate::paths::{join_path, joined};
use crate::text;

verus! {

/// Seconds since the Unix epoch by the system clock (`SystemTime::now`), or
/// zero when the clock reads earlier than the epoch.  Nothing is stated of
/// the value: it is whatever the clock says.
#[verifier::external_body]
pub fn now_unix() -> u64 {
    std::time::SystemTime::now().duration_since(std::time::UNIX_EPOCH).unwrap_or_default().as_secs()
}

/// A file to be written whole, replacing what was there, with Unix
/// permission bits `mode`.
#[derive(Debug)]
pub struct FileWrite {
    pub path: String,
    pub contents: String,
    pub mode: u32,
}

/// The backup of a file labelled `label`, taken at time `now`:
/// `<backup_dir>/<label>.<now>.bak`.
pub fn backup_path(backup_dir: &str, label: &str, now: u64) -> (res: String)
    ensures
        res@ == joined(backup_dir@, label@ + "."@ + text::decimal(now as nat) + ".bak"@),
{
    let mut name = String::from_str(label);
    name.append(".");
    let digits = text::decimal_string(now);
    name.append(digits.as_str());
    name.append(".bak");
    join_path(backup_dir, name.as_str())
}

} // verus!
