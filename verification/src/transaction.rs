//! Snapshots of files taken before an installation changes them.
use vstd::prelude::*;

verus! {

/// A file's content at the time it was captured, or its absence.
#[derive(Debug)]
pub struct FileSnapshot {
    path: String,
    content: Option<Vec<u8>>,
}

impl FileSnapshot {
    pub closed spec fn path_of(&self) -> Seq<char> {
        self.path@
    }

    pub closed spec fn content_of(&self) -> Option<Seq<u8>> {
        match self.content {
            Some(v) => Some(v@),
            None => None,
        }
    }

    /// A snapshot of the file at `path` holding `content` (`None` when the
    /// file did not exist).  The application reads the file.
    pub fn capture(path: &str, content: Option<Vec<u8>>) -> (res: FileSnapshot)
        ensures
            res.path_of() == path@,
            res.content_of() == (match content {
                Some(v) => Some(v@),
                None => None::<Seq<u8>>,
            }),
    {
        FileSnapshot { path: String::from_str(path), content }
    }

    /// The file existed when it was captured.
    pub fn existed(&self) -> (res: bool)
        ensures
            res == self.content_of() is Some,
    {
        self.content.is_some()
    }

    /// The captured file's path.
    pub fn path(&self) -> (res: &str)
        ensures
            res@ == self.path_of(),
    {
        self.path.as_str()
    }

    /// The captured bytes, or `None` when the file did not exist; restoring
    /// writes them back or removes the file.
    pub fn content(&self) -> (res: Option<&Vec<u8>>)
        ensures
            match res {
                Some(v) => self.content_of() == Some(v@),
                None => self.content_of() is None,
            },
    {
        match &self.content {
            Some(v) => Some(v),
            None => None,
        }
    }
}

} // verus!
