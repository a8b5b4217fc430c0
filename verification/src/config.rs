//! The exclusion policy: three sets of names that must never appear in output.
//!
//! The policy is loaded from persistent storage by the caller and handed in as
//! plain string lists; the only in-memory mutation is appending the resolved
//! output file's name to the ignored files, so a run never re-ingests its own
//! output.

use vstd::prelude::*;
use crate::strutil::views_of;

verus! {

/// Exclusion rules: folder names, file base names, and extensions that are
/// excluded from output. Membership tests are exact string equality.
pub struct Config {
    pub ignored_folders: Vec<String>,
    pub ignored_files: Vec<String>,
    pub ignored_extensions: Vec<String>,
}

impl Config {
    /// Appends the resolved output file's base name to the ignored files, so
    /// the tool never includes its own output when output and input overlap.
    pub fn add_output_file_to_ignored_files(&mut self, file_name: &str)
        ensures
            final(self).ignored_files@.len() == old(self).ignored_files@.len() + 1,
            final(self).ignored_files@.last()@ == file_name@,
            forall|i: int|
                0 <= i < old(self).ignored_files@.len() ==> final(self).ignored_files@[i]
                    == old(self).ignored_files@[i],
            final(self).ignored_folders == old(self).ignored_folders,
            final(self).ignored_extensions == old(self).ignored_extensions,
    {
        self.ignored_files.push(file_name.to_owned());
    }
}

/// Law: the name last appended to the ignored files is a member of the set
/// the file-name filter consults, so a run's own output file is excluded
/// once its name is added.
pub proof fn lemma_last_ignored_file_is_ignored(c: Config)
    requires
        c.ignored_files@.len() > 0,
    ensures
        views_of(c.ignored_files@).contains(c.ignored_files@.last()@),
{
    assert(views_of(c.ignored_files@)[c.ignored_files@.len() - 1] == c.ignored_files@.last()@);
}

} // verus!
