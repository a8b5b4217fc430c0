//! The three exclusion predicates, applied to every traversed entry:
//! folder filter, file-name filter, and extension filter. Each is a pure
//! function of the entry and the rules, composed by conjunction.

use vstd::prelude::*;
use crate::args::Args;
use crate::config::Config;
use crate::entry::Entry;
use crate::strutil::contains_string;
use crate::strutil::extension_of;
use crate::strutil::spec_extension;
use crate::strutil::views_of;

verus! {

/// An entry passes the folder filter when none of its named path components
/// is an ignored folder name; exclusion is thereby inherited by every
/// descendant of an ignored folder, at any depth.
pub open spec fn spec_valid_folder(e: Entry, config: Config) -> bool {
    forall|i: int|
        0 <= i < e.comps().len() ==> !views_of(config.ignored_folders@).contains(e.comps()[i])
}

/// An entry passes the file-name filter unless it is a regular file whose
/// base name is an ignored file name; directories always pass.
pub open spec fn spec_valid_file(e: Entry, config: Config) -> bool {
    !(e.is_file && views_of(config.ignored_files@).contains(e.spec_name()))
}

/// An entry passes the extension filter when it has no extension, or its
/// extension passes the run's extension rules.
pub open spec fn spec_valid_extension(e: Entry, args: Args) -> bool {
    match spec_extension(e.spec_name()) {
        None => true,
        Some(ext) => args.spec_ext_allowed(ext),
    }
}

/// Decides the folder filter for `entry`.
pub fn is_valid_folder(entry: &Entry, config: &Config) -> (r: bool)
    ensures
        r == spec_valid_folder(*entry, *config),
{
    let mut i: usize = 0;
    while i < entry.components.len()
        invariant
            0 <= i <= entry.components.len(),
            forall|j: int|
                0 <= j < i ==> !views_of(config.ignored_folders@).contains(entry.comps()[j]),
        decreases entry.components.len() - i,
    {
        if contains_string(&config.ignored_folders, entry.components[i].as_str()) {
            proof {
                assert(entry.comps()[i as int] == entry.components@[i as int]@);
            }
            return false;
        }
        proof {
            assert(entry.comps()[i as int] == entry.components@[i as int]@);
        }
        i += 1;
    }
    true
}

/// Decides the file-name filter for `entry`.
pub fn is_valid_file(entry: &Entry, config: &Config) -> (r: bool)
    ensures
        r == spec_valid_file(*entry, *config),
{
    if !entry.is_file {
        return true;
    }
    let name: String = entry.file_name();
    !contains_string(&config.ignored_files, name.as_str())
}

/// Decides the extension filter for `entry`.
pub fn is_valid_extension(entry: &Entry, args: &Args) -> (r: bool)
    ensures
        r == spec_valid_extension(*entry, *args),
{
    let name: String = entry.file_name();
    match extension_of(name.as_str()) {
        None => true,
        Some(ext) => args.is_valid_extension(ext.as_str()),
    }
}

} // verus!
