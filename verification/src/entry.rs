//! The model of a filesystem node discovered during traversal: its named
//! path components and whether it is a regular file. The caller that walks
//! the tree hands entries in as plain values, in traversal order.

use vstd::prelude::*;
use crate::strutil::views_of;

verus! {

/// A filesystem node: the normal (named) components of its path, in order,
/// and whether it is a regular file.
pub struct Entry {
    pub components: Vec<String>,
    pub is_file: bool,
}

impl Entry {
    /// The views of this entry's path components.
    pub open spec fn comps(self) -> Seq<Seq<char>> {
        views_of(self.components@)
    }

    /// The entry's base name: its last component, or the empty string for an
    /// entry with no named components.
    pub open spec fn spec_name(self) -> Seq<char> {
        if self.components@.len() == 0 {
            Seq::<char>::empty()
        } else {
            self.components@.last()@
        }
    }

    /// Returns the entry's base name.
    pub fn file_name(&self) -> (r: String)
        ensures
            r@ == self.spec_name(),
    {
        if self.components.len() == 0 {
            String::new()
        } else {
            self.components[self.components.len() - 1].clone()
        }
    }
}

} // verus!
