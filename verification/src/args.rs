//! Resolved run options: root directory, optional output destination, and
//! the extension allow/deny lists. The deny list is always the union of the
//! caller-supplied one and the policy's ignored extensions; an overlap
//! between allow and deny lists is a fatal usage error caught here, before
//! any traversal.

use vstd::prelude::*;
use crate::config::Config;
use crate::strutil::contains_string;
use crate::strutil::views_of;

verus! {

/// Options for one run, after merging the caller-supplied values with the
/// exclusion policy.
pub struct Args {
    pub directory: Option<String>,
    pub output_file: Option<String>,
    pub extensions: Option<Vec<String>>,
    pub ignore: Option<Vec<String>>,
}

/// The fatal usage errors that argument resolution can report.
#[derive(Debug)]
pub enum ArgsError {
    ExtensionConflict,
}

impl ArgsError {
    /// A human-readable description of the error.
    pub fn message(&self) -> (r: &str)
        ensures
            r@ == "The extensions and ignore list must not overlap"@,
    {
        match self {
            ArgsError::ExtensionConflict => "The extensions and ignore list must not overlap",
        }
    }
}

/// Whether some element of `a` also occurs in `b`.
pub open spec fn lists_overlap(a: Seq<Seq<char>>, b: Seq<Seq<char>>) -> bool {
    exists|i: int| 0 <= i < a.len() && b.contains(a[i])
}

/// The deny list a run ends up with: the caller-supplied ignore list (if
/// any) followed by the policy's ignored extensions.
pub open spec fn merged_ignore_views(ignore: Option<Vec<String>>, config: Config) -> Seq<
    Seq<char>,
> {
    (match ignore {
        Some(v) => views_of(v@),
        None => Seq::<Seq<char>>::empty(),
    }) + views_of(config.ignored_extensions@)
}

impl Args {
    /// Whether a file with extension `ext` passes the extension rules: with
    /// an allow list, exactly its members pass; otherwise everything outside
    /// the deny list passes.
    pub open spec fn spec_ext_allowed(self, ext: Seq<char>) -> bool {
        match self.extensions {
            Some(allow) => views_of(allow@).contains(ext),
            None => match self.ignore {
                Some(deny) => !views_of(deny@).contains(ext),
                None => true,
            },
        }
    }

    /// Decides whether the raw extension string `extension` passes the
    /// extension rules.
    pub fn is_valid_extension(&self, extension: &str) -> (r: bool)
        ensures
            r == self.spec_ext_allowed(extension@),
    {
        match &self.extensions {
            Some(allow) => contains_string(allow, extension),
            None => match &self.ignore {
                Some(deny) => !contains_string(deny, extension),
                None => true,
            },
        }
    }

    /// Resolves the run options: merges the caller's ignore list with the
    /// policy's ignored extensions, and rejects an allow list that shares an
    /// extension with the merged deny list. The check happens before any
    /// file is touched; on conflict no options are produced.
    pub fn parse(
        directory: Option<String>,
        output_file: Option<String>,
        extensions: Option<Vec<String>>,
        ignore: Option<Vec<String>>,
        config: &Config,
    ) -> (r: Result<Args, ArgsError>)
        ensures
            r is Ok <==> !(extensions is Some && lists_overlap(
                views_of(extensions.unwrap()@),
                merged_ignore_views(ignore, *config),
            )),
            r is Err ==> r->Err_0 is ExtensionConflict,
            r is Ok ==> r->Ok_0.directory == directory,
            r is Ok ==> r->Ok_0.output_file == output_file,
            r is Ok ==> r->Ok_0.extensions == extensions,
            r is Ok ==> r->Ok_0.ignore is Some,
            r is Ok ==> views_of(r->Ok_0.ignore.unwrap()@) == merged_ignore_views(
                ignore,
                *config,
            ),
    {
        let ghost user_ignore_views: Seq<Seq<char>> = match &ignore {
            Some(v) => views_of(v@),
            None => Seq::<Seq<char>>::empty(),
        };
        let mut merged: Vec<String> = match ignore {
            Some(v) => v,
            None => Vec::new(),
        };
        assert(views_of(merged@) =~= user_ignore_views);
        let mut k: usize = 0;
        while k < config.ignored_extensions.len()
            invariant
                0 <= k <= config.ignored_extensions.len(),
                views_of(merged@) =~= user_ignore_views + views_of(
                    config.ignored_extensions@.take(k as int),
                ),
            decreases config.ignored_extensions.len() - k,
        {
            let ghost pre: Seq<String> = merged@;
            merged.push(config.ignored_extensions[k].clone());
            proof {
                assert(merged@ =~= pre.push(merged@.last()));
                crate::strutil::lemma_views_push(pre, merged@.last());
                assert(config.ignored_extensions@.take(k as int + 1)
                    =~= config.ignored_extensions@.take(k as int).push(
                    config.ignored_extensions@[k as int],
                ));
                crate::strutil::lemma_views_push(
                    config.ignored_extensions@.take(k as int),
                    config.ignored_extensions@[k as int],
                );
                assert(views_of(merged@) =~= user_ignore_views + views_of(
                    config.ignored_extensions@.take(k as int + 1),
                ));
            }
            k += 1;
        }
        proof {
            assert(config.ignored_extensions@.take(config.ignored_extensions@.len() as int)
                =~= config.ignored_extensions@);
            assert(views_of(merged@) =~= merged_ignore_views(ignore, *config));
        }
        if let Some(allow) = &extensions {
            let mut i: usize = 0;
            while i < allow.len()
                invariant
                    0 <= i <= allow.len(),
                    views_of(merged@) == merged_ignore_views(ignore, *config),
                    extensions == Some(*allow),
                    forall|j: int|
                        0 <= j < i ==> !merged_ignore_views(ignore, *config).contains(
                            views_of(allow@)[j],
                        ),
                decreases allow.len() - i,
            {
                if contains_string(&merged, allow[i].as_str()) {
                    proof {
                        assert(views_of(allow@)[i as int] == allow@[i as int]@);
                        assert(lists_overlap(
                            views_of(allow@),
                            merged_ignore_views(ignore, *config),
                        ));
                    }
                    return Err(ArgsError::ExtensionConflict);
                }
                proof {
                    assert(views_of(allow@)[i as int] == allow@[i as int]@);
                }
                i += 1;
            }
            assert(!lists_overlap(views_of(allow@), merged_ignore_views(ignore, *config)));
        }
        Ok(
            Args {
                directory,
                output_file,
                extensions,
                ignore: Some(merged),
            },
        )
    }
}

} // verus!
