//! The traversal-filter-format pipeline: which of the walked entries are
//! included, how each survivor's path is expressed relative to the walked
//! root, and how the surviving files are rendered into the ordered sequence
//! of output blocks.

use vstd::prelude::*;
use crate::args::Args;
use crate::config::Config;
use crate::entry::Entry;
use crate::formatter::spec_format;
use crate::args::merged_ignore_views;
use crate::strutil::lemma_views_push;
use crate::strutil::spec_extension;
use crate::strutil::trim;
use crate::strutil::trim_spec;
use crate::strutil::views_of;
use crate::validator::is_valid_extension;
use crate::validator::is_valid_file;
use crate::validator::is_valid_folder;
use crate::validator::spec_valid_extension;
use crate::validator::spec_valid_file;
use crate::validator::spec_valid_folder;

verus! {

/// The fatal mid-run errors: a traversed path that cannot be expressed
/// relative to the walked root.
#[derive(Debug)]
pub enum PipelineError {
    RelativePath,
}

impl PipelineError {
    /// A human-readable description of the error.
    pub fn message(&self) -> (r: &str)
        ensures
            r@ == "Failed to get relative path"@,
    {
        match self {
            PipelineError::RelativePath => "Failed to get relative path",
        }
    }
}

/// An entry contributes to output exactly when it is a regular file and
/// passes the folder, file-name, and extension filters.
pub open spec fn spec_included(e: Entry, config: Config, args: Args) -> bool {
    &&& e.is_file
    &&& spec_valid_folder(e, config)
    &&& spec_valid_file(e, config)
    &&& spec_valid_extension(e, args)
}

/// Decides inclusion for one entry: the folder, file-name, and extension
/// filters in that order, and only a regular file contributes.
pub fn is_included(entry: &Entry, config: &Config, args: &Args) -> (r: bool)
    ensures
        r == spec_included(*entry, *config, *args),
{
    is_valid_folder(entry, config) && is_valid_file(entry, config) && is_valid_extension(
        entry,
        args,
    ) && entry.is_file
}

/// Keeps, in traversal order, exactly the entries that contribute to
/// output.
pub fn filter_entries(entries: Vec<Entry>, config: &Config, args: &Args) -> (r: Vec<Entry>)
    ensures
        r@ == entries@.filter(|e: Entry| spec_included(e, *config, *args)),
{
    let ghost all: Seq<Entry> = entries@;
    let mut rest: Vec<Entry> = entries;
    let mut r: Vec<Entry> = Vec::new();
    while rest.len() > 0
        invariant
            rest@.len() <= all.len(),
            rest@ == all.skip(all.len() - rest@.len()),
            r@ == all.take(all.len() - rest@.len()).filter(
                |e: Entry| spec_included(e, *config, *args),
            ),
        decreases rest.len(),
    {
        let ghost k: int = all.len() - rest@.len();
        let e: Entry = rest.remove(0);
        proof {
            assert(e == all[k]);
            assert(rest@ =~= all.skip(k + 1));
        }
        let keep: bool = is_included(&e, config, args);
        if keep {
            r.push(e);
        }
        proof {
            reveal(Seq::filter);
            assert(all.take(k + 1).drop_last() =~= all.take(k));
            assert(all.take(k + 1).last() == all[k]);
        }
    }
    proof {
        assert(all.take(all.len() as int) =~= all);
    }
    r
}

/// Law: every entry the filter keeps passed every filter: each element of
/// the filtered sequence is included.
pub proof fn lemma_filter_entries_sound(entries: Seq<Entry>, config: Config, args: Args, i: int)
    requires
        0 <= i < entries.filter(|e: Entry| spec_included(e, config, args)).len(),
    ensures
        spec_included(entries.filter(|e: Entry| spec_included(e, config, args))[i], config, args),
{
    broadcast use vstd::seq_lib::group_filter_ensures;

}

/// Law: an entry that any filter excludes never appears in the filtered
/// sequence, so it never reaches the output.
pub proof fn lemma_excluded_never_output(entries: Seq<Entry>, config: Config, args: Args, e: Entry)
    requires
        !spec_included(e, config, args),
    ensures
        !entries.filter(|x: Entry| spec_included(x, config, args)).contains(e),
{
    let kept: Seq<Entry> = entries.filter(|x: Entry| spec_included(x, config, args));
    if kept.contains(e) {
        let i: int = choose|i: int| 0 <= i < kept.len() && kept[i] == e;
        lemma_filter_entries_sound(entries, config, args, i);
    }
}

/// Law: if any named component of a path is an ignored folder name, then no
/// descendant of that path (any entry having it as a component-wise prefix)
/// is included, whatever the descendant's own name or extension.
pub proof fn lemma_ignored_folder_excludes_descendants(
    ancestor: Seq<Seq<char>>,
    e: Entry,
    config: Config,
    args: Args,
)
    requires
        is_prefix_of(ancestor, e.comps()),
        exists|i: int|
            0 <= i < ancestor.len() && views_of(config.ignored_folders@).contains(
                #[trigger] ancestor[i],
            ),
    ensures
        !spec_included(e, config, args),
{
    let i: int = choose|i: int|
        0 <= i < ancestor.len() && views_of(config.ignored_folders@).contains(
            #[trigger] ancestor[i],
        );
    assert(e.comps()[i] == ancestor[i]);
    assert(!spec_valid_folder(e, config));
}

/// Law: a regular file whose base name is an ignored file name is excluded
/// even when it would pass the extension rules.
pub proof fn lemma_ignored_file_name_excludes(e: Entry, config: Config, args: Args)
    requires
        e.is_file,
        views_of(config.ignored_files@).contains(e.spec_name()),
    ensures
        !spec_included(e, config, args),
{
}

/// Law: a directory is never excluded by the file-name filter, whatever its
/// name.
pub proof fn lemma_directory_passes_file_filter(e: Entry, config: Config)
    requires
        !e.is_file,
    ensures
        spec_valid_file(e, config),
{
}

/// Law: when an allow list is present, the deny list is irrelevant: two
/// runs with the same allow list agree on the extension filter everywhere.
pub proof fn lemma_allow_list_exclusive(e: Entry, a1: Args, a2: Args)
    requires
        a1.extensions is Some,
        a1.extensions == a2.extensions,
    ensures
        spec_valid_extension(e, a1) == spec_valid_extension(e, a2),
{
}

/// Law: when an allow list is present, every included file with an
/// extension has its extension in the allow list.
pub proof fn lemma_allow_list_members_only(e: Entry, config: Config, args: Args)
    requires
        args.extensions is Some,
        spec_included(e, config, args),
        spec_extension(e.spec_name()) is Some,
    ensures
        views_of(args.extensions.unwrap()@).contains(spec_extension(e.spec_name()).unwrap()),
{
}

/// Law: without an allow list, the extension filter excludes exactly the
/// files whose extension lies in the merged deny list (the caller's deny
/// list together with the policy's ignored extensions), and a file without
/// an extension always passes.
pub proof fn lemma_deny_list_exact(
    e: Entry,
    config: Config,
    args: Args,
    user_ignore: Option<Vec<String>>,
)
    requires
        args.extensions is None,
        args.ignore is Some,
        views_of(args.ignore.unwrap()@) == merged_ignore_views(user_ignore, config),
    ensures
        spec_valid_extension(e, args) == (match spec_extension(e.spec_name()) {
            None => true,
            Some(x) => !merged_ignore_views(user_ignore, config).contains(x),
        }),
{
}

/// Whether `p` is a (component-wise) prefix of `s`.
pub open spec fn is_prefix_of(p: Seq<Seq<char>>, s: Seq<Seq<char>>) -> bool {
    p.len() <= s.len() && forall|i: int| 0 <= i < p.len() ==> p[i] == s[i]
}

/// Strips the walked root's components from an entry's components, leaving
/// the path relative to the root. An entry that does not lie under the root
/// is a structural invariant violation and reported as a fatal error.
pub fn relative_components(entry: &Entry, root: &Vec<String>) -> (r: Result<
    Vec<String>,
    PipelineError,
>)
    ensures
        r is Ok <==> is_prefix_of(views_of(root@), entry.comps()),
        r is Ok ==> views_of(r->Ok_0@) == entry.comps().skip(root@.len() as int),
        r is Err ==> r->Err_0 is RelativePath,
{
    if root.len() > entry.components.len() {
        return Err(PipelineError::RelativePath);
    }
    let mut i: usize = 0;
    while i < root.len()
        invariant
            0 <= i <= root@.len() <= entry.components@.len(),
            forall|j: int| 0 <= j < i ==> views_of(root@)[j] == entry.comps()[j],
        decreases root.len() - i,
    {
        if !(root[i] == entry.components[i]) {
            proof {
                assert(views_of(root@)[i as int] == root@[i as int]@);
                assert(entry.comps()[i as int] == entry.components@[i as int]@);
            }
            return Err(PipelineError::RelativePath);
        }
        proof {
            assert(views_of(root@)[i as int] == root@[i as int]@);
            assert(entry.comps()[i as int] == entry.components@[i as int]@);
        }
        i += 1;
    }
    let mut rel: Vec<String> = Vec::new();
    let mut j: usize = root.len();
    while j < entry.components.len()
        invariant
            root@.len() <= j <= entry.components@.len(),
            views_of(rel@) == entry.comps().subrange(root@.len() as int, j as int),
        decreases entry.components.len() - j,
    {
        let ghost pre: Seq<String> = rel@;
        rel.push(entry.components[j].clone());
        proof {
            lemma_views_push(pre, rel@.last());
            assert(views_of(rel@) =~= entry.comps().subrange(root@.len() as int, j as int + 1));
        }
        j += 1;
    }
    proof {
        assert(views_of(rel@) =~= entry.comps().skip(root@.len() as int));
    }
    Ok(rel)
}

/// The sequence of components joined into one path string, separated by a
/// slash.
pub open spec fn spec_join(components: Seq<Seq<char>>) -> Seq<char>
    decreases components.len(),
{
    if components.len() == 0 {
        Seq::<char>::empty()
    } else if components.len() == 1 {
        components[0]
    } else {
        spec_join(components.drop_last()) + seq!['/'] + components.last()
    }
}

/// Joins path components with a slash, the natural display form of a
/// relative path.
pub fn join_path(components: &Vec<String>) -> (r: String)
    ensures
        r@ == spec_join(views_of(components@)),
{
    let mut out: String = String::new();
    if components.len() == 0 {
        return out;
    }
    out.append(components[0].as_str());
    proof {
        assert(views_of(components@).take(1)[0] == components@[0]@);
        assert(out@ =~= spec_join(views_of(components@).take(1)));
    }
    let mut i: usize = 1;
    while i < components.len()
        invariant
            1 <= i <= components@.len(),
            out@ == spec_join(views_of(components@).take(i as int)),
        decreases components.len() - i,
    {
        out.append("/");
        out.append(components[i].as_str());
        proof {
            reveal_strlit("/");
            assert("/"@ =~= seq!['/']);
            assert(views_of(components@).take(i as int + 1).drop_last() =~= views_of(
                components@,
            ).take(i as int));
            assert(views_of(components@).take(i as int + 1).last() == components@[i as int]@);
            assert(out@ =~= spec_join(views_of(components@).take(i as int + 1)));
        }
        i += 1;
    }
    proof {
        assert(views_of(components@).take(components@.len() as int) =~= views_of(components@));
    }
    out
}

/// An entry's path relative to the walked root, joined for display.
pub open spec fn spec_rel_path(e: Entry, root: Seq<Seq<char>>) -> Seq<char> {
    spec_join(e.comps().skip(root.len() as int))
}

/// Expresses every entry's path relative to the walked root, in order. A
/// single entry that does not lie under the root makes the whole run fail.
pub fn relative_paths(entries: &Vec<Entry>, root: &Vec<String>) -> (r: Result<
    Vec<String>,
    PipelineError,
>)
    ensures
        r is Ok <==> forall|i: int|
            0 <= i < entries@.len() ==> is_prefix_of(views_of(root@), #[trigger] entries@[i].comps()),
        r is Ok ==> r->Ok_0@.len() == entries@.len(),
        r is Ok ==> forall|i: int|
            0 <= i < entries@.len() ==> views_of(r->Ok_0@)[i] == spec_rel_path(
                entries@[i],
                views_of(root@),
            ),
        r is Err ==> r->Err_0 is RelativePath,
{
    let mut out: Vec<String> = Vec::new();
    let mut i: usize = 0;
    while i < entries.len()
        invariant
            0 <= i <= entries@.len(),
            out@.len() == i,
            forall|j: int| 0 <= j < i ==> is_prefix_of(views_of(root@), #[trigger] entries@[j].comps()),
            forall|j: int|
                0 <= j < i ==> views_of(out@)[j] == spec_rel_path(entries@[j], views_of(root@)),
        decreases entries.len() - i,
    {
        let rel: Vec<String> = match relative_components(&entries[i], root) {
            Ok(rel) => rel,
            Err(e) => {
                return Err(e);
            },
        };
        let joined: String = join_path(&rel);
        let ghost pre: Seq<String> = out@;
        out.push(joined);
        proof {
            lemma_views_push(pre, out@.last());
            assert(views_of(rel@) == entries@[i as int].comps().skip(root@.len() as int));
        }
        i += 1;
    }
    Ok(out)
}

/// One surviving file handed to the renderer: its path relative to the
/// walked root, and its content as text, or `None` for a file that could
/// not be read as text and is silently skipped.
pub struct FileRecord {
    pub rel_path: String,
    pub content: Option<String>,
}

/// The records whose content could be read.
pub open spec fn spec_readable(files: Seq<FileRecord>) -> Seq<FileRecord> {
    files.filter(|f: FileRecord| f.content is Some)
}

/// The ordered output blocks for `files`: one block per readable file, its
/// content trimmed, with the separator on every block but the first.
pub open spec fn spec_blocks(files: Seq<FileRecord>) -> Seq<Seq<char>> {
    Seq::new(
        spec_readable(files).len(),
        |i: int|
            spec_format(
                i == 0,
                spec_readable(files)[i].rel_path@,
                trim_spec(spec_readable(files)[i].content.unwrap()@),
            ),
    )
}

/// Renders the surviving files, in order, into the output blocks: unreadable
/// files are skipped, content is trimmed, the first emitted block carries no
/// separator and every later one carries exactly one.
pub fn render_files(files: &Vec<FileRecord>) -> (r: Vec<String>)
    ensures
        views_of(r@) == spec_blocks(files@),
{
    let mut r: Vec<String> = Vec::new();
    let mut is_first: bool = true;
    let mut k: usize = 0;
    while k < files.len()
        invariant
            0 <= k <= files@.len(),
            views_of(r@) == spec_blocks(files@.take(k as int)),
            r@.len() == spec_readable(files@.take(k as int)).len(),
            is_first <==> spec_readable(files@.take(k as int)).len() == 0,
        decreases files.len() - k,
    {
        let f: &FileRecord = &files[k];
        match &f.content {
            Some(c) => {
                let trimmed: String = trim(c.as_str());
                let block: String = crate::formatter::format(
                    is_first,
                    f.rel_path.as_str(),
                    trimmed.as_str(),
                );
                let ghost pre: Seq<String> = r@;
                r.push(block);
                proof {
                    lemma_views_push(pre, r@.last());
                }
                is_first = false;
            },
            None => {},
        }
        proof {
            reveal(Seq::filter);
            assert(files@.take(k as int + 1).drop_last() =~= files@.take(k as int));
            assert(files@.take(k as int + 1).last() == files@[k as int]);
            assert(views_of(r@) =~= spec_blocks(files@.take(k as int + 1)));
        }
        k += 1;
    }
    proof {
        assert(files@.take(files@.len() as int) =~= files@);
    }
    r
}

} // verus!
