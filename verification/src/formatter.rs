//! Renders one file's contribution to the output stream: a relative-path
//! header and the file's trimmed content, preceded by a fixed separator for
//! every block but the first.

use vstd::prelude::*;
use vstd::string::StringExecFns;

verus! {

/// `n` dash characters.
pub open spec fn dashes(n: nat) -> Seq<char> {
    Seq::new(n, |i: int| '-')
}

/// The separator between blocks: a newline, a line of 100 dashes, and a
/// blank line.
pub open spec fn spec_separator() -> Seq<char> {
    seq!['\n'] + dashes(100) + seq!['\n', '\n']
}

/// One rendered block: the relative path, then either an empty-file marker
/// (when the content, already trimmed, is empty) or a newline and the
/// content.
pub open spec fn spec_block(path: Seq<char>, content: Seq<char>) -> Seq<char> {
    if content.len() == 0 {
        path + ": (EMPTY FILE)"@
    } else {
        path + ":\n"@ + content
    }
}

/// A rendered block with its separator: the first block stands alone, every
/// later block is preceded by exactly one separator.
pub open spec fn spec_format(is_first: bool, path: Seq<char>, content: Seq<char>) -> Seq<char> {
    if is_first {
        spec_block(path, content)
    } else {
        spec_separator() + spec_block(path, content)
    }
}

/// Renders the block for a file at `relative_path` whose trimmed content is
/// `content`.
pub fn format(is_first: bool, relative_path: &str, content: &str) -> (r: String)
    ensures
        r@ == spec_format(is_first, relative_path@, content@),
{
    let mut output: String = String::new();
    if !is_first {
        output.append("\n");
        proof {
            reveal_strlit("\n");
            assert(output@ =~= seq!['\n'] + dashes(0));
        }
        let mut i: usize = 0;
        while i < 100
            invariant
                0 <= i <= 100,
                output@ == seq!['\n'] + dashes(i as nat),
            decreases 100 - i,
        {
            output.append("-");
            proof {
                reveal_strlit("-");
                assert(output@ =~= seq!['\n'] + dashes(i as nat + 1));
            }
            i += 1;
        }
        output.append("\n\n");
        proof {
            reveal_strlit("\n\n");
            assert("\n\n"@ =~= seq!['\n', '\n']);
            assert(output@ =~= spec_separator());
        }
    }
    let ghost prefix: Seq<char> = output@;
    if content.is_empty() {
        output.append(relative_path);
        output.append(": (EMPTY FILE)");
        proof {
            assert(output@ =~= prefix + spec_block(relative_path@, content@));
        }
    } else {
        output.append(relative_path);
        output.append(":\n");
        output.append(content);
        proof {
            assert(output@ =~= prefix + spec_block(relative_path@, content@));
        }
    }
    proof {
        if is_first {
            assert(output@ =~= spec_block(relative_path@, content@));
        }
    }
    output
}

/// Law: the first block never carries a separator, every later block carries
/// exactly one, and that separator is a newline, 100 dashes, and a blank
/// line.
pub proof fn lemma_format_separator(path: Seq<char>, content: Seq<char>)
    ensures
        spec_format(true, path, content) == spec_block(path, content),
        spec_format(false, path, content) == spec_separator() + spec_block(path, content),
        spec_separator().len() == 103,
        spec_separator()[0] == '\n',
        forall|i: int| 1 <= i < 101 ==> spec_separator()[i] == '-',
        spec_separator()[101] == '\n',
        spec_separator()[102] == '\n',
{
}

/// Law: a file whose trimmed content is empty renders as the path, a colon,
/// and the empty-file marker; any other file renders as the path, a colon, a
/// newline, and the content.
pub proof fn lemma_block_rendering(path: Seq<char>, content: Seq<char>)
    ensures
        content.len() == 0 ==> spec_block(path, content) == path + ": (EMPTY FILE)"@,
        content.len() != 0 ==> spec_block(path, content) == path + ":\n"@ + content,
{
}

} // verus!
