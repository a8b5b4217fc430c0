//! Small verified helpers on strings and lists of strings: membership,
//! whitespace trimming, extension extraction, and path joining.

use vstd::prelude::*;
use vstd::string::StrSliceExecFns;

verus! {

/// The sequence of character-sequence views of a list of strings.
pub open spec fn views_of(l: Seq<String>) -> Seq<Seq<char>> {
    l.map_values(|s: String| s@)
}

pub proof fn lemma_views_push(l: Seq<String>, s: String)
    ensures
        views_of(l.push(s)) =~= views_of(l).push(s@),
{
    assert forall|i: int| 0 <= i < l.len() + 1 implies views_of(l.push(s))[i] == views_of(
        l,
    ).push(s@)[i] by {
        if i < l.len() {
            assert(l.push(s)[i] == l[i]);
        } else {
            assert(l.push(s)[i] == s);
        }
    }
}

/// Whether `s` occurs in the string list `list` (exact equality).
pub fn contains_string(list: &Vec<String>, s: &str) -> (r: bool)
    ensures
        r == views_of(list@).contains(s@),
{
    let target: String = s.to_owned();
    let mut i: usize = 0;
    while i < list.len()
        invariant
            0 <= i <= list.len(),
            target@ == s@,
            forall|j: int| 0 <= j < i ==> list@[j]@ != s@,
        decreases list.len() - i,
    {
        if list[i] == target {
            assert(views_of(list@)[i as int] == s@);
            return true;
        }
        i += 1;
    }
    assert(forall|j: int| 0 <= j < list@.len() ==> views_of(list@)[j] != s@);
    false
}

/// The characters with the Unicode `White_Space` property, the ones that
/// `str::trim` removes.
pub open spec fn is_ws(c: char) -> bool {
    c == ' ' || c == '\t' || c == '\n' || c == '\r' || c == '\u{b}' || c == '\u{c}' || c
        == '\u{85}' || c == '\u{a0}' || c == '\u{1680}' || (0x2000 <= c as u32 && c as u32
        <= 0x200a) || c == '\u{2028}' || c == '\u{2029}' || c == '\u{202f}' || c == '\u{205f}' || c
        == '\u{3000}'
}

fn is_ws_char(c: char) -> (r: bool)
    ensures
        r == is_ws(c),
{
    c == ' ' || c == '\t' || c == '\n' || c == '\r' || c == '\u{b}' || c == '\u{c}' || c
        == '\u{85}' || c == '\u{a0}' || c == '\u{1680}' || (0x2000 <= c as u32 && c as u32
        <= 0x200a) || c == '\u{2028}' || c == '\u{2029}' || c == '\u{202f}' || c == '\u{205f}' || c
        == '\u{3000}'
}

/// `s` with its leading whitespace removed.
pub open spec fn trim_start_spec(s: Seq<char>) -> Seq<char>
    decreases s.len(),
{
    if s.len() > 0 && is_ws(s[0]) {
        trim_start_spec(s.drop_first())
    } else {
        s
    }
}

/// `s` with its trailing whitespace removed.
pub open spec fn trim_end_spec(s: Seq<char>) -> Seq<char>
    decreases s.len(),
{
    if s.len() > 0 && is_ws(s.last()) {
        trim_end_spec(s.drop_last())
    } else {
        s
    }
}

/// `s` with both leading and trailing whitespace removed, as `str::trim`
/// computes it.
pub open spec fn trim_spec(s: Seq<char>) -> Seq<char> {
    trim_end_spec(trim_start_spec(s))
}

proof fn lemma_trim_start(s: Seq<char>, k: int)
    requires
        0 <= k <= s.len(),
        forall|j: int| 0 <= j < k ==> is_ws(s[j]),
        k < s.len() ==> !is_ws(s[k]),
    ensures
        trim_start_spec(s) == s.skip(k),
    decreases k,
{
    if k == 0 {
        assert(s.skip(0) =~= s);
    } else {
        lemma_trim_start(s.drop_first(), k - 1);
        assert(s.drop_first().skip(k - 1) =~= s.skip(k));
    }
}

proof fn lemma_trim_end(s: Seq<char>, k: int)
    requires
        0 <= k <= s.len(),
        forall|j: int| k <= j < s.len() ==> is_ws(s[j]),
        k > 0 ==> !is_ws(s[k - 1]),
    ensures
        trim_end_spec(s) == s.take(k),
    decreases s.len(),
{
    if s.len() == 0 {
        assert(s.take(0) =~= s);
    } else if k == s.len() {
        assert(s.take(k) =~= s);
    } else {
        lemma_trim_end(s.drop_last(), k);
        assert(s.drop_last().take(k) =~= s.take(k));
    }
}

/// The extension of a file name: the portion after the final `.`, or `None`
/// when the name has no `.` past its first character (so a leading dot alone,
/// as in a hidden file's name, marks no extension).
pub open spec fn spec_extension(name: Seq<char>) -> Option<Seq<char>>
    decreases name.len(),
{
    if name.len() <= 1 {
        None
    } else if name.last() == '.' {
        Some(Seq::<char>::empty())
    } else {
        match spec_extension(name.drop_last()) {
            None => None,
            Some(e) => Some(e.push(name.last())),
        }
    }
}

proof fn lemma_no_ext(s: Seq<char>)
    requires
        forall|j: int| 1 <= j < s.len() ==> s[j] != '.',
    ensures
        spec_extension(s) is None,
    decreases s.len(),
{
    if s.len() > 1 {
        lemma_no_ext(s.drop_last());
    }
}

proof fn lemma_ext_at(s: Seq<char>, i: int)
    requires
        1 <= i < s.len(),
        s[i] == '.',
        forall|j: int| i < j < s.len() ==> s[j] != '.',
    ensures
        spec_extension(s) == Some(s.subrange(i + 1, s.len() as int)),
    decreases s.len(),
{
    if i == s.len() - 1 {
        assert(s.subrange(i + 1, s.len() as int) =~= Seq::<char>::empty());
    } else {
        lemma_ext_at(s.drop_last(), i);
        assert(s.drop_last().subrange(i + 1, s.len() - 1).push(s.last()) =~= s.subrange(
            i + 1,
            s.len() as int,
        ));
    }
}

/// Extracts the extension of the file name `name`, as `spec_extension`
/// defines it.
pub fn extension_of(name: &str) -> (r: Option<String>)
    ensures
        match r {
            Some(e) => spec_extension(name@) == Some(e@),
            None => spec_extension(name@) is None,
        },
{
    let n: usize = name.unicode_len();
    let mut i: usize = n;
    loop
        invariant
            0 <= i <= n,
            n == name@.len(),
            forall|j: int| i <= j < n ==> name@[j] != '.',
        ensures
            0 <= i <= n,
            forall|j: int| i <= j < n ==> name@[j] != '.',
            i > 0 ==> name@[i - 1] == '.',
        decreases i,
    {
        if i == 0 {
            break ;
        }
        if name.get_char(i - 1) == '.' {
            break ;
        }
        i -= 1;
    }
    if i <= 1 {
        proof {
            lemma_no_ext(name@);
        }
        None
    } else {
        let ext: String = name.substring_char(i, n).to_owned();
        proof {
            lemma_ext_at(name@, i - 1);
        }
        Some(ext)
    }
}

/// Removes leading and trailing whitespace from `s`.
pub fn trim(s: &str) -> (r: String)
    ensures
        r@ == trim_spec(s@),
{
    let n: usize = s.unicode_len();
    let mut start: usize = 0;
    loop
        invariant
            0 <= start <= n,
            n == s@.len(),
            forall|j: int| 0 <= j < start ==> is_ws(s@[j]),
        ensures
            0 <= start <= n,
            forall|j: int| 0 <= j < start ==> is_ws(s@[j]),
            start < n ==> !is_ws(s@[start as int]),
        decreases n - start,
    {
        if start >= n {
            break ;
        }
        if !is_ws_char(s.get_char(start)) {
            break ;
        }
        start += 1;
    }
    let mut end: usize = n;
    loop
        invariant
            start <= end <= n,
            n == s@.len(),
            forall|j: int| end <= j < n ==> is_ws(s@[j]),
        ensures
            start <= end <= n,
            forall|j: int| end <= j < n ==> is_ws(s@[j]),
            end > start ==> !is_ws(s@[end - 1]),
        decreases end,
    {
        if end <= start {
            break ;
        }
        if !is_ws_char(s.get_char(end - 1)) {
            break ;
        }
        end -= 1;
    }
    proof {
        lemma_trim_start(s@, start as int);
        lemma_trim_end(s@.skip(start as int), end - start);
        assert(s@.skip(start as int).take(end - start) =~= s@.subrange(
            start as int,
            end as int,
        ));
    }
    s.substring_char(start, end).to_owned()
}

} // verus!
