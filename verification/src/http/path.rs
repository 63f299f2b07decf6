//! Request paths: resolving them against the server root and guarding against
//! traversal out of it.
//!
//! Paths are texts whose segments are separated by `/`. Nothing here touches
//! the filesystem: canonical paths are handed in by the caller.

use crate::http::escape::{decode, percent_decoded};
use crate::http::text::chars_of;
use vstd::prelude::*;
use vstd::string::*;

verus! {

/// The character at position `i` of `path`, where every position outside the
/// text counts as a separator.
pub open spec fn char_or_separator(path: Seq<char>, i: int) -> char {
    if 0 <= i < path.len() {
        path[i]
    } else {
        '/'
    }
}

/// Whether the segment `..` stands at position `i` of `path`.
pub open spec fn is_parent_segment_at(path: Seq<char>, i: int) -> bool {
    &&& 0 <= i
    &&& i + 2 <= path.len()
    &&& path[i] == '.'
    &&& path[i + 1] == '.'
    &&& char_or_separator(path, i - 1) == '/'
    &&& char_or_separator(path, i + 2) == '/'
}

/// Whether some segment of `path` is the parent-directory segment `..`.
pub open spec fn has_parent_segment(path: Seq<char>) -> bool {
    exists|i: int| is_parent_segment_at(path, i)
}

/// Whether a component, a non-empty segment, begins at position `i`.
pub open spec fn starts_component(path: Seq<char>, i: int) -> bool {
    &&& 0 <= i < path.len()
    &&& path[i] != '/'
    &&& char_or_separator(path, i - 1) == '/'
}

/// The number of components that begin in the first `n` positions of `path`.
pub open spec fn components_before(path: Seq<char>, n: int) -> nat
    decreases n,
{
    if n <= 0 {
        0
    } else {
        components_before(path, n - 1) + if starts_component(path, n - 1) {
            1nat
        } else {
            0nat
        }
    }
}

/// The depth of a path: the number of its components, where the root of an
/// absolute path counts as one.
pub open spec fn depth(path: Seq<char>) -> nat {
    components_before(path, path.len() as int) + if path.len() > 0 && path[0] == '/' {
        1nat
    } else {
        0nat
    }
}

/// `path` without its leading separators.
pub open spec fn trim_leading_slashes(path: Seq<char>) -> Seq<char>
    decreases path.len(),
{
    if path.len() > 0 && path[0] == '/' {
        trim_leading_slashes(path.drop_first())
    } else {
        path
    }
}

/// `path` without its trailing separators.
pub open spec fn trim_trailing_slashes(path: Seq<char>) -> Seq<char>
    decreases path.len(),
{
    if path.len() > 0 && path.last() == '/' {
        trim_trailing_slashes(path.drop_last())
    } else {
        path
    }
}

/// The longest prefix of `text` that is empty or ends with `c`.
pub open spec fn up_to_last(text: Seq<char>, c: char) -> Seq<char>
    decreases text.len(),
{
    if text.len() > 0 && text.last() != c {
        up_to_last(text.drop_last(), c)
    } else {
        text
    }
}

/// The parent of a path: the path without its last component and without the
/// separators around it. The parent of a path of one component is empty.
pub open spec fn parent(path: Seq<char>) -> Seq<char> {
    trim_trailing_slashes(up_to_last(trim_trailing_slashes(path), '/'))
}

/// The last segment of a path: what follows its last separator.
pub open spec fn file_name(path: Seq<char>) -> Seq<char> {
    path.skip(up_to_last(path, '/').len() as int)
}

/// The extension of a path: what follows the last `.` of its file name, and
/// nothing where the file name has no `.` but at its start.
pub open spec fn extension(path: Seq<char>) -> Seq<char> {
    let name = file_name(path);
    let stem = up_to_last(name, '.');
    if stem.len() <= 1 {
        Seq::empty()
    } else {
        name.skip(stem.len() as int)
    }
}

/// The candidate path of a request: the decoded request path, taken as
/// relative whatever separators it begins with, below `root`.
pub open spec fn join(root: Seq<char>, decoded: Seq<char>) -> Seq<char> {
    if root.len() == 0 || root.last() == '/' {
        root + trim_leading_slashes(decoded)
    } else {
        root + seq!['/'] + trim_leading_slashes(decoded)
    }
}

/// Whether the traversal guard lets a candidate path through: it holds no
/// `..` segment, it could be canonicalized, and its canonical form is at least
/// as deep as that of the root.
pub open spec fn guard_allows(
    candidate: Seq<char>,
    canonical_root: Seq<char>,
    canonical_candidate: Option<Seq<char>>,
) -> bool {
    &&& !has_parent_segment(candidate)
    &&& canonical_candidate matches Some(canonical)
    &&& depth(canonical_root) <= depth(canonical)
}

/// A request path that has been decoded and placed below the server root.
#[derive(Debug, PartialEq, Eq)]
pub struct ResolvedPath {
    /// The decoded request path, as it is echoed and used in links.
    pub decoded: String,
    /// The filesystem path that the request stands for; not yet validated.
    pub candidate: String,
}

proof fn lemma_trim_leading_is_suffix(path: Seq<char>) -> (k: int)
    ensures
        0 <= k <= path.len(),
        trim_leading_slashes(path) == path.skip(k),
        forall|j: int| 0 <= j < k ==> path[j] == '/',
    decreases path.len(),
{
    if path.len() > 0 && path[0] == '/' {
        let k = lemma_trim_leading_is_suffix(path.drop_first());
        assert(path.drop_first().skip(k) =~= path.skip(k + 1));
        assert forall|j: int| 0 <= j < k + 1 implies path[j] == '/' by {
            if j > 0 {
                assert(path[j] == path.drop_first()[j - 1]);
            }
        }
        k + 1
    } else {
        assert(path.skip(0) =~= path);
        0
    }
}

/// Taking the leading separators off a path that is followed by a text
/// leaves the text as it is, unless the text begins with a separator itself.
pub proof fn lemma_trim_leading_before(path: Seq<char>, rest: Seq<char>)
    requires
        rest.len() == 0 || rest[0] != '/',
    ensures
        trim_leading_slashes(path + rest) == trim_leading_slashes(path) + rest,
    decreases path.len(),
{
    if path.len() == 0 {
        assert(path + rest =~= rest);
        assert(trim_leading_slashes(path) + rest =~= rest);
    } else if path[0] == '/' {
        assert((path + rest).drop_first() =~= path.drop_first() + rest);
        lemma_trim_leading_before(path.drop_first(), rest);
    } else {
        assert((path + rest)[0] == path[0]);
    }
}

/// What is left of a path without its leading separators holds no character
/// that the path does not hold.
pub proof fn lemma_trim_leading_holds_less(path: Seq<char>, c: char)
    requires
        !path.contains(c),
    ensures
        !trim_leading_slashes(path).contains(c),
{
    let k = lemma_trim_leading_is_suffix(path);
    let trimmed = path.skip(k);
    if trimmed.contains(c) {
        let j = choose|j: int| 0 <= j < trimmed.len() && trimmed[j] == c;
        assert(path[k + j] == c);
    }
}

/// A `..` segment of a path is still one when the path's leading separators
/// are taken off.
pub proof fn lemma_parent_segment_survives_trim(path: Seq<char>)
    requires
        has_parent_segment(path),
    ensures
        has_parent_segment(trim_leading_slashes(path)),
{
    let i = choose|i: int| is_parent_segment_at(path, i);
    let k = lemma_trim_leading_is_suffix(path);
    let tail = path.skip(k);
    if i < k {
        assert(path[i] == '/');
    }
    assert(is_parent_segment_at(tail, i - k));
}

/// A `..` segment of a path is still one when the path is put behind a prefix
/// that is empty or ends with a separator.
pub proof fn lemma_parent_segment_survives_prefix(prefix: Seq<char>, path: Seq<char>)
    requires
        prefix.len() == 0 || prefix.last() == '/',
        has_parent_segment(path),
    ensures
        has_parent_segment(prefix + path),
{
    let i = choose|i: int| is_parent_segment_at(path, i);
    assert(is_parent_segment_at(prefix + path, prefix.len() + i));
}

/// A request path with a `..` segment gives a candidate path with one,
/// whatever the root is.
pub proof fn lemma_join_keeps_parent_segment(root: Seq<char>, decoded: Seq<char>)
    requires
        has_parent_segment(decoded),
    ensures
        has_parent_segment(join(root, decoded)),
{
    lemma_parent_segment_survives_trim(decoded);
    let tail = trim_leading_slashes(decoded);
    if root.len() == 0 || root.last() == '/' {
        lemma_parent_segment_survives_prefix(root, tail);
    } else {
        lemma_parent_segment_survives_prefix(root + seq!['/'], tail);
    }
}

/// Whether some segment of `path` is `..`.
pub fn contains_parent_segment(path: &str) -> (found: bool)
    ensures
        found == has_parent_segment(path@),
{
    let chars = chars_of(path);
    let n = chars.len();
    let mut i: usize = 0;
    while i < n
        invariant
            i <= n,
            n == chars@.len(),
            chars@ == path@,
            forall|k: int| 0 <= k < i ==> !is_parent_segment_at(path@, k),
        decreases n - i,
    {
        if chars[i] == '.' && n - i >= 2 && chars[i + 1] == '.' && (i == 0 || chars[i - 1] == '/')
            && (n - i == 2 || chars[i + 2] == '/') {
            assert(is_parent_segment_at(path@, i as int));
            return true;
        }
        i = i + 1;
    }
    false
}

/// The depth of `path`: the number of its components, the root of an absolute
/// path included.
pub fn path_depth(path: &str) -> (d: usize)
    ensures
        d == depth(path@),
{
    let chars = chars_of(path);
    let n = chars.len();
    let rooted = n > 0 && chars[0] == '/';
    let mut count: usize = 0;
    let mut i: usize = 0;
    while i < n
        invariant
            i <= n,
            n == chars@.len(),
            chars@ == path@,
            rooted == (n > 0 && chars@[0] == '/'),
            count == components_before(path@, i as int),
            count <= i,
            rooted && i > 0 ==> count < i,
        decreases n - i,
    {
        if chars[i] != '/' && (i == 0 || chars[i - 1] == '/') {
            count = count + 1;
        }
        i = i + 1;
    }
    if rooted {
        count + 1
    } else {
        count
    }
}

/// `path` without its leading separators.
pub fn without_leading_slashes(path: &str) -> (trimmed: &str)
    ensures
        trimmed@ == trim_leading_slashes(path@),
{
    let chars = chars_of(path);
    let n = chars.len();
    let mut k: usize = 0;
    assert(path@.skip(0) =~= path@);
    while k < n && chars[k] == '/'
        invariant
            k <= n,
            n == chars@.len(),
            chars@ == path@,
            trim_leading_slashes(path@) == trim_leading_slashes(path@.skip(k as int)),
        decreases n - k,
    {
        assert(path@.skip(k as int).drop_first() =~= path@.skip(k + 1));
        k = k + 1;
    }
    assert(path@.subrange(k as int, n as int) =~= path@.skip(k as int));
    path.substring_char(k, n)
}

fn trailing_slashes_end(chars: &Vec<char>, from: usize) -> (end: usize)
    requires
        from <= chars@.len(),
    ensures
        end <= from,
        trim_trailing_slashes(chars@.take(from as int)) == chars@.take(end as int),
{
    let mut end = from;
    while end > 0 && chars[end - 1] == '/'
        invariant
            end <= from,
            from <= chars@.len(),
            trim_trailing_slashes(chars@.take(from as int)) == trim_trailing_slashes(
                chars@.take(end as int),
            ),
        decreases end,
    {
        assert(chars@.take(end as int).drop_last() =~= chars@.take(end - 1));
        end = end - 1;
    }
    end
}

fn up_to_last_end(chars: &Vec<char>, from: usize, c: char) -> (end: usize)
    requires
        from <= chars@.len(),
    ensures
        end <= from,
        up_to_last(chars@.take(from as int), c) == chars@.take(end as int),
{
    let mut end = from;
    while end > 0 && chars[end - 1] != c
        invariant
            end <= from,
            from <= chars@.len(),
            up_to_last(chars@.take(from as int), c) == up_to_last(chars@.take(end as int), c),
        decreases end,
    {
        assert(chars@.take(end as int).drop_last() =~= chars@.take(end - 1));
        end = end - 1;
    }
    end
}

/// The parent of `path`: the path without its last component.
pub fn parent_of(path: &str) -> (up: &str)
    ensures
        up@ == parent(path@),
{
    let chars = chars_of(path);
    let n = chars.len();
    assert(chars@.take(n as int) =~= chars@);
    let trimmed = trailing_slashes_end(&chars, n);
    let cut = up_to_last_end(&chars, trimmed, '/');
    let end = trailing_slashes_end(&chars, cut);
    assert(path@.subrange(0, end as int) =~= path@.take(end as int));
    path.substring_char(0, end)
}

/// The extension of `path`: what follows the last `.` of its last segment.
pub fn extension_of(path: &str) -> (ext: &str)
    ensures
        ext@ == extension(path@),
{
    let chars = chars_of(path);
    let n = chars.len();
    assert(chars@.take(n as int) =~= chars@);
    let start = up_to_last_end(&chars, n, '/');
    assert(path@.subrange(start as int, n as int) =~= file_name(path@));
    let name = path.substring_char(start, n);
    let name_chars = chars_of(name);
    let m = name_chars.len();
    assert(name_chars@.take(m as int) =~= name_chars@);
    let dot = up_to_last_end(&name_chars, m, '.');
    if dot <= 1 {
        assert(name@.subrange(m as int, m as int) =~= Seq::<char>::empty());
        name.substring_char(m, m)
    } else {
        assert(name@.subrange(dot as int, m as int) =~= name@.skip(dot as int));
        name.substring_char(dot, m)
    }
}

/// Decodes a request path and places it below `root`.
pub fn resolve(root: &str, request_path: &str) -> (resolved: ResolvedPath)
    ensures
        resolved.decoded@ == percent_decoded(request_path@),
        resolved.candidate@ == join(root@, percent_decoded(request_path@)),
{
    let decoded = decode(request_path);
    let root_chars = chars_of(root);
    let n = root_chars.len();
    let mut candidate = String::from_str(root);
    if n > 0 && root_chars[n - 1] != '/' {
        proof {
            reveal_strlit("/");
        }
        candidate.append("/");
        assert(candidate@ =~= root@ + seq!['/']);
    }
    candidate.append(without_leading_slashes(decoded.as_str()));
    ResolvedPath { decoded, candidate }
}

/// The traversal guard. A requested path is allowed when it holds no `..`
/// segment and its canonical form, where it has one, is at least as deep as
/// the canonical form of the root.
pub fn prevent_backtracking(
    requested_path: &str,
    canonical_root: &str,
    canonical_path: Option<&str>,
) -> (allowed: bool)
    ensures
        allowed == guard_allows(requested_path@, canonical_root@, canonical_path.deep_view()),
{
    if contains_parent_segment(requested_path) {
        return false;
    }
    match canonical_path {
        Some(canonical) => path_depth(canonical_root) <= path_depth(canonical),
        None => false,
    }
}

} // verus!
