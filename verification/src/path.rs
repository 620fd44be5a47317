//! Relative paths of the synchronised folder.
//!
//! A path is a string whose components are separated by `/`.  File names and
//! parents are read as `std::path` reads them: trailing separators and `.`
//! components name nothing.

use vstd::prelude::*;
use vstd::string::*;
use crate::text::{str_eq, substring, concat, starts_with_char, ends_with_char, has_prefix, starts_with_str};

verus! {

/// The separator of path components.
pub open spec fn separator() -> char {
    '/'
}

/// Index of the last separator of `s`, or `-1` when there is none.
pub open spec fn last_separator(s: Seq<char>) -> int
    decreases s.len(),
{
    if s.len() == 0 {
        -1
    } else if s.last() == separator() {
        s.len() - 1
    } else {
        last_separator(s.drop_last())
    }
}

/// The last component of a path.
pub open spec fn last_component(p: Seq<char>) -> Seq<char> {
    p.subrange(last_separator(p) + 1, p.len() as int)
}

/// `p` without what ends it and names no component: trailing separators
/// (a leading one stays: it is the root) and trailing `.` components.
pub open spec fn trim_end(p: Seq<char>) -> Seq<char>
    decreases p.len(),
{
    if p.len() > 1 && p.last() == separator() {
        trim_end(p.drop_last())
    } else if p.len() > 1 && p.last() == '.' && p[p.len() - 2] == separator() {
        trim_end(p.drop_last())
    } else {
        p
    }
}

/// The file name of a path: its last component once trailing separators and
/// `.` components are left out, unless that is empty (the root), `.` or `..`.
pub open spec fn spec_file_name(p: Seq<char>) -> Option<Seq<char>> {
    let name = last_component(trim_end(p));
    if name.len() == 0 || name == "."@ || name == ".."@ {
        None
    } else {
        Some(name)
    }
}

/// The parent of a path, once trailing separators and `.` components are left
/// out: the empty path for a single component, the root for a component
/// under the root, else what precedes the last separator (itself trimmed);
/// the empty path and the root have none.
pub open spec fn spec_parent(p: Seq<char>) -> Option<Seq<char>> {
    let t = trim_end(p);
    if t.len() == 0 || t == seq![separator()] {
        None
    } else if last_separator(t) < 0 {
        Some(Seq::empty())
    } else if last_separator(t) == 0 {
        Some(seq![separator()])
    } else {
        Some(trim_end(t.subrange(0, last_separator(t))))
    }
}

pub proof fn lemma_trim_end(p: Seq<char>)
    ensures
        trim_end(p).len() <= p.len(),
        trim_end(p) == p.subrange(0, trim_end(p).len() as int),
        p.len() > 0 ==> trim_end(p).len() > 0,
        p.len() > 0 && p[0] == separator() ==> trim_end(p)[0] == separator(),
    decreases p.len(),
{
    if p.len() > 1 && (p.last() == separator() || (p.last() == '.' && p[p.len() - 2] == separator())) {
        lemma_trim_end(p.drop_last());
        let t = trim_end(p.drop_last());
        assert(t =~= p.subrange(0, t.len() as int));
    } else {
        assert(p =~= p.subrange(0, p.len() as int));
    }
}

/// A parent is shorter than the path it is the parent of.
pub proof fn lemma_parent_shorter(p: Seq<char>)
    ensures
        spec_parent(p) matches Some(q) ==> q.len() < p.len(),
{
    let t = trim_end(p);
    lemma_trim_end(p);
    lemma_last_separator_bounds(t);
    if t.len() > 0 && last_separator(t) > 0 {
        lemma_trim_end(t.subrange(0, last_separator(t)));
    }
    if t.len() == 1 && last_separator(t) == 0 {
        assert(t =~= seq![separator()]);
    }
}

/// `rel` appended to `base`: `rel` itself when it starts at the root or when
/// `base` is empty, else both separated by exactly one separator.
pub open spec fn spec_join(base: Seq<char>, rel: Seq<char>) -> Seq<char> {
    if (rel.len() > 0 && rel[0] == separator()) || base.len() == 0 {
        rel
    } else if base.last() == separator() {
        base + rel
    } else {
        base + seq![separator()] + rel
    }
}

pub proof fn lemma_last_separator(s: Seq<char>, k: int)
    requires
        -1 <= k < s.len(),
        k >= 0 ==> s[k] == separator(),
        forall|j: int| k < j < s.len() ==> s[j] != separator(),
    ensures
        last_separator(s) == k,
    decreases s.len(),
{
    if s.len() > 0 && k < s.len() - 1 {
        assert(s.last() != separator());
        lemma_last_separator(s.drop_last(), k);
    }
}

pub proof fn lemma_last_separator_bounds(s: Seq<char>)
    ensures
        -1 <= last_separator(s) < s.len(),
        last_separator(s) >= 0 ==> s[last_separator(s)] == separator(),
    decreases s.len(),
{
    if s.len() > 0 && s.last() != separator() {
        lemma_last_separator_bounds(s.drop_last());
    }
}

/// Position just after the last separator of `p` (0 when there is none).
fn after_last_separator(p: &str) -> (i: usize)
    ensures
        i as int == last_separator(p@) + 1,
{
    let n = p.unicode_len();
    let mut i = n;
    while i > 0
        invariant
            i <= n,
            n == p@.len(),
            forall|j: int| i <= j < n ==> p@[j] != separator(),
        decreases i,
    {
        if p.get_char(i - 1) == '/' {
            proof {
                lemma_last_separator(p@, i - 1);
            }
            return i;
        }
        i = i - 1;
    }
    proof {
        lemma_last_separator(p@, -1);
    }
    0
}

/// Length of `p` once trailing separators and `.` components are left out:
/// see [`trim_end`].
fn trimmed_len(p: &str) -> (n: usize)
    ensures
        n <= p@.len(),
        p@.subrange(0, n as int) == trim_end(p@),
{
    let mut n = p.unicode_len();
    proof {
        assert(p@.subrange(0, n as int) =~= p@);
    }
    while n > 1 && (p.get_char(n - 1) == '/' || (p.get_char(n - 1) == '.' && p.get_char(n - 2) == '/'))
        invariant
            n <= p@.len(),
            trim_end(p@.subrange(0, n as int)) == trim_end(p@),
        decreases n,
    {
        proof {
            let q = p@.subrange(0, n as int);
            assert(q.last() == p@[n - 1]);
            assert(q[q.len() - 2] == p@[n - 2]);
            assert(q.drop_last() =~= p@.subrange(0, n - 1));
        }
        n = n - 1;
    }
    proof {
        let q = p@.subrange(0, n as int);
        if n > 1 {
            assert(q.last() == p@[n - 1]);
            assert(q[q.len() - 2] == p@[n - 2]);
        }
    }
    n
}

/// The file name of a path: see [`spec_file_name`].
pub fn file_name(p: &str) -> (r: Option<String>)
    ensures
        r matches Some(name) ==> spec_file_name(p@) == Some(name@),
        r is None ==> spec_file_name(p@) is None,
{
    let m = trimmed_len(p);
    let t = substring(p, 0, m);
    let start = after_last_separator(t.as_str());
    let n = t.unicode_len();
    proof {
        lemma_last_separator_bounds(t@);
    }
    let name = substring(t.as_str(), start, n);
    if n == start || str_eq(name.as_str(), ".") || str_eq(name.as_str(), "..") {
        None
    } else {
        Some(name)
    }
}

/// The parent of a path: see [`spec_parent`].
pub fn parent(p: &str) -> (r: Option<String>)
    ensures
        r matches Some(q) ==> spec_parent(p@) == Some(q@),
        r is None ==> spec_parent(p@) is None,
{
    let m = trimmed_len(p);
    let t = substring(p, 0, m);
    let n = t.unicode_len();
    proof {
        reveal_strlit("/");
        assert("/"@ =~= seq![separator()]);
    }
    if n == 0 || str_eq(t.as_str(), "/") {
        return None;
    }
    let start = after_last_separator(t.as_str());
    proof {
        lemma_last_separator_bounds(t@);
    }
    if start == 0 {
        let empty = String::new();
        assert(empty@ =~= Seq::<char>::empty());
        Some(empty)
    } else if start == 1 {
        let root = "/".to_string();
        assert(root@ =~= seq![separator()]);
        Some(root)
    } else {
        let head = substring(t.as_str(), 0, start - 1);
        let k = trimmed_len(head.as_str());
        Some(substring(head.as_str(), 0, k))
    }
}

/// Appends `rel` to `base`.
pub fn join(base: &str, rel: &str) -> (r: String)
    ensures
        r@ == spec_join(base@, rel@),
{
    if starts_with_char(rel, '/') || base.unicode_len() == 0 {
        rel.to_owned()
    } else if ends_with_char(base, '/') {
        concat(base, rel)
    } else {
        let with_separator = concat(base, "/");
        proof {
            reveal_strlit("/");
        }
        let r = concat(with_separator.as_str(), rel);
        assert(r@ =~= base@ + seq![separator()] + rel@);
        r
    }
}

/// `path` relative to `prefix`, when `prefix` is made of its first components:
/// `path` itself for the empty prefix, the empty path for `prefix` itself,
/// else what follows the separator after `prefix` (or after a `prefix` that
/// ends with a separator).  The match is on characters, not on components:
/// separators repeated after the prefix, or `.` components in it, are kept
/// as written.
pub open spec fn spec_strip_prefix(path: Seq<char>, prefix: Seq<char>) -> Option<Seq<char>> {
    if prefix.len() == 0 {
        Some(path)
    } else if path == prefix {
        Some(Seq::empty())
    } else if prefix.len() > 0 && prefix.last() == separator() && has_prefix(path, prefix) {
        Some(path.subrange(prefix.len() as int, path.len() as int))
    } else if has_prefix(path, prefix.push(separator())) {
        Some(path.subrange(prefix.len() as int + 1, path.len() as int))
    } else {
        None
    }
}

/// `path` relative to `prefix`: see [`spec_strip_prefix`].
pub fn strip_prefix(path: &str, prefix: &str) -> (r: Option<String>)
    ensures
        r matches Some(x) ==> spec_strip_prefix(path@, prefix@) == Some(x@),
        r is None ==> spec_strip_prefix(path@, prefix@) is None,
{
    let n = path.unicode_len();
    let m = prefix.unicode_len();
    if m == 0 {
        return Some(path.to_owned());
    }
    if str_eq(path, prefix) {
        let empty = String::new();
        assert(empty@ =~= Seq::<char>::empty());
        return Some(empty);
    }
    if m > 0 && ends_with_char(prefix, '/') && starts_with_str(path, prefix) {
        return Some(substring(path, m, n));
    }
    let with_separator = concat(prefix, "/");
    proof {
        reveal_strlit("/");
        assert(with_separator@ =~= prefix@.push(separator()));
    }
    if starts_with_str(path, with_separator.as_str()) {
        Some(substring(path, m + 1, n))
    } else {
        None
    }
}

/// A path written under a folder reads back, relative to that folder, as
/// the path it was written from.
pub proof fn law_strip_prefix_undoes_join(base: Seq<char>, rel: Seq<char>)
    requires
        rel.len() > 0 ==> rel[0] != separator(),
    ensures
        spec_strip_prefix(spec_join(base, rel), base) == Some(rel),
{
    let joined = spec_join(base, rel);
    if base.len() == 0 {
    } else if base.last() == separator() {
        assert(joined == base + rel);
        if rel.len() == 0 {
            assert(joined =~= base);
        } else {
            assert(joined.len() > base.len());
            assert(joined.subrange(0, base.len() as int) =~= base);
            assert(joined.subrange(base.len() as int, joined.len() as int) =~= rel);
        }
    } else {
        let with_separator = base.push(separator());
        assert(joined =~= with_separator + rel);
        assert(joined != base) by {
            assert(joined.len() != base.len());
        }
        assert(joined.subrange(0, with_separator.len() as int) =~= with_separator);
        assert(joined.subrange(base.len() as int + 1, joined.len() as int) =~= rel);
    }
}

} // verus!
