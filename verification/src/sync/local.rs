//! Changes made on disk while the synchronisation was not running: what the
//! disk holds compared with what the local index last recorded.

use vstd::prelude::*;
use crate::types::{DiskTimestamp, RelativeFilePath};
use crate::path::{file_name, spec_file_name};
use crate::text::starts_with_char;

verus! {

/// A change of a file on disk since the last synchronisation.
#[derive(Debug)]
pub enum LocalChange {
    New(RelativeFilePath),
    Disappear(RelativeFilePath),
    Updated(RelativeFilePath),
}

/// Mathematical value of a [`LocalChange`].
pub enum LocalChangeView {
    New(Seq<char>),
    Disappear(Seq<char>),
    Updated(Seq<char>),
}

impl View for LocalChange {
    type V = LocalChangeView;

    open spec fn view(&self) -> LocalChangeView {
        match self {
            LocalChange::New(p) => LocalChangeView::New(p@),
            LocalChange::Disappear(p) => LocalChangeView::Disappear(p@),
            LocalChange::Updated(p) => LocalChangeView::Updated(p@),
        }
    }
}

/// The path a local change is about.
pub open spec fn local_change_path(c: LocalChangeView) -> Seq<char> {
    match c {
        LocalChangeView::New(p) => p,
        LocalChangeView::Disappear(p) => p,
        LocalChangeView::Updated(p) => p,
    }
}

/// Mathematical value of a sequence of local changes.
pub open spec fn local_change_views(s: Seq<LocalChange>) -> Seq<LocalChangeView> {
    s.map_values(|c: LocalChange| c@)
}

impl LocalChange {
    /// The path this change is about.
    pub fn path(&self) -> (r: RelativeFilePath)
        ensures
            r@ == local_change_path(self@),
    {
        match self {
            LocalChange::New(p) | LocalChange::Disappear(p) | LocalChange::Updated(p) => p.clone(),
        }
    }

    /// A copy of this change.
    pub fn duplicate(&self) -> (r: LocalChange)
        ensures
            r@ == self@,
    {
        match self {
            LocalChange::New(p) => LocalChange::New(p.clone()),
            LocalChange::Disappear(p) => LocalChange::Disappear(p.clone()),
            LocalChange::Updated(p) => LocalChange::Updated(p.clone()),
        }
    }
}

impl Clone for LocalChange {
    fn clone(&self) -> (r: LocalChange)
        ensures
            r@ == self@,
    {
        self.duplicate()
    }
}

impl PartialEq for LocalChange {
    fn eq(&self, other: &LocalChange) -> (r: bool) {
        match (self, other) {
            (LocalChange::New(a), LocalChange::New(b)) => *a == *b,
            (LocalChange::Disappear(a), LocalChange::Disappear(b)) => *a == *b,
            (LocalChange::Updated(a), LocalChange::Updated(b)) => *a == *b,
            _ => false,
        }
    }
}

impl vstd::std_specs::cmp::PartialEqSpecImpl for LocalChange {
    open spec fn obeys_eq_spec() -> bool {
        true
    }

    open spec fn eq_spec(&self, other: &LocalChange) -> bool {
        self@ == other@
    }
}

/// Whether a name is one of those the synchronisation leaves alone on disk:
/// hidden (`.`), backup or lock (`~`, `#`) files.
pub open spec fn is_ignored_name(name: Seq<char>) -> bool {
    name.len() > 0 && (name[0] == '.' || name[0] == '~' || name[0] == '#')
}

/// Whether the walk of the synchronised folder skips an entry: any folder but
/// the synchronised folder itself (folders only change by renaming), and any
/// entry whose name is ignored.
pub open spec fn spec_ignore_entry(is_root: bool, is_dir: bool, path: Seq<char>) -> bool {
    (!is_root && is_dir) || (spec_file_name(path) matches Some(name) && is_ignored_name(name))
}

/// Whether the walk of the synchronised folder skips an entry.
pub fn ignore_entry(is_root: bool, is_dir: bool, path: &str) -> (r: bool)
    ensures
        r == spec_ignore_entry(is_root, is_dir, path@),
{
    if !is_root && is_dir {
        return true;
    }
    match file_name(path) {
        Some(name) => {
            let n = name.as_str();
            starts_with_char(n, '.') || starts_with_char(n, '~') || starts_with_char(n, '#')
        },
        None => false,
    }
}

/// The timestamp recorded for `path` (the first record for it), if any.
pub open spec fn recorded(known: Seq<(Seq<char>, DiskTimestamp)>, path: Seq<char>) -> Option<DiskTimestamp>
    decreases known.len(),
{
    if known.len() == 0 {
        None
    } else if known[0].0 == path {
        Some(known[0].1)
    } else {
        recorded(known.drop_first(), path)
    }
}

/// Mathematical value of path-keyed records.
pub open spec fn record_views(s: Seq<(RelativeFilePath, DiskTimestamp)>) -> Seq<(Seq<char>, DiskTimestamp)> {
    s.map_values(|r: (RelativeFilePath, DiskTimestamp)| (r.0@, r.1))
}

/// Changes of the first `n` files found on disk: a file never recorded is
/// new, a file recorded with another timestamp is updated.
pub open spec fn disk_changes(
    on_disk: Seq<(Seq<char>, DiskTimestamp)>,
    known: Seq<(Seq<char>, DiskTimestamp)>,
    n: int,
) -> Seq<LocalChangeView>
    decreases n,
{
    if n <= 0 {
        Seq::empty()
    } else {
        let previous = disk_changes(on_disk, known, n - 1);
        let (path, timestamp) = on_disk[n - 1];
        match recorded(known, path) {
            None => previous.push(LocalChangeView::New(path)),
            Some(t) => if t != timestamp {
                previous.push(LocalChangeView::Updated(path))
            } else {
                previous
            },
        }
    }
}

/// Whether `path` is among the files found on disk.
pub open spec fn found(on_disk: Seq<(Seq<char>, DiskTimestamp)>, path: Seq<char>) -> bool {
    exists|i: int| 0 <= i < on_disk.len() && on_disk[i].0 == path
}

/// Disappearances among the first `n` recorded files: recorded, not found on disk.
pub open spec fn disappeared(
    on_disk: Seq<(Seq<char>, DiskTimestamp)>,
    known: Seq<(Seq<char>, DiskTimestamp)>,
    n: int,
) -> Seq<LocalChangeView>
    decreases n,
{
    if n <= 0 {
        Seq::empty()
    } else if !found(on_disk, known[n - 1].0) {
        disappeared(on_disk, known, n - 1).push(LocalChangeView::Disappear(known[n - 1].0))
    } else {
        disappeared(on_disk, known, n - 1)
    }
}

/// All local changes: those of the files on disk, in walk order, then the
/// disappearances, in record order.
pub open spec fn local_changes(
    on_disk: Seq<(Seq<char>, DiskTimestamp)>,
    known: Seq<(Seq<char>, DiskTimestamp)>,
) -> Seq<LocalChangeView> {
    disk_changes(on_disk, known, on_disk.len() as int) + disappeared(on_disk, known, known.len() as int)
}

fn recorded_timestamp(known: &Vec<(RelativeFilePath, DiskTimestamp)>, path: &RelativeFilePath) -> (r: Option<DiskTimestamp>)
    ensures
        r == recorded(record_views(known@), path@),
{
    let ghost k = record_views(known@);
    let n = known.len();
    let mut i: usize = 0;
    assert(k.skip(0) =~= k);
    while i < n
        invariant
            n == known@.len(),
            k == record_views(known@),
            i <= n,
            recorded(k, path@) == recorded(k.skip(i as int), path@),
        decreases n - i,
    {
        assert(k.skip(i as int)[0] == k[i as int]);
        assert(k.skip(i as int).drop_first() =~= k.skip(i + 1));
        if known[i].0 == *path {
            return Some(known[i].1);
        }
        i = i + 1;
    }
    None
}

fn is_found(on_disk: &Vec<(RelativeFilePath, DiskTimestamp)>, path: &RelativeFilePath) -> (r: bool)
    ensures
        r == found(record_views(on_disk@), path@),
{
    let ghost d = record_views(on_disk@);
    let n = on_disk.len();
    let mut i: usize = 0;
    while i < n
        invariant
            n == on_disk@.len(),
            d == record_views(on_disk@),
            i <= n,
            forall|j: int| 0 <= j < i ==> d[j].0 != path@,
        decreases n - i,
    {
        if on_disk[i].0 == *path {
            assert(d[i as int].0 == path@);
            return true;
        }
        i = i + 1;
    }
    false
}

/// The local changes between the files found on disk and the files the local
/// index recorded, each with its last modification timestamp: see
/// [`local_changes`].
pub fn changes(
    on_disk: &Vec<(RelativeFilePath, DiskTimestamp)>,
    known: &Vec<(RelativeFilePath, DiskTimestamp)>,
) -> (r: Vec<LocalChange>)
    ensures
        local_change_views(r@) == local_changes(record_views(on_disk@), record_views(known@)),
{
    let ghost d = record_views(on_disk@);
    let ghost k = record_views(known@);
    let mut result: Vec<LocalChange> = Vec::new();
    let n = on_disk.len();
    let mut i: usize = 0;
    while i < n
        invariant
            n == on_disk@.len(),
            d == record_views(on_disk@),
            k == record_views(known@),
            i <= n,
            local_change_views(result@) == disk_changes(d, k, i as int),
        decreases n - i,
    {
        let path = &on_disk[i].0;
        let timestamp = on_disk[i].1;
        assert(d[i as int] == (path@, timestamp));
        let ghost prior = result@;
        match recorded_timestamp(known, path) {
            None => {
                result.push(LocalChange::New(path.clone()));
                assert(local_change_views(result@) =~= local_change_views(prior).push(LocalChangeView::New(path@)));
            },
            Some(t) => {
                if t != timestamp {
                    result.push(LocalChange::Updated(path.clone()));
                    assert(local_change_views(result@) =~= local_change_views(prior).push(
                        LocalChangeView::Updated(path@),
                    ));
                }
            },
        }
        i = i + 1;
    }
    let ghost from_disk = result@;
    let m = known.len();
    let mut j: usize = 0;
    while j < m
        invariant
            m == known@.len(),
            d == record_views(on_disk@),
            k == record_views(known@),
            j <= m,
            local_change_views(result@) == disk_changes(d, k, n as int) + disappeared(d, k, j as int),
        decreases m - j,
    {
        let path = &known[j].0;
        assert(k[j as int].0 == path@);
        let ghost prior = result@;
        if !is_found(on_disk, path) {
            result.push(LocalChange::Disappear(path.clone()));
            assert(local_change_views(result@) =~= local_change_views(prior).push(LocalChangeView::Disappear(path@)));
        }
        j = j + 1;
    }
    result
}


/// Whether `j` holds the first record for `path`.
pub open spec fn first_record(known: Seq<(Seq<char>, DiskTimestamp)>, path: Seq<char>, j: int) -> bool {
    0 <= j < known.len() && known[j].0 == path && forall|k: int| 0 <= k < j ==> known[k].0 != path
}

/// The timestamp recorded for a path is looked up among all the records: it
/// is that of the first record for the path, wherever it stands, and there
/// is none exactly when no record has the path.
pub proof fn law_recorded_is_first_record(known: Seq<(Seq<char>, DiskTimestamp)>, path: Seq<char>)
    ensures
        recorded(known, path) is None <==> forall|i: int| 0 <= i < known.len() ==> (#[trigger] known[i]).0 != path,
        forall|j: int| #[trigger] first_record(known, path, j) ==> recorded(known, path) == Some(known[j].1),
    decreases known.len(),
{
    if known.len() > 0 {
        let rest = known.drop_first();
        law_recorded_is_first_record(rest, path);
        assert forall|i: int| 0 <= i < rest.len() implies rest[i] == known[i + 1] by {}
        if known[0].0 != path {
            assert forall|j: int| #[trigger] first_record(known, path, j) implies recorded(known, path) == Some(
                known[j].1,
            ) by {
                assert(j > 0);
                assert(first_record(rest, path, j - 1));
            }
            if recorded(known, path) is None {
                assert forall|i: int| 0 <= i < known.len() implies (#[trigger] known[i]).0 != path by {
                    if i > 0 {
                        assert(rest[i - 1] == known[i]);
                    }
                }
            } else {
                let i = choose|i: int| 0 <= i < rest.len() && !(rest[i].0 != path);
                assert(known[i + 1].0 == path);
            }
        } else {
            assert forall|j: int| #[trigger] first_record(known, path, j) implies recorded(known, path) == Some(
                known[j].1,
            ) by {
                assert(j == 0);
            }
        }
    }
}

proof fn lemma_disk_changes_members(
    on_disk: Seq<(Seq<char>, DiskTimestamp)>,
    known: Seq<(Seq<char>, DiskTimestamp)>,
    n: int,
    path: Seq<char>,
)
    requires
        0 <= n <= on_disk.len(),
    ensures
        disk_changes(on_disk, known, n).contains(LocalChangeView::New(path)) <==> (exists|i: int|
            0 <= i < n && #[trigger] on_disk[i].0 == path) && recorded(known, path) is None,
        disk_changes(on_disk, known, n).contains(LocalChangeView::Updated(path)) <==> exists|i: int|
            0 <= i < n && #[trigger] on_disk[i].0 == path && (recorded(known, path) matches Some(t) && t
                != on_disk[i].1),
        !disk_changes(on_disk, known, n).contains(LocalChangeView::Disappear(path)),
    decreases n,
{
    if n > 0 {
        lemma_disk_changes_members(on_disk, known, n - 1, path);
        let previous = disk_changes(on_disk, known, n - 1);
        let now = disk_changes(on_disk, known, n);
        let (p, t) = on_disk[n - 1];
        let x = match recorded(known, p) {
            None => LocalChangeView::New(p),
            Some(r) => LocalChangeView::Updated(p),
        };
        assert forall|c: LocalChangeView| #[trigger] now.contains(c) <==> previous.contains(c) || (now.len()
            > previous.len() && c == x) by {
            if now.len() > previous.len() {
                assert(now == previous.push(x));
                if now.contains(c) {
                    let k = choose|k: int| 0 <= k < now.len() && now[k] == c;
                    if k < previous.len() {
                        assert(previous[k] == c);
                    }
                }
                if previous.contains(c) {
                    let k = choose|k: int| 0 <= k < previous.len() && previous[k] == c;
                    assert(now[k] == c);
                }
                if c == x {
                    assert(now[previous.len() as int] == c);
                }
            }
        }
        if (exists|i: int| 0 <= i < n && #[trigger] on_disk[i].0 == path) {
            let i = choose|i: int| 0 <= i < n && #[trigger] on_disk[i].0 == path;
            if i < n - 1 {
                assert(exists|i: int| 0 <= i < n - 1 && #[trigger] on_disk[i].0 == path);
            }
        }
        if exists|i: int| 0 <= i < n && #[trigger] on_disk[i].0 == path && (recorded(known, path) matches Some(t) && t
            != on_disk[i].1) {
            let i = choose|i: int| 0 <= i < n && #[trigger] on_disk[i].0 == path && (recorded(known, path) matches Some(
                t,
            ) && t != on_disk[i].1);
            if i < n - 1 {
                assert(exists|i: int| 0 <= i < n - 1 && #[trigger] on_disk[i].0 == path && (recorded(
                    known,
                    path,
                ) matches Some(t) && t != on_disk[i].1));
            }
        }
    }
}

proof fn lemma_disappeared_members(
    on_disk: Seq<(Seq<char>, DiskTimestamp)>,
    known: Seq<(Seq<char>, DiskTimestamp)>,
    m: int,
    path: Seq<char>,
)
    requires
        0 <= m <= known.len(),
    ensures
        disappeared(on_disk, known, m).contains(LocalChangeView::Disappear(path)) <==> !found(on_disk, path)
            && exists|j: int| 0 <= j < m && #[trigger] known[j].0 == path,
        !disappeared(on_disk, known, m).contains(LocalChangeView::New(path)),
        !disappeared(on_disk, known, m).contains(LocalChangeView::Updated(path)),
    decreases m,
{
    if m > 0 {
        lemma_disappeared_members(on_disk, known, m - 1, path);
        let previous = disappeared(on_disk, known, m - 1);
        let now = disappeared(on_disk, known, m);
        let x = LocalChangeView::Disappear(known[m - 1].0);
        assert forall|c: LocalChangeView| #[trigger] now.contains(c) <==> previous.contains(c) || (now.len()
            > previous.len() && c == x) by {
            if now.len() > previous.len() {
                assert(now == previous.push(x));
                if now.contains(c) {
                    let k = choose|k: int| 0 <= k < now.len() && now[k] == c;
                    if k < previous.len() {
                        assert(previous[k] == c);
                    }
                }
                if previous.contains(c) {
                    let k = choose|k: int| 0 <= k < previous.len() && previous[k] == c;
                    assert(now[k] == c);
                }
                if c == x {
                    assert(now[previous.len() as int] == c);
                }
            }
        }
        if exists|j: int| 0 <= j < m && #[trigger] known[j].0 == path {
            let j = choose|j: int| 0 <= j < m && #[trigger] known[j].0 == path;
            if j < m - 1 {
                assert(exists|j: int| 0 <= j < m - 1 && #[trigger] known[j].0 == path);
            }
        }
    }
}

proof fn lemma_concat_contains_local(a: Seq<LocalChangeView>, b: Seq<LocalChangeView>, x: LocalChangeView)
    ensures
        (a + b).contains(x) <==> a.contains(x) || b.contains(x),
{
    if (a + b).contains(x) {
        let k = choose|k: int| 0 <= k < (a + b).len() && (a + b)[k] == x;
        if k < a.len() {
            assert(a[k] == x);
        } else {
            assert(b[k - a.len()] == x);
        }
    }
    if a.contains(x) {
        let k = choose|k: int| 0 <= k < a.len() && a[k] == x;
        assert((a + b)[k] == x);
    }
    if b.contains(x) {
        let k = choose|k: int| 0 <= k < b.len() && b[k] == x;
        assert((a + b)[k + a.len()] == x);
    }
}

/// The local changes say exactly what differs between the disk and the
/// index, wherever a path stands among the records: a file on disk is new
/// exactly when no record has its path, updated exactly when the first
/// record for its path holds another timestamp, and a recorded path no
/// longer on disk is gone.
pub proof fn law_local_changes_characterised(
    on_disk: Seq<(Seq<char>, DiskTimestamp)>,
    known: Seq<(Seq<char>, DiskTimestamp)>,
    path: Seq<char>,
)
    ensures
        local_changes(on_disk, known).contains(LocalChangeView::New(path)) <==> found(on_disk, path) && forall|j: int|
            0 <= j < known.len() ==> (#[trigger] known[j]).0 != path,
        local_changes(on_disk, known).contains(LocalChangeView::Updated(path)) <==> exists|i: int, j: int|
            0 <= i < on_disk.len() && #[trigger] on_disk[i].0 == path && #[trigger] first_record(known, path, j)
                && known[j].1 != on_disk[i].1,
        local_changes(on_disk, known).contains(LocalChangeView::Disappear(path)) <==> !found(on_disk, path)
            && exists|j: int| 0 <= j < known.len() && (#[trigger] known[j]).0 == path,
{
    let a = disk_changes(on_disk, known, on_disk.len() as int);
    let b = disappeared(on_disk, known, known.len() as int);
    lemma_disk_changes_members(on_disk, known, on_disk.len() as int, path);
    lemma_disappeared_members(on_disk, known, known.len() as int, path);
    lemma_concat_contains_local(a, b, LocalChangeView::New(path));
    lemma_concat_contains_local(a, b, LocalChangeView::Updated(path));
    lemma_concat_contains_local(a, b, LocalChangeView::Disappear(path));
    law_recorded_is_first_record(known, path);
    // The first record for a recorded path.
    if recorded(known, path) is Some {
        let i0 = choose|i: int| 0 <= i < known.len() && !((#[trigger] known[i]).0 != path);
        let j = first_index(known, path, i0);
        assert(first_record(known, path, j));
        assert(recorded(known, path) == Some(known[j].1));
        if exists|i: int| 0 <= i < on_disk.len() && #[trigger] on_disk[i].0 == path && (recorded(known, path) matches Some(
            t,
        ) && t != on_disk[i].1) {
            let i = choose|i: int| 0 <= i < on_disk.len() && #[trigger] on_disk[i].0 == path && (recorded(
                known,
                path,
            ) matches Some(t) && t != on_disk[i].1);
            assert(on_disk[i].0 == path && first_record(known, path, j) && known[j].1 != on_disk[i].1);
        }
    }
    if exists|i: int, j: int|
        0 <= i < on_disk.len() && #[trigger] on_disk[i].0 == path && #[trigger] first_record(known, path, j)
            && known[j].1 != on_disk[i].1 {
        let (i, j) = choose|i: int, j: int|
            0 <= i < on_disk.len() && #[trigger] on_disk[i].0 == path && #[trigger] first_record(known, path, j)
                && known[j].1 != on_disk[i].1;
        assert(recorded(known, path) == Some(known[j].1));
    }
    if found(on_disk, path) {
        let i = choose|i: int| 0 <= i < on_disk.len() && on_disk[i].0 == path;
        assert(on_disk[i].0 == path);
    }
    if exists|i: int| 0 <= i < on_disk.len() && #[trigger] on_disk[i].0 == path {
        let i = choose|i: int| 0 <= i < on_disk.len() && #[trigger] on_disk[i].0 == path;
        assert(found(on_disk, path));
    }
}

/// The first index at or before `i` of a record for `path`, when `i` holds one.
proof fn first_index(known: Seq<(Seq<char>, DiskTimestamp)>, path: Seq<char>, i: int) -> (j: int)
    requires
        0 <= i < known.len(),
        known[i].0 == path,
    ensures
        first_record(known, path, j),
    decreases i,
{
    if forall|k: int| 0 <= k < i ==> known[k].0 != path {
        i
    } else {
        let k = choose|k: int| 0 <= k < i && !(known[k].0 != path);
        first_index(known, path, k)
    }
}

} // verus!
