//! Reduction of the stream of disk events: successive events about one file
//! are folded into a single event before anything is operated.

use vstd::prelude::*;
use crate::event::{DiskEvent, DiskEventView, DiskEventWrap, DiskEventWrapView, first_path, wrap_of};

verus! {

/// Mathematical value of a sequence of disk events.
pub open spec fn views(s: Seq<DiskEvent>) -> Seq<DiskEventView> {
    s.map_values(|e: DiskEvent| e@)
}

/// How the event under reduction absorbs the next pending event.
pub enum Merge {
    /// The pending event is about something else: it stays pending.
    Keep,
    /// The pending event is folded in; the reduced event becomes this one.
    Replace(DiskEventWrapView),
    /// The pending event undoes the reduced event: both vanish.
    Cancel,
}

/// The folding table between the event under reduction and the next pending one.
pub open spec fn merge(current: DiskEventWrapView, next: DiskEventView) -> Merge {
    let stored = current.stored_path;
    match current.event {
        DiskEventView::Created(a) => match next {
            DiskEventView::Deleted(b) => if a == b { Merge::Cancel } else { Merge::Keep },
            DiskEventView::Created(_) => Merge::Keep,
            DiskEventView::Modified(b) => if a == b { Merge::Replace(current) } else { Merge::Keep },
            DiskEventView::Renamed(before, after) => if before == a {
                Merge::Replace(DiskEventWrapView { stored_path: stored, event: DiskEventView::Created(after) })
            } else {
                Merge::Keep
            },
        },
        DiskEventView::Deleted(_) => Merge::Keep,
        DiskEventView::Modified(a) => match next {
            DiskEventView::Deleted(b) => if a == b {
                Merge::Replace(DiskEventWrapView { stored_path: stored, event: DiskEventView::Deleted(b) })
            } else {
                Merge::Keep
            },
            DiskEventView::Created(_) => Merge::Keep,
            DiskEventView::Modified(b) => if a == b { Merge::Replace(current) } else { Merge::Keep },
            DiskEventView::Renamed(before, after) => if before == a {
                Merge::Replace(DiskEventWrapView { stored_path: stored, event: DiskEventView::Modified(after) })
            } else {
                Merge::Keep
            },
        },
        DiskEventView::Renamed(_, a) => match next {
            DiskEventView::Deleted(b) => if a == b {
                Merge::Replace(DiskEventWrapView { stored_path: stored, event: DiskEventView::Deleted(a) })
            } else {
                Merge::Keep
            },
            DiskEventView::Created(_) => Merge::Keep,
            DiskEventView::Modified(b) => if a == b { Merge::Replace(current) } else { Merge::Keep },
            DiskEventView::Renamed(before, after) => if a == before {
                Merge::Replace(DiskEventWrapView { stored_path: stored, event: DiskEventView::Renamed(before, after) })
            } else {
                Merge::Keep
            },
        },
    }
}

/// Folds the pending `events`, in order, into the event under reduction;
/// `kept` collects, in order, the pending events left for later.  When the
/// reduced event is cancelled, the next pending event (if any) becomes the
/// event under reduction.  Returns the reduced event and what stays pending.
pub open spec fn reduce_from(
    current: Option<DiskEventWrapView>,
    events: Seq<DiskEventView>,
    kept: Seq<DiskEventView>,
) -> (Option<DiskEventWrapView>, Seq<DiskEventView>)
    decreases events.len(),
{
    match current {
        None => (None, kept),
        Some(c) => if events.len() == 0 {
            (Some(c), kept)
        } else {
            let rest = events.drop_first();
            match merge(c, events[0]) {
                Merge::Keep => reduce_from(Some(c), rest, kept.push(events[0])),
                Merge::Replace(n) => reduce_from(Some(n), rest, kept),
                Merge::Cancel => if rest.len() == 0 {
                    (None, kept)
                } else {
                    reduce_from(Some(wrap_of(rest[0])), rest.drop_first(), kept)
                },
            }
        },
    }
}

/// The next reduced event of a queue of disk events, and the queue left after it.
pub open spec fn reduce(events: Seq<DiskEventView>) -> (Option<DiskEventWrapView>, Seq<DiskEventView>) {
    if events.len() == 0 {
        (None, Seq::empty())
    } else {
        reduce_from(Some(wrap_of(events[0])), events.drop_first(), Seq::empty())
    }
}

/// Mathematical value of an optional wrap.
pub open spec fn option_view(o: Option<DiskEventWrap>) -> Option<DiskEventWrapView> {
    match o {
        Some(w) => Some(w@),
        None => None,
    }
}

/// Failure to receive disk events.
#[derive(Debug, PartialEq, Eq, Structural, Clone, Copy)]
pub enum Error {
    ChannelClosed,
}

proof fn lemma_reduce_from_bounds(
    current: Option<DiskEventWrapView>,
    events: Seq<DiskEventView>,
    kept: Seq<DiskEventView>,
)
    ensures
        reduce_from(current, events, kept).1.len() <= kept.len() + events.len(),
        forall|x: DiskEventView| #[trigger] reduce_from(current, events, kept).1.contains(x)
            ==> kept.contains(x) || events.contains(x),
        reduce_from(current, events, kept).0 matches Some(w) ==> (current == Some(w) || exists|i: int|
            0 <= i < events.len() && w.stored_path == first_path(events[i])
        ) || (current matches Some(c) && w.stored_path == c.stored_path),
    decreases events.len(),
{
    if let Some(c) = current {
        if events.len() > 0 {
            let rest = events.drop_first();
            match merge(c, events[0]) {
                Merge::Keep => {
                    lemma_reduce_from_bounds(Some(c), rest, kept.push(events[0]));
                    assert forall|x: DiskEventView| #[trigger] reduce_from(current, events, kept).1.contains(x)
                        implies kept.contains(x) || events.contains(x) by {
                        if kept.push(events[0]).contains(x) {
                            let j = choose|j: int| 0 <= j < kept.push(events[0]).len() && kept.push(events[0])[j] == x;
                            if j == kept.len() {
                                assert(events[0] == x);
                            } else {
                                assert(kept[j] == x);
                            }
                        } else {
                            let j = choose|j: int| 0 <= j < rest.len() && rest[j] == x;
                            assert(events[j + 1] == x);
                        }
                    }
                    if let Some(w) = reduce_from(current, events, kept).0 {
                        if exists|i: int| 0 <= i < rest.len() && w.stored_path == first_path(rest[i]) {
                            let i = choose|i: int| 0 <= i < rest.len() && w.stored_path == first_path(rest[i]);
                            assert(events[i + 1] == rest[i]);
                        }
                    }
                },
                Merge::Replace(n) => {
                    lemma_reduce_from_bounds(Some(n), rest, kept);
                    assert forall|x: DiskEventView| #[trigger] reduce_from(current, events, kept).1.contains(x)
                        implies kept.contains(x) || events.contains(x) by {
                        if !kept.contains(x) {
                            let j = choose|j: int| 0 <= j < rest.len() && rest[j] == x;
                            assert(events[j + 1] == x);
                        }
                    }
                    if let Some(w) = reduce_from(current, events, kept).0 {
                        if exists|i: int| 0 <= i < rest.len() && w.stored_path == first_path(rest[i]) {
                            let i = choose|i: int| 0 <= i < rest.len() && w.stored_path == first_path(rest[i]);
                            assert(events[i + 1] == rest[i]);
                        }
                    }
                },
                Merge::Cancel => {
                    if rest.len() > 0 {
                        let rest2 = rest.drop_first();
                        lemma_reduce_from_bounds(Some(wrap_of(rest[0])), rest2, kept);
                        assert forall|x: DiskEventView| #[trigger] reduce_from(current, events, kept).1.contains(x)
                            implies kept.contains(x) || events.contains(x) by {
                            if !kept.contains(x) {
                                let j = choose|j: int| 0 <= j < rest2.len() && rest2[j] == x;
                                assert(events[j + 2] == x);
                            }
                        }
                        if let Some(w) = reduce_from(current, events, kept).0 {
                            if exists|i: int| 0 <= i < rest2.len() && w.stored_path == first_path(rest2[i]) {
                                let i = choose|i: int| 0 <= i < rest2.len() && w.stored_path == first_path(rest2[i]);
                                assert(events[i + 2] == rest2[i]);
                            } else {
                                assert(events[1] == rest[0]);
                            }
                        }
                    }
                },
            }
        }
    }
}

proof fn lemma_after_deletion(c: DiskEventWrapView, events: Seq<DiskEventView>, kept: Seq<DiskEventView>)
    requires
        c.event is Deleted,
    ensures
        reduce_from(Some(c), events, kept) == (Some(c), kept + events),
    decreases events.len(),
{
    if events.len() == 0 {
        assert(kept + events =~= kept);
    } else {
        lemma_after_deletion(c, events.drop_first(), kept.push(events[0]));
        assert(kept.push(events[0]) + events.drop_first() =~= kept + events);
    }
}

/// Reducing a non-empty queue always consumes at least its first event, so
/// draining a queue by repeated reduction terminates.
pub proof fn law_reduce_consumes(events: Seq<DiskEventView>)
    requires
        events.len() > 0,
    ensures
        reduce(events).1.len() < events.len(),
{
    lemma_reduce_from_bounds(Some(wrap_of(events[0])), events.drop_first(), Seq::empty());
}

/// Reduction never invents pending events: whatever stays pending was pending before.
pub proof fn law_reduce_keeps_only_pending(events: Seq<DiskEventView>, x: DiskEventView)
    requires
        reduce(events).1.contains(x),
    ensures
        events.contains(x),
{
    if events.len() > 0 {
        lemma_reduce_from_bounds(Some(wrap_of(events[0])), events.drop_first(), Seq::empty());
        let j = choose|j: int| 0 <= j < events.drop_first().len() && events.drop_first()[j] == x;
        assert(events[j + 1] == x);
    }
}

/// The reduced event is stored under the path that one of the pending events
/// was first about.
pub proof fn law_reduced_path_comes_from_queue(events: Seq<DiskEventView>)
    requires
        reduce(events).0 is Some,
    ensures
        exists|i: int| 0 <= i < events.len() && reduce(events).0->Some_0.stored_path == first_path(events[i]),
{
    lemma_reduce_from_bounds(Some(wrap_of(events[0])), events.drop_first(), Seq::empty());
    let w = reduce(events).0->Some_0;
    if w.stored_path == first_path(events[0]) {
    } else {
        let i = choose|i: int| 0 <= i < events.drop_first().len() && w.stored_path == first_path(events.drop_first()[i]);
        assert(events[i + 1] == events.drop_first()[i]);
    }
}

/// Nothing is folded into a deletion: a queue that starts with a deletion
/// yields that deletion and keeps every following event pending, in order.
pub proof fn law_deletion_keeps_followers(events: Seq<DiskEventView>)
    requires
        events.len() > 0,
        events[0] is Deleted,
    ensures
        reduce(events) == (Some(wrap_of(events[0])), events.drop_first()),
{
    lemma_after_deletion(wrap_of(events[0]), events.drop_first(), Seq::empty());
    assert(Seq::<DiskEventView>::empty() + events.drop_first() =~= events.drop_first());
}

/// The path a disk event leaves the file at: the new path of a rename, the
/// event's path otherwise.
pub open spec fn current_path(e: DiskEventView) -> Seq<char> {
    match e {
        DiskEventView::Renamed(_, after) => after,
        DiskEventView::Deleted(p) => p,
        DiskEventView::Created(p) => p,
        DiskEventView::Modified(p) => p,
    }
}

/// Whether a pending event is about the file at `path`: it deletes, modifies
/// or moves away what is at `path`.
pub open spec fn touches(e: DiskEventView, path: Seq<char>) -> bool {
    match e {
        DiskEventView::Deleted(p) => p == path,
        DiskEventView::Modified(p) => p == path,
        DiskEventView::Renamed(before, _) => before == path,
        DiskEventView::Created(_) => false,
    }
}

proof fn lemma_all_kept(c: DiskEventWrapView, events: Seq<DiskEventView>, kept: Seq<DiskEventView>)
    requires
        forall|i: int| 0 <= i < events.len() ==> merge(c, #[trigger] events[i]) is Keep,
    ensures
        reduce_from(Some(c), events, kept) == (Some(c), kept + events),
    decreases events.len(),
{
    if events.len() == 0 {
        assert(kept + events =~= kept);
    } else {
        let rest = events.drop_first();
        assert(merge(c, events[0]) is Keep);
        assert forall|i: int| 0 <= i < rest.len() implies merge(c, #[trigger] rest[i]) is Keep by {
            assert(rest[i] == events[i + 1]);
        }
        lemma_all_kept(c, rest, kept.push(events[0]));
        assert(kept.push(events[0]) + rest =~= kept + events);
    }
}

/// Unrelated events stay pending, in order: when no event after the first one
/// is about the file the first one leaves (or when the first one is a
/// deletion), reduction yields the first event as it is and keeps every
/// following event pending, in their order.
pub proof fn law_unrelated_events_stay_pending(events: Seq<DiskEventView>)
    requires
        events.len() > 0,
        events[0] is Deleted || forall|i: int|
            1 <= i < events.len() ==> !touches(#[trigger] events[i], current_path(events[0])),
    ensures
        reduce(events) == (Some(wrap_of(events[0])), events.drop_first()),
{
    let c = wrap_of(events[0]);
    let tail = events.drop_first();
    if events[0] is Deleted {
        lemma_after_deletion(c, tail, Seq::empty());
    } else {
        assert forall|i: int| 0 <= i < tail.len() implies merge(c, #[trigger] tail[i]) is Keep by {
            assert(tail[i] == events[i + 1]);
            assert(!touches(events[i + 1], current_path(events[0])));
        }
        lemma_all_kept(c, tail, Seq::empty());
    }
    assert(Seq::<DiskEventView>::empty() + tail =~= tail);
}

/// The new path of a rename event.
pub open spec fn renamed_to(e: DiskEventView) -> Option<Seq<char>> {
    match e {
        DiskEventView::Renamed(_, after) => Some(after),
        _ => None,
    }
}

proof fn lemma_rename_stays(
    c: DiskEventWrapView,
    events: Seq<DiskEventView>,
    kept: Seq<DiskEventView>,
    allowed: Set<Seq<char>>,
)
    requires
        c.event is Renamed || c.event is Deleted,
        renamed_to(c.event) matches Some(z) ==> allowed.contains(z),
        forall|i: int| 0 <= i < events.len() ==> (renamed_to(#[trigger] events[i]) matches Some(z) ==> allowed.contains(z)),
    ensures
        ({
            let r = reduce_from(Some(c), events, kept).0;
            &&& r is Some
            &&& r->Some_0.stored_path == c.stored_path
            &&& r->Some_0.event is Renamed || r->Some_0.event is Deleted
            &&& renamed_to(r->Some_0.event) matches Some(z) ==> allowed.contains(z)
        }),
    decreases events.len(),
{
    if events.len() > 0 {
        let rest = events.drop_first();
        assert forall|i: int| 0 <= i < rest.len() implies (renamed_to(#[trigger] rest[i]) matches Some(z) ==> allowed.contains(z)) by {
            assert(rest[i] == events[i + 1]);
        }
        assert(renamed_to(events[0]) matches Some(z) ==> allowed.contains(z));
        match merge(c, events[0]) {
            Merge::Keep => {
                lemma_rename_stays(c, rest, kept.push(events[0]), allowed);
            },
            Merge::Replace(n) => {
                lemma_rename_stays(n, rest, kept, allowed);
            },
            Merge::Cancel => {},
        }
    }
}

/// A rename stays a rename: folding the events that follow a rename of a file
/// into it gives a rename (or, once the file is deleted, a deletion) stored
/// under the path the file was renamed from, and the path it is renamed to
/// is the new path of one of the renames among the events.
pub proof fn law_rename_stays_rename(events: Seq<DiskEventView>)
    requires
        events.len() > 0,
        events[0] is Renamed,
    ensures
        ({
            let r = reduce(events).0;
            &&& r is Some
            &&& r->Some_0.stored_path == first_path(events[0])
            &&& r->Some_0.event is Renamed || r->Some_0.event is Deleted
            &&& r->Some_0.event is Renamed ==> exists|i: int|
                0 <= i < events.len() && renamed_to(#[trigger] events[i]) == renamed_to(r->Some_0.event)
        }),
{
    let allowed = Set::new(|z: Seq<char>| exists|i: int| 0 <= i < events.len() && renamed_to(#[trigger] events[i]) == Some(z));
    let tail = events.drop_first();
    assert(allowed.contains(renamed_to(events[0])->Some_0));
    assert forall|i: int| 0 <= i < tail.len() implies (renamed_to(#[trigger] tail[i]) matches Some(z) ==> allowed.contains(z)) by {
        assert(tail[i] == events[i + 1]);
    }
    lemma_rename_stays(wrap_of(events[0]), tail, Seq::empty(), allowed);
}

proof fn lemma_absorbs_modifications(c: DiskEventWrapView, events: Seq<DiskEventView>, kept: Seq<DiskEventView>)
    requires
        c.event is Renamed,
        forall|i: int| 0 <= i < events.len() ==> #[trigger] events[i] == DiskEventView::Modified(renamed_to(c.event)->Some_0),
    ensures
        reduce_from(Some(c), events, kept) == (Some(c), kept),
    decreases events.len(),
{
    if events.len() > 0 {
        let rest = events.drop_first();
        assert(events[0] == DiskEventView::Modified(renamed_to(c.event)->Some_0));
        assert forall|i: int| 0 <= i < rest.len() implies #[trigger] rest[i] == DiskEventView::Modified(
            renamed_to(c.event)->Some_0,
        ) by {
            assert(rest[i] == events[i + 1]);
        }
        lemma_absorbs_modifications(c, rest, kept);
    }
}

/// Modifications of a renamed file are folded into the rename: a rename of
/// `a` to `b` followed only by modifications of `b` yields that rename, stored
/// under `a`, with nothing left pending (the rename carries the last bytes).
pub proof fn law_rename_absorbs_modifications(events: Seq<DiskEventView>)
    requires
        events.len() > 0,
        events[0] is Renamed,
        forall|i: int| 1 <= i < events.len() ==> #[trigger] events[i] == DiskEventView::Modified(
            renamed_to(events[0])->Some_0,
        ),
    ensures
        reduce(events) == (Some(wrap_of(events[0])), Seq::<DiskEventView>::empty()),
{
    let tail = events.drop_first();
    assert forall|i: int| 0 <= i < tail.len() implies #[trigger] tail[i] == DiskEventView::Modified(
        renamed_to(events[0])->Some_0,
    ) by {
        assert(tail[i] == events[i + 1]);
    }
    lemma_absorbs_modifications(wrap_of(events[0]), tail, Seq::empty());
}

/// The path an event leaves a file at, when it leaves it somewhere: the new
/// path of a rename, the path of a creation or a modification.
pub open spec fn left_at(e: DiskEventView) -> Option<Seq<char>> {
    match e {
        DiskEventView::Renamed(_, after) => Some(after),
        DiskEventView::Created(p) => Some(p),
        DiskEventView::Modified(p) => Some(p),
        DiskEventView::Deleted(_) => None,
    }
}

proof fn lemma_modification_stays(
    c: DiskEventWrapView,
    events: Seq<DiskEventView>,
    kept: Seq<DiskEventView>,
    allowed: Set<Seq<char>>,
)
    requires
        c.event is Modified || c.event is Deleted,
        left_at(c.event) matches Some(z) ==> allowed.contains(z),
        forall|i: int| 0 <= i < events.len() ==> (renamed_to(#[trigger] events[i]) matches Some(z) ==> allowed.contains(z)),
    ensures
        ({
            let r = reduce_from(Some(c), events, kept).0;
            &&& r is Some
            &&& r->Some_0.stored_path == c.stored_path
            &&& r->Some_0.event is Modified || r->Some_0.event is Deleted
            &&& left_at(r->Some_0.event) matches Some(z) ==> allowed.contains(z)
        }),
    decreases events.len(),
{
    if events.len() > 0 {
        let rest = events.drop_first();
        assert forall|i: int| 0 <= i < rest.len() implies (renamed_to(#[trigger] rest[i]) matches Some(z) ==> allowed.contains(z)) by {
            assert(rest[i] == events[i + 1]);
        }
        assert(renamed_to(events[0]) matches Some(z) ==> allowed.contains(z));
        match merge(c, events[0]) {
            Merge::Keep => {
                lemma_modification_stays(c, rest, kept.push(events[0]), allowed);
            },
            Merge::Replace(n) => {
                lemma_modification_stays(n, rest, kept, allowed);
            },
            Merge::Cancel => {},
        }
    }
}

/// A modification stays a modification: folding the events that follow a
/// modification of a file into it gives a modification (or, once the file
/// is deleted, a deletion) stored under the modified path, of the file where
/// it was modified or where a later rename moved it.
pub proof fn law_modification_stays_modification(events: Seq<DiskEventView>)
    requires
        events.len() > 0,
        events[0] is Modified,
    ensures
        ({
            let r = reduce(events).0;
            &&& r is Some
            &&& r->Some_0.stored_path == first_path(events[0])
            &&& r->Some_0.event is Modified || r->Some_0.event is Deleted
            &&& r->Some_0.event is Modified ==> (left_at(r->Some_0.event) == left_at(events[0]) || exists|i: int|
                0 <= i < events.len() && renamed_to(#[trigger] events[i]) == left_at(r->Some_0.event))
        }),
{
    let allowed = Set::new(
        |z: Seq<char>|
            Some(z) == left_at(events[0]) || exists|i: int| 0 <= i < events.len() && renamed_to(#[trigger] events[i]) == Some(z),
    );
    let tail = events.drop_first();
    assert forall|i: int| 0 <= i < tail.len() implies (renamed_to(#[trigger] tail[i]) matches Some(z) ==> allowed.contains(z)) by {
        assert(tail[i] == events[i + 1]);
    }
    lemma_modification_stays(wrap_of(events[0]), tail, Seq::empty(), allowed);
}

proof fn lemma_creation_stays(
    c: DiskEventWrapView,
    events: Seq<DiskEventView>,
    kept: Seq<DiskEventView>,
    allowed: Set<Seq<char>>,
)
    requires
        c.event is Created,
        left_at(c.event) matches Some(z) ==> allowed.contains(z),
        forall|i: int| 0 <= i < events.len() ==> !(#[trigger] events[i] is Deleted),
        forall|i: int| 0 <= i < events.len() ==> (renamed_to(#[trigger] events[i]) matches Some(z) ==> allowed.contains(z)),
    ensures
        ({
            let r = reduce_from(Some(c), events, kept).0;
            &&& r is Some
            &&& r->Some_0.stored_path == c.stored_path
            &&& r->Some_0.event is Created
            &&& left_at(r->Some_0.event) matches Some(z) ==> allowed.contains(z)
        }),
    decreases events.len(),
{
    if events.len() > 0 {
        let rest = events.drop_first();
        assert forall|i: int| 0 <= i < rest.len() implies !(#[trigger] rest[i] is Deleted) && (renamed_to(rest[i]) matches Some(z) ==> allowed.contains(z)) by {
            assert(rest[i] == events[i + 1]);
        }
        assert(!(events[0] is Deleted));
        assert(renamed_to(events[0]) matches Some(z) ==> allowed.contains(z));
        match merge(c, events[0]) {
            Merge::Keep => {
                lemma_creation_stays(c, rest, kept.push(events[0]), allowed);
            },
            Merge::Replace(n) => {
                lemma_creation_stays(n, rest, kept, allowed);
            },
            Merge::Cancel => {},
        }
    }
}

/// A creation stays a creation while the file is not deleted: folding the
/// events that follow a creation into it, when none of them is a deletion,
/// gives a creation stored under the created path, of the file where it was
/// created or where a later rename moved it.
pub proof fn law_creation_stays_creation(events: Seq<DiskEventView>)
    requires
        events.len() > 0,
        events[0] is Created,
        forall|i: int| 0 <= i < events.len() ==> !(#[trigger] events[i] is Deleted),
    ensures
        ({
            let r = reduce(events).0;
            &&& r is Some
            &&& r->Some_0.stored_path == first_path(events[0])
            &&& r->Some_0.event is Created
            &&& left_at(r->Some_0.event) == left_at(events[0]) || exists|i: int|
                0 <= i < events.len() && renamed_to(#[trigger] events[i]) == left_at(r->Some_0.event)
        }),
{
    let allowed = Set::new(
        |z: Seq<char>|
            Some(z) == left_at(events[0]) || exists|i: int| 0 <= i < events.len() && renamed_to(#[trigger] events[i]) == Some(z),
    );
    let tail = events.drop_first();
    assert forall|i: int| 0 <= i < tail.len() implies !(#[trigger] tail[i] is Deleted) && (renamed_to(tail[i]) matches Some(z) ==> allowed.contains(z)) by {
        assert(tail[i] == events[i + 1]);
    }
    lemma_creation_stays(wrap_of(events[0]), tail, Seq::empty(), allowed);
}

/// Deleting a created file undoes its creation: a creation of `a` followed
/// by the deletion of `a` vanishes, and the next pending event (if any) is
/// reduced in its place.
pub proof fn law_creation_then_deletion_cancels(events: Seq<DiskEventView>)
    requires
        events.len() >= 2,
        events[0] is Created,
        events[1] == DiskEventView::Deleted(first_path(events[0])),
    ensures
        reduce(events) == if events.len() == 2 {
            (None::<DiskEventWrapView>, Seq::<DiskEventView>::empty())
        } else {
            reduce(events.subrange(2, events.len() as int))
        },
{
    let tail = events.drop_first();
    assert(tail[0] == events[1]);
    if events.len() > 2 {
        let rest = events.subrange(2, events.len() as int);
        assert(tail.drop_first() =~= rest);
        assert(tail.drop_first()[0] == rest[0]);
        assert(rest.drop_first() =~= tail.drop_first().drop_first());
    }
}

/// Where a file at `path` ends up after `events`: each rename of the file
/// moves it to the rename's new path.
pub open spec fn follow(path: Seq<char>, events: Seq<DiskEventView>) -> Seq<char>
    decreases events.len(),
{
    if events.len() == 0 {
        path
    } else {
        let next = match events[0] {
            DiskEventView::Renamed(before, after) => if before == path {
                after
            } else {
                path
            },
            _ => path,
        };
        follow(next, events.drop_first())
    }
}

proof fn lemma_follows_renames(c: DiskEventWrapView, events: Seq<DiskEventView>, kept: Seq<DiskEventView>)
    requires
        !(c.event is Deleted),
        c.event is Created ==> forall|i: int| 0 <= i < events.len() ==> !(#[trigger] events[i] is Deleted),
    ensures
        reduce_from(Some(c), events, kept).0 is Some && !(reduce_from(Some(c), events, kept).0->Some_0.event is Deleted)
            ==> left_at(reduce_from(Some(c), events, kept).0->Some_0.event) == Some(
            follow(left_at(c.event)->Some_0, events),
        ),
    decreases events.len(),
{
    if events.len() > 0 {
        let rest = events.drop_first();
        if c.event is Created {
            assert forall|i: int| 0 <= i < rest.len() implies !(#[trigger] rest[i] is Deleted) by {
                assert(rest[i] == events[i + 1]);
            }
            assert(!(events[0] is Deleted));
        }
        match merge(c, events[0]) {
            Merge::Keep => {
                lemma_follows_renames(c, rest, kept.push(events[0]));
            },
            Merge::Replace(n) => {
                if n.event is Deleted {
                    lemma_after_deletion(n, rest, kept);
                } else {
                    lemma_follows_renames(n, rest, kept);
                }
            },
            Merge::Cancel => {},
        }
    }
}

/// The reduced event leaves the file where the renames that follow moved it:
/// unless the file was deleted (a creation being followed by no deletion), the
/// path the reduced event leaves the file at is where the first event left it,
/// carried along each later rename of the file.
pub proof fn law_reduced_path_follows_renames(events: Seq<DiskEventView>)
    requires
        events.len() > 0,
        !(events[0] is Deleted),
        events[0] is Created ==> forall|i: int| 0 <= i < events.len() ==> !(#[trigger] events[i] is Deleted),
    ensures
        reduce(events).0 is Some && !(reduce(events).0->Some_0.event is Deleted) ==> left_at(
            reduce(events).0->Some_0.event,
        ) == Some(follow(left_at(events[0])->Some_0, events.drop_first())),
{
    let tail = events.drop_first();
    if events[0] is Created {
        assert forall|i: int| 0 <= i < tail.len() implies !(#[trigger] tail[i] is Deleted) by {
            assert(tail[i] == events[i + 1]);
        }
    }
    lemma_follows_renames(wrap_of(events[0]), tail, Seq::empty());
}

/// An empty queue yields no event.
pub proof fn law_reduce_empty()
    ensures
        reduce(Seq::empty()) == (None::<DiskEventWrapView>, Seq::<DiskEventView>::empty()),
{
}

/// Executable counterpart of [`Merge`].
enum MergeStep {
    Keep,
    Replace(DiskEventWrap),
    Cancel,
}

/// Mathematical value of a merge step.
spec fn step_view(m: MergeStep) -> Merge {
    match m {
        MergeStep::Keep => Merge::Keep,
        MergeStep::Replace(w) => Merge::Replace(w@),
        MergeStep::Cancel => Merge::Cancel,
    }
}

fn wrap_with(stored: &String, event: DiskEvent) -> (r: DiskEventWrap)
    ensures
        r@ == (DiskEventWrapView { stored_path: stored@, event: event@ }),
{
    DiskEventWrap(stored.clone(), event)
}

fn merge_step(current: &DiskEventWrap, next: &DiskEvent) -> (r: MergeStep)
    ensures
        step_view(r) == merge(current@, next@),
{
    let stored = &current.0;
    match &current.1 {
        DiskEvent::Created(a) => match next {
            DiskEvent::Deleted(b) => if *a == *b { MergeStep::Cancel } else { MergeStep::Keep },
            DiskEvent::Created(_) => MergeStep::Keep,
            DiskEvent::Modified(b) => if *a == *b {
                MergeStep::Replace(current.duplicate())
            } else {
                MergeStep::Keep
            },
            DiskEvent::Renamed(before, after) => if *before == *a {
                MergeStep::Replace(wrap_with(stored, DiskEvent::Created(after.clone())))
            } else {
                MergeStep::Keep
            },
        },
        DiskEvent::Deleted(_) => MergeStep::Keep,
        DiskEvent::Modified(a) => match next {
            DiskEvent::Deleted(b) => if *a == *b {
                MergeStep::Replace(wrap_with(stored, DiskEvent::Deleted(b.clone())))
            } else {
                MergeStep::Keep
            },
            DiskEvent::Created(_) => MergeStep::Keep,
            DiskEvent::Modified(b) => if *a == *b {
                MergeStep::Replace(current.duplicate())
            } else {
                MergeStep::Keep
            },
            DiskEvent::Renamed(before, after) => if *before == *a {
                MergeStep::Replace(wrap_with(stored, DiskEvent::Modified(after.clone())))
            } else {
                MergeStep::Keep
            },
        },
        DiskEvent::Renamed(_, a) => match next {
            DiskEvent::Deleted(b) => if *a == *b {
                MergeStep::Replace(wrap_with(stored, DiskEvent::Deleted(a.clone())))
            } else {
                MergeStep::Keep
            },
            DiskEvent::Created(_) => MergeStep::Keep,
            DiskEvent::Modified(b) => if *a == *b {
                MergeStep::Replace(current.duplicate())
            } else {
                MergeStep::Keep
            },
            DiskEvent::Renamed(before, after) => if *a == *before {
                MergeStep::Replace(wrap_with(stored, DiskEvent::Renamed(before.clone(), after.clone())))
            } else {
                MergeStep::Keep
            },
        },
    }
}

/// Pending disk events, reduced one at a time.
pub struct LocalReceiverReducer {
    events: Vec<DiskEvent>,
}

impl View for LocalReceiverReducer {
    type V = Seq<DiskEventView>;

    closed spec fn view(&self) -> Seq<DiskEventView> {
        views(self.events@)
    }
}

impl LocalReceiverReducer {
    /// A reducer with nothing pending.
    pub fn new() -> (r: LocalReceiverReducer)
        ensures
            r@ == Seq::<DiskEventView>::empty(),
    {
        let r = LocalReceiverReducer { events: Vec::new() };
        assert(r@ =~= Seq::<DiskEventView>::empty());
        r
    }

    /// Appends newly received events, in order, to the pending ones.
    pub fn extend(&mut self, incoming: Vec<DiskEvent>)
        ensures
            final(self)@ == old(self)@ + views(incoming@),
    {
        let ghost before = views(self.events@);
        let ghost all = views(incoming@);
        let n = incoming.len();
        let mut i: usize = 0;
        while i < n
            invariant
                n == incoming@.len(),
                all == views(incoming@),
                i <= n,
                views(self.events@) == before + all.take(i as int),
            decreases n - i,
        {
            let ghost prior = self.events@;
            self.events.push(incoming[i].duplicate());
            proof {
                assert(self.events@ == prior.push(self.events@.last()));
                assert(all.take(i + 1) =~= all.take(i as int).push(incoming@[i as int]@));
                assert(views(self.events@) =~= views(prior).push(incoming@[i as int]@));
            }
            i = i + 1;
        }
        proof {
            assert(all.take(n as int) =~= all);
        }
    }

    /// Whether no event is pending.
    pub fn is_empty(&self) -> (r: bool)
        ensures
            r == (self@.len() == 0),
    {
        self.events.len() == 0
    }

    /// Takes the next reduced event: the first pending event with every
    /// following event about the same file folded into it, as [`reduce`]
    /// states; the events it did not absorb stay pending, in order.
    pub fn next_event(&mut self) -> (r: Result<Option<DiskEventWrap>, Error>)
        ensures
            r is Ok,
            (option_view(r->Ok_0), final(self)@) == reduce(old(self)@),
    {
        let mut events: Vec<DiskEvent> = Vec::new();
        std::mem::swap(&mut events, &mut self.events);
        let ghost all = views(events@);
        let n = events.len();
        if n == 0 {
            proof {
                assert(views(self.events@) =~= Seq::<DiskEventView>::empty());
            }
            return Ok(None);
        }
        let mut current: Option<DiskEventWrap> = Some(DiskEventWrap::from_event(&events[0]));
        let mut kept: Vec<DiskEvent> = Vec::new();
        let mut i: usize = 1;
        proof {
            assert(all.drop_first() =~= all.skip(1));
            assert(views(kept@) =~= Seq::<DiskEventView>::empty());
        }
        while i < n && current.is_some()
            invariant
                n == events@.len(),
                all == views(events@),
                1 <= i <= n,
                n > 0,
                reduce(all) == reduce_from(option_view(current), all.skip(i as int), views(kept@)),
            decreases n - i,
        {
            let c = current.unwrap();
            let ghost rest = all.skip(i as int);
            assert(rest[0] == events@[i as int]@);
            assert(rest.drop_first() =~= all.skip(i + 1));
            match merge_step(&c, &events[i]) {
                MergeStep::Keep => {
                    let ghost prior = kept@;
                    kept.push(events[i].duplicate());
                    proof {
                        assert(views(kept@) =~= views(prior).push(events@[i as int]@));
                    }
                    current = Some(c);
                    i = i + 1;
                },
                MergeStep::Replace(w) => {
                    current = Some(w);
                    i = i + 1;
                },
                MergeStep::Cancel => {
                    if i + 1 < n {
                        assert(rest.drop_first()[0] == events@[i + 1]@);
                        assert(rest.drop_first().drop_first() =~= all.skip(i + 2));
                        current = Some(DiskEventWrap::from_event(&events[i + 1]));
                        i = i + 2;
                    } else {
                        current = None;
                        i = i + 1;
                    }
                },
            }
        }
        proof {
            if current.is_some() {
                assert(all.skip(i as int).len() == 0);
            }
        }
        self.events = kept;
        Ok(current)
    }

    /// Appends newly received events and takes the next reduced event (one
    /// round of receiving).
    pub fn receive(&mut self, incoming: Vec<DiskEvent>) -> (r: Result<Option<DiskEventWrap>, Error>)
        ensures
            r is Ok,
            (option_view(r->Ok_0), final(self)@) == reduce(old(self)@ + views(incoming@)),
    {
        self.extend(incoming);
        self.next_event()
    }
}

} // verus!
