//! Choosing how to carry out an event, and skipping the events the
//! synchronisation caused itself.

use vstd::prelude::*;
use crate::event::{Event, EventView, DiskEvent, DiskEventView, DiskEventWrap, RemoteEvent, event_views};
use crate::executor::disk::{AbsentFromDiskExecutor, PresentOnDiskExecutor, UpdatedOnDiskExecutor};
use crate::executor::remote::{
    AbsentFromRemoteExecutor,
    CreatedOnRemoteExecutor,
    ModifiedOnRemoteExecutor,
    NamedOnRemoteExecutor,
};

verus! {

/// The executor that carries out an event.
#[derive(Debug)]
pub enum ExecutorChoice {
    AbsentFromDisk(AbsentFromDiskExecutor),
    PresentOnDisk(PresentOnDiskExecutor),
    UpdatedOnDisk(UpdatedOnDiskExecutor),
    AbsentFromRemote(AbsentFromRemoteExecutor),
    CreatedOnRemote(CreatedOnRemoteExecutor),
    ModifiedOnRemote(ModifiedOnRemoteExecutor),
    NamedOnRemote(NamedOnRemoteExecutor),
}

/// `events` without any occurrence of `x`, in order.
pub open spec fn without(events: Seq<EventView>, x: EventView) -> Seq<EventView>
    decreases events.len(),
{
    if events.len() == 0 {
        Seq::empty()
    } else if events.last() == x {
        without(events.drop_last(), x)
    } else {
        without(events.drop_last(), x).push(events.last())
    }
}

/// Nothing equal to `x` is left once it is removed.
pub proof fn law_without_removes(events: Seq<EventView>, x: EventView)
    ensures
        !without(events, x).contains(x),
        without(events, x).len() <= events.len(),
    decreases events.len(),
{
    if events.len() > 0 {
        law_without_removes(events.drop_last(), x);
        let r = without(events.drop_last(), x);
        if events.last() != x {
            assert forall|i: int| 0 <= i < r.push(events.last()).len() implies r.push(events.last())[i]
                != x by {
                if i < r.len() {
                    assert(r[i] == r.push(events.last())[i]);
                    assert(!r.contains(x));
                    if r[i] == x {
                        assert(r.contains(x));
                    }
                }
            }
        }
    }
}

/// Carries out events in the synchronised folder `workspace_folder`,
/// skipping those it expects because its own work causes them.
#[derive(Debug)]
pub struct Operator {
    pub workspace_folder: String,
    /// Events caused by the work done, to be skipped once when they come.
    pub ignore_events: Vec<Event>,
}

impl Operator {
    /// An operator that expects no event yet.
    pub fn new(workspace_folder: String) -> (r: Operator)
        ensures
            r.workspace_folder == workspace_folder,
            r.ignore_events@.len() == 0,
    {
        Operator { workspace_folder, ignore_events: Vec::new() }
    }

    /// Whether an event was expected: then every expectation of it is dropped
    /// and the event is not to be carried out.
    pub fn planned_ignore(&mut self, event: &Event) -> (r: bool)
        ensures
            r == event_views(old(self).ignore_events@).contains(event@),
            event_views(final(self).ignore_events@) == without(
                event_views(old(self).ignore_events@),
                event@,
            ),
            final(self).workspace_folder == old(self).workspace_folder,
    {
        let ghost before = event_views(self.ignore_events@);
        let mut kept: Vec<Event> = Vec::new();
        let mut found = false;
        let n = self.ignore_events.len();
        let mut i: usize = 0;
        assert(before.take(0) =~= Seq::<EventView>::empty());
        while i < n
            invariant
                n == self.ignore_events@.len(),
                before == event_views(self.ignore_events@),
                i <= n,
                event_views(kept@) == without(before.take(i as int), event@),
                found == before.take(i as int).contains(event@),
            decreases n - i,
        {
            let e = &self.ignore_events[i];
            assert(before.take(i + 1).drop_last() =~= before.take(i as int));
            assert(before.take(i + 1).last() == e@);
            if e.same(event) {
                found = true;
                assert(before.take(i + 1)[i as int] == event@);
            } else {
                let ghost prior = event_views(kept@);
                kept.push(e.duplicate());
                assert(event_views(kept@) =~= prior.push(e@));
                proof {
                    if found {
                        let k = choose|k: int| 0 <= k < i && before.take(i as int)[k] == event@;
                        assert(before.take(i + 1)[k] == event@);
                    } else {
                        assert forall|k: int| 0 <= k < i + 1 implies #[trigger] before.take(i + 1)[k] != event@ by {
                            if k < i {
                                assert(before.take(i + 1)[k] == before.take(i as int)[k]);
                            }
                        }
                    }
                }
            }
            if found {
                assert(before.take(i + 1).contains(event@)) by {
                    if before.take(i as int).contains(event@) {
                        let k = choose|k: int| 0 <= k < i && before.take(i as int)[k] == event@;
                        assert(before.take(i + 1)[k] == event@);
                    }
                }
            }
            i = i + 1;
        }
        assert(before.take(n as int) =~= before);
        self.ignore_events = kept;
        found
    }

    /// The executor for an event: a remote deletion, creation, update or
    /// rename is carried out on disk (a rename fetches no data); a disk
    /// deletion, creation, modification or rename is carried out remotely.
    pub fn executor(&self, event: Event) -> (r: ExecutorChoice)
        ensures
            match event@ {
                EventView::Remote(RemoteEvent::Deleted(id)) => r matches ExecutorChoice::AbsentFromDisk(x)
                    && x.workspace_folder@ == self.workspace_folder@ && x.content_id == id,
                EventView::Remote(RemoteEvent::Created(id)) => r matches ExecutorChoice::PresentOnDisk(x)
                    && x.workspace_folder@ == self.workspace_folder@ && x.content_id == id,
                EventView::Remote(RemoteEvent::Updated(id)) => r matches ExecutorChoice::UpdatedOnDisk(x)
                    && x.workspace_folder@ == self.workspace_folder@ && x.content_id == id && x.download,
                EventView::Remote(RemoteEvent::Renamed(id)) => r matches ExecutorChoice::UpdatedOnDisk(x)
                    && x.workspace_folder@ == self.workspace_folder@ && x.content_id == id && !x.download,
                EventView::Local(w) => match w.event {
                    DiskEventView::Deleted(_) => r matches ExecutorChoice::AbsentFromRemote(x)
                        && x.db_path@ == w.stored_path,
                    DiskEventView::Created(p) => r matches ExecutorChoice::CreatedOnRemote(x)
                        && x.workspace_folder@ == self.workspace_folder@ && x.path@ == p && !x.avoid_same_sums,
                    DiskEventView::Modified(p) => r matches ExecutorChoice::ModifiedOnRemote(x)
                        && x.workspace_folder@ == self.workspace_folder@ && x.db_path@ == w.stored_path
                        && x.disk_path@ == p,
                    DiskEventView::Renamed(_, after) => r matches ExecutorChoice::NamedOnRemote(x)
                        && x.workspace_folder@ == self.workspace_folder@ && x.previous_db_path@
                        == w.stored_path && x.after_disk_path@ == after,
                },
            },
    {
        match event {
            Event::Remote(RemoteEvent::Deleted(id)) => ExecutorChoice::AbsentFromDisk(
                AbsentFromDiskExecutor::new(self.workspace_folder.clone(), id),
            ),
            Event::Remote(RemoteEvent::Created(id)) => ExecutorChoice::PresentOnDisk(
                PresentOnDiskExecutor::new(self.workspace_folder.clone(), id),
            ),
            Event::Remote(RemoteEvent::Updated(id)) => ExecutorChoice::UpdatedOnDisk(
                UpdatedOnDiskExecutor::new(self.workspace_folder.clone(), id, true),
            ),
            Event::Remote(RemoteEvent::Renamed(id)) => ExecutorChoice::UpdatedOnDisk(
                UpdatedOnDiskExecutor::new(self.workspace_folder.clone(), id, false),
            ),
            Event::Local(DiskEventWrap(db_path, DiskEvent::Deleted(_))) => ExecutorChoice::AbsentFromRemote(
                AbsentFromRemoteExecutor::new(db_path),
            ),
            Event::Local(DiskEventWrap(_, DiskEvent::Created(disk_path))) => ExecutorChoice::CreatedOnRemote(
                CreatedOnRemoteExecutor::new(self.workspace_folder.clone(), disk_path),
            ),
            Event::Local(DiskEventWrap(db_path, DiskEvent::Modified(disk_path))) => ExecutorChoice::ModifiedOnRemote(
                ModifiedOnRemoteExecutor::new(self.workspace_folder.clone(), db_path, disk_path),
            ),
            Event::Local(DiskEventWrap(db_path, DiskEvent::Renamed(_, after_disk_path))) => ExecutorChoice::NamedOnRemote(
                NamedOnRemoteExecutor::new(self.workspace_folder.clone(), db_path, after_disk_path),
            ),
        }
    }
}

} // verus!
