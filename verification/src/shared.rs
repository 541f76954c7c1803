//! A handle on the active-project pointer that is cheap to clone; all clones
//! reach the same pointer.

use crate::active_project::{ActiveProject, ActiveProjectMode, ActiveState, ActorKey, Identity};
use crate::active_project_course::Call;
use crate::ids::{ProjectId, WorkspaceId};
use crate::lock::{follows, read_slot, Receipt, Turn};
use std::sync::Arc;
use std::time::Instant;
use vstd::prelude::*;
use vstd::rwlock::{RwLock, RwLockPredicate};

verus! {

/// What every pointer behind one lock has in common.
pub struct Shape {
    pub mode: ActiveProjectMode,
    pub ttl: int,
    pub max_entries: nat,
    pub epoch: Instant,
}

impl Shape {
    /// A state with this mode, time to live and cap.
    pub open spec fn fits(self, state: ActiveState) -> bool {
        &&& state.wf()
        &&& state.mode == self.mode
        &&& state.ttl == self.ttl
        &&& state.max_entries == self.max_entries
    }
}

impl RwLockPredicate<ActiveProject> for Shape {
    open spec fn inv(self, v: ActiveProject) -> bool {
        v.wf() && self.fits(v@) && v.epoch() == self.epoch
    }
}

/// A cloneable handle on a shared [`ActiveProject`].
///
/// Each call takes the lock, makes the call of the same name on the pointer
/// behind it, and releases the lock. Other holders of the handle may write
/// between two calls, so the contracts speak of the state that a call found
/// behind the lock and of the one that it put back, which its receipt tells;
/// of what was found only the shape is known beforehand.
pub struct SharedActiveProject {
    mode: ActiveProjectMode,
    lock: Arc<RwLock<ActiveProject, Shape>>,
}

impl Clone for SharedActiveProject {
    /// Another handle on the same pointer.
    fn clone(&self) -> (r: Self)
        ensures
            r == *self,
    {
        SharedActiveProject { mode: self.mode, lock: self.lock.clone() }
    }
}

impl SharedActiveProject {
    /// The shape of the pointer behind the lock.
    pub closed spec fn shape(self) -> Shape {
        self.lock.pred()
    }

    /// The handle knows the mode of the pointer.
    pub closed spec fn wf(self) -> bool {
        self.mode == self.shape().mode
    }

    /// A handle on `pointer`.
    pub fn share(pointer: ActiveProject) -> (r: Self)
        requires
            pointer.wf(),
        ensures
            r.wf(),
            r.shape().mode == pointer@.mode,
            r.shape().ttl == pointer@.ttl,
            r.shape().max_entries == pointer@.max_entries,
            r.shape().epoch == pointer.epoch(),
    {
        let mode = pointer.mode();
        let ghost shape = Shape {
            mode: pointer@.mode,
            ttl: pointer@.ttl,
            max_entries: pointer@.max_entries,
            epoch: pointer.epoch(),
        };
        proof {
            crate::active_project::law_memory_is_bounded(pointer);
        }
        SharedActiveProject { mode, lock: Arc::new(RwLock::new(pointer, Ghost(shape))) }
    }

    /// The mode that the pointer was made with.
    pub fn mode(&self) -> (r: ActiveProjectMode)
        requires
            self.wf(),
        ensures
            r == self.shape().mode,
    {
        self.mode
    }

    /// [`ActiveProject::set_for`] on the shared pointer. The receipt tells what
    /// was found behind the lock and what was put back; others may have written
    /// since.
    pub fn set_for(
        &self,
        actor: &ActorKey,
        workspace_id: WorkspaceId,
        project_id: ProjectId,
    ) -> (r: Receipt)
        ensures
            self.shape().fits(r.found()),
            self.shape().fits(r.left()),
            r.told().len() == 1,
            exists|now: int| #[trigger]
                r.found().published(actor@, workspace_id, project_id, now, r.left())
                    && r.found().at_reading(r.told()[0] as int, now) && r.call() == (Call::SetFor {
                    actor: actor@,
                    workspace: workspace_id,
                    project: project_id,
                    now,
                }),
    {
        let (mut pointer, turn) = Turn::take(&*self.lock);
        pointer.set_for(actor, workspace_id, project_id);
        let ghost now = choose|now: int| #[trigger]
            turn.found().published(actor@, workspace_id, project_id, now, pointer@)
                && turn.found().at_reading(pointer.told().last() as int, now);
        assert(turn.told().is_prefix_of(pointer.told()));
        proof {
            crate::active_project::law_memory_is_bounded(pointer);
        }
        turn.end(
            pointer,
            Ghost(
                Call::SetFor { actor: actor@, workspace: workspace_id, project: project_id, now },
            ),
        )
    }

    /// [`ActiveProject::get_for`] on the shared pointer, with a receipt for the
    /// state that was read.
    pub fn read_for(&self, actor: &ActorKey) -> (r: (Option<(WorkspaceId, ProjectId)>, Receipt))
        ensures
            self.shape().fits(r.1.found()),
            self.shape().fits(r.1.left()),
            r.1.told().len() == 1,
            exists|now: int|
                r.0 == #[trigger] r.1.found().lookup(actor@, now) && r.1.found().at_reading(
                    r.1.told()[0] as int,
                    now,
                ) && r.1.left() == r.1.found().after_lookup(actor@, now) && r.1.call()
                    == (Call::GetFor { actor: actor@, now }),
    {
        let (mut pointer, turn) = Turn::take(&*self.lock);
        let found = pointer.get_for(actor);
        let ghost now = choose|now: int|
            found == #[trigger] turn.found().lookup(actor@, now) && pointer@
                == turn.found().after_lookup(actor@, now) && turn.found().at_reading(
                pointer.told().last() as int,
                now,
            );
        assert(turn.told().is_prefix_of(pointer.told()));
        proof {
            crate::active_project::law_memory_is_bounded(pointer);
        }
        (found, turn.end(pointer, Ghost(Call::GetFor { actor: actor@, now })))
    }

    /// [`ActiveProject::get_for`] on the shared pointer.
    pub fn get_for(&self, actor: &ActorKey) -> (r: Option<(WorkspaceId, ProjectId)>)
        ensures
            exists|state: ActiveState, now: int|
                self.shape().fits(state) && state.not_before(now) && r
                    == #[trigger] state.lookup(actor@, now),
    {
        self.read_for(actor).0
    }

    /// [`ActiveProject::set`] on the shared pointer. The receipt tells what was
    /// found behind the lock and what was put back; others may have written
    /// since.
    pub fn set(&self, workspace_id: WorkspaceId, project_id: ProjectId) -> (r: Receipt)
        ensures
            self.shape().fits(r.found()),
            self.shape().fits(r.left()),
            r.call() == (Call::SetSlot { workspace: workspace_id, project: project_id }),
            r.left() == r.found().with_single(Some((workspace_id, project_id))),
    {
        let (mut pointer, turn) = Turn::take(&*self.lock);
        pointer.set(workspace_id, project_id);
        turn.end(pointer, Ghost(Call::SetSlot { workspace: workspace_id, project: project_id }))
    }

    /// [`ActiveProject::get`] on the shared pointer, with a receipt for the
    /// state that was read.
    pub fn read(&self) -> (r: (Option<(WorkspaceId, ProjectId)>, Receipt))
        ensures
            self.shape().fits(r.1.found()),
            r.0 == r.1.found().single,
            r.1.call() == Call::Get,
            r.1.left() == r.1.found(),
    {
        read_slot(&*self.lock)
    }

    /// [`ActiveProject::get`] on the shared pointer.
    pub fn get(&self) -> (r: Option<(WorkspaceId, ProjectId)>)
        ensures
            exists|state: ActiveState|
                #[trigger] self.shape().fits(state) && r == state.single,
    {
        self.read().0
    }

    /// [`ActiveProject::clear`] on the shared pointer. The receipt tells what was
    /// found behind the lock and what was put back; others may have written
    /// since.
    pub fn clear(&self) -> (r: Receipt)
        ensures
            self.shape().fits(r.found()),
            self.shape().fits(r.left()),
            r.call() == Call::Clear,
            r.left() == r.found().cleared(),
    {
        let (mut pointer, turn) = Turn::take(&*self.lock);
        pointer.clear();
        turn.end(pointer, Ghost(Call::Clear))
    }
}

/// What is published through one handle is what every holder reads next, in
/// every mode: from the one slot, and so does the actor who published it.
pub proof fn law_every_holder_reads_what_was_published(
    published: Receipt,
    actor: Identity,
    workspace: WorkspaceId,
    project: ProjectId,
    now: int,
    read: Receipt,
    later: int,
)
    requires
        published.call() == (Call::SetFor { actor, workspace, project, now }),
        published.call().leads(published.found(), published.left()),
        follows(read, published),
    ensures
        read.found().single == Some((workspace, project)),
        read.found().lookup(actor, later) == Some((workspace, project)),
        forall|anyone: Identity| #[trigger]
            read.found().key(anyone) is None ==> read.found().lookup(anyone, later) == Some(
                (workspace, project),
            ),
        read.found().mode == ActiveProjectMode::Single ==> forall|anyone: Identity| #[trigger]
            read.found().lookup(anyone, later) == Some((workspace, project)),
{
    crate::active_project_laws::law_read_your_write(
        published.found(),
        actor,
        workspace,
        project,
        now,
        published.left(),
        later,
    );
}

/// What is written to the one slot through one handle is what every holder
/// reads there next; and after a `clear` nobody reads anything.
pub proof fn law_every_holder_reads_the_slot(
    written: Receipt,
    workspace: WorkspaceId,
    project: ProjectId,
    cleared: Receipt,
    read: Receipt,
    actor: Identity,
    later: int,
)
    requires
        written.call() == (Call::SetSlot { workspace, project }),
        written.call().leads(written.found(), written.left()),
        cleared.call() == Call::Clear,
        cleared.call().leads(cleared.found(), cleared.left()),
    ensures
        follows(read, written) ==> read.found().single == Some((workspace, project)),
        follows(read, cleared) ==> read.found().single is None && read.found().lookup(
            actor,
            later,
        ) is None,
{
}

/// Whatever is behind a lock, its mode, its time to live and its cap are those of
/// the pointer that was shared, and it holds no more entries than that.
pub proof fn law_what_is_behind_a_lock(shape: Shape, found: ActiveState)
    requires
        shape.fits(found),
    ensures
        found.mode == shape.mode,
        found.ttl == shape.ttl,
        found.max_entries == shape.max_entries,
        found.entries.len() <= shape.max_entries,
{
}

} // verus!
