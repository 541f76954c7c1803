//! Turns at a pointer that is shared behind a lock, and what each turn leaves
//! behind as evidence of it.

use crate::active_project::{ActiveProject, ActiveState};
use crate::active_project_course::Call;
use crate::ids::{ProjectId, WorkspaceId};
use crate::shared::Shape;
use vstd::prelude::*;
use vstd::rwlock::{RwLock, WriteHandle};

verus! {

/// Evidence of one turn: the state that was found behind the lock, the call
/// that was made on it, and the state that was put back. A turn is the only way
/// to come by one.
pub struct Receipt {
    found: Ghost<ActiveState>,
    call: Ghost<Call>,
    left: Ghost<ActiveState>,
    told: Ghost<Seq<u128>>,
}

impl Receipt {
    #[verifier::type_invariant]
    spec fn sound(self) -> bool {
        self.call@.leads(self.found@, self.left@)
    }

    /// The state that was found behind the lock.
    pub closed spec fn found(self) -> ActiveState {
        self.found@
    }

    /// The call that was made.
    pub closed spec fn call(self) -> Call {
        self.call@
    }

    /// The state that was put back.
    pub closed spec fn left(self) -> ActiveState {
        self.left@
    }

    /// What the pointer's clock told in the course of the turn.
    pub closed spec fn told(self) -> Seq<u128> {
        self.told@
    }
}

/// A turn that is under way: nobody else reaches the pointer until it ends.
pub struct Turn<'a> {
    handle: WriteHandle<'a, ActiveProject, Shape>,
    found: Ghost<ActiveState>,
    told: Ghost<Seq<u128>>,
}

impl<'a> Turn<'a> {
    /// The state that was found behind the lock.
    pub closed spec fn found(self) -> ActiveState {
        self.found@
    }

    /// What the pointer's clock had told before the turn.
    pub closed spec fn told(self) -> Seq<u128> {
        self.told@
    }

    /// What every pointer behind the lock has in common.
    pub closed spec fn shape(self) -> Shape {
        self.handle.rwlock().pred()
    }

    /// Takes a turn at the pointer behind `lock`.
    pub fn take(lock: &'a RwLock<ActiveProject, Shape>) -> (r: (ActiveProject, Self))
        ensures
            r.1.shape() == lock.pred(),
            r.1.found() == r.0@,
            r.1.told() == r.0.told(),
            r.0.wf(),
            r.0.epoch() == r.1.shape().epoch,
            r.1.shape().fits(r.1.found()),
    {
        let (pointer, handle) = lock.acquire_write();
        let ghost found = pointer@;
        let ghost told = pointer.told();
        (pointer, Turn { handle, found: Ghost(found), told: Ghost(told) })
    }

    /// Ends the turn: the pointer is put back, which must be what `call` has
    /// made of the state that was found.
    pub fn end(self, pointer: ActiveProject, Ghost(call): Ghost<Call>) -> (r: Receipt)
        requires
            pointer.wf(),
            pointer.epoch() == self.shape().epoch,
            self.shape().fits(pointer@),
            call.leads(self.found(), pointer@),
            self.told().is_prefix_of(pointer.told()),
        ensures
            r.found() == self.found(),
            r.call() == call,
            r.left() == pointer@,
            r.told() == pointer.told().skip(self.told().len() as int),
            r.call().leads(r.found(), r.left()),
    {
        let Turn { handle, found, told } = self;
        let ghost left = pointer@;
        let ghost since = pointer.told().skip(told@.len() as int);
        handle.release_write(pointer);
        Receipt { found, call: Ghost(call), left: Ghost(left), told: Ghost(since) }
    }
}

/// Reads the one slot behind `lock`, beside others who read.
pub fn read_slot(lock: &RwLock<ActiveProject, Shape>) -> (r: (
    Option<(WorkspaceId, ProjectId)>,
    Receipt,
))
    ensures
        lock.pred().fits(r.1.found()),
        r.0 == r.1.found().single,
        r.1.call() == Call::Get,
        r.1.left() == r.1.found(),
        r.1.told() == Seq::<u128>::empty(),
{
    let handle = lock.acquire_read();
    let single = handle.borrow().get();
    let ghost found = handle.view()@;
    handle.release_read();
    (
        single,
        Receipt {
            found: Ghost(found),
            call: Ghost(Call::Get),
            left: Ghost(found),
            told: Ghost(Seq::empty()),
        },
    )
}

/// Two turns follow each other without another between them: the second found
/// what the first had put back.
pub open spec fn follows(second: Receipt, first: Receipt) -> bool {
    second.found() == first.left()
}

} // verus!
