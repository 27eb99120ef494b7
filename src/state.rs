use vstd::prelude::*;
use crate::models::{Snap, SnapView, random_uuid_bits, now_micros};
use crate::store::{SnapStore, holds_id, valid_history, is_listing, views};

verus! {

/// Why a snap could not be created.
#[derive(Debug, Clone, Copy, PartialEq, Eq, Structural)]
pub enum SnapCreationError {
    /// The identity drawn for the new snap is already held.
    IdCollisionError,
}

/// What any repository of snaps offers to the request handlers.
pub trait SnapAppState {
    /// The snaps held, in insertion order.
    spec fn snaps(&self) -> Seq<SnapView>;

    /// Creates a snap with `message`, a fresh random identity and the current
    /// time, and returns a copy of it. It fails only when the identity drawn
    /// is already held, and then leaves the repository as it was; so on an
    /// empty repository it succeeds.
    fn post(&mut self, message: &str) -> (r: Result<Snap, SnapCreationError>)
        ensures
            valid_history(final(self).snaps()),
            r is Err ==> final(self).snaps() == old(self).snaps() && old(self).snaps().len() > 0,
            r matches Ok(s) ==> {
                &&& s@.message == message@
                &&& !holds_id(old(self).snaps(), s@.id)
                &&& s@.seq == old(self).snaps().len()
                &&& final(self).snaps() == old(self).snaps().push(s@)
            },
    ;

    /// Copies of all snaps held, newest first; among snaps of equal time, the
    /// one inserted later comes first.
    fn get(&self) -> (r: Vec<Snap>)
        ensures
            valid_history(self.snaps()),
            is_listing(self.snaps(), views(r@)),
    ;

    /// Number of snaps held.
    fn snap_count(&self) -> (r: usize)
        ensures
            r == self.snaps().len(),
    ;
}

/// A repository in memory, owned by one holder; callers that share it across
/// threads hold it behind one lock, so that each creation (check then insert)
/// and each listing is atomic with respect to all others.
pub struct MockSnapRepository {
    store: SnapStore,
}

impl View for MockSnapRepository {
    type V = Seq<SnapView>;

    closed spec fn view(&self) -> Seq<SnapView> {
        self.store@
    }
}

impl MockSnapRepository {
    #[verifier::type_invariant]
    spec fn well_formed(&self) -> bool {
        self.store.wf()
    }

    /// A new, empty repository.
    pub fn new() -> (r: MockSnapRepository)
        ensures
            r@ == Seq::<SnapView>::empty(),
    {
        MockSnapRepository { store: SnapStore::new() }
    }
}

impl SnapAppState for MockSnapRepository {
    open spec fn snaps(&self) -> Seq<SnapView> {
        self@
    }

    fn post(&mut self, message: &str) -> (r: Result<Snap, SnapCreationError>) {
        let mut held = MockSnapRepository::new();
        std::mem::swap(self, &mut held);
        proof {
            use_type_invariant(&held);
        }
        let MockSnapRepository { mut store } = held;
        let id = random_uuid_bits();
        let now = now_micros();
        let r = store.insert_new(message.to_owned(), id, now);
        *self = MockSnapRepository { store };
        r
    }

    fn get(&self) -> (r: Vec<Snap>) {
        proof {
            use_type_invariant(self);
        }
        self.store.listing()
    }

    fn snap_count(&self) -> (r: usize) {
        self.store.len()
    }
}

} // verus!
