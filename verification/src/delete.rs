//! Forgetting batches on the primary's request.

use crate::batch::{digest_views, BatchDigest};
use crate::machine::{done_view, result_view, Effect, Machine, Reply};
use crate::status::{describe, Status, StatusView};
use vstd::prelude::*;

verus! {

/// The removal of a list of batches, as a specification value.
pub enum DeleteState {
    /// Waiting for `digests[next]` to be removed from the store; the digests
    /// before it have been removed.
    Removing { digests: Seq<Seq<u8>>, next: nat },
    /// Finished with the given result.
    Finished(Result<(), StatusView>),
}

impl DeleteState {
    /// The state in which the digests before `next` have been removed.
    pub open spec fn advance(digests: Seq<Seq<u8>>, next: nat) -> DeleteState {
        if next < digests.len() {
            DeleteState::Removing { digests, next }
        } else {
            DeleteState::Finished(Ok(()))
        }
    }

    /// The state in which the removal of `digests` starts.
    pub open spec fn start(digests: Seq<Seq<u8>>) -> DeleteState {
        DeleteState::advance(digests, 0)
    }

    /// Whether the index points at a digest.
    pub open spec fn wf(self) -> bool {
        match self {
            DeleteState::Removing { digests, next } => next < digests.len(),
            DeleteState::Finished(_) => true,
        }
    }
}

impl Machine for DeleteState {
    open spec fn effect(self) -> Option<Effect> {
        match self {
            DeleteState::Removing { digests, next } => Some(
                Effect::Remove { digest: digests[next as int] },
            ),
            DeleteState::Finished(_) => None,
        }
    }

    open spec fn next(self, reply: Reply) -> DeleteState {
        match (self, reply) {
            (DeleteState::Removing { digests, next }, Reply::Done(removed)) => match removed {
                Ok(_) => DeleteState::advance(digests, next + 1),
                Err(error) => DeleteState::Finished(
                    Err(StatusView::internal("failed to remove from batch store: "@ + error)),
                ),
            },
            _ => self,
        }
    }
}

/// Waiting for one digest to be removed from the store.
pub struct Removal {
    digests: Vec<BatchDigest>,
    next: usize,
}

/// The removal of a list of batches: the removal it waits for, or its
/// result.
pub enum DeleteBatches {
    /// Remove `Removal::digest` from the store and resume with the outcome.
    Remove(Removal),
    /// The operation has finished.
    Finished(Result<(), Status>),
}

impl View for Removal {
    type V = DeleteState;

    closed spec fn view(&self) -> DeleteState {
        DeleteState::Removing { digests: digest_views(self.digests@), next: self.next as nat }
    }
}

impl View for DeleteBatches {
    type V = DeleteState;

    open spec fn view(&self) -> DeleteState {
        match *self {
            DeleteBatches::Remove(removal) => removal@,
            DeleteBatches::Finished(result) => DeleteState::Finished(result_view(result)),
        }
    }
}

/// The state in which the digests before `next` have been removed.
fn advance(digests: Vec<BatchDigest>, next: usize) -> (state: DeleteBatches)
    ensures
        state@ == DeleteState::advance(digest_views(digests@), next as nat),
        state@.wf(),
{
    if next < digests.len() {
        DeleteBatches::Remove(Removal { digests, next })
    } else {
        DeleteBatches::Finished(Ok(()))
    }
}

impl Removal {
    #[verifier::type_invariant]
    spec fn inv(self) -> bool {
        self.next < self.digests.len()
    }

    /// The digest to remove from the store.
    pub fn digest(&self) -> (digest: &BatchDigest)
        ensures
            self@.effect() == Some(Effect::Remove { digest: digest@ }),
    {
        proof {
            use_type_invariant(self);
        }
        &self.digests[self.next]
    }

    /// Moves on with the outcome of the removal.
    pub fn resume(self, removed: Result<(), String>) -> (state: DeleteBatches)
        ensures
            state@ == self@.next(Reply::Done(done_view(removed))),
            state@.wf(),
    {
        proof {
            use_type_invariant(&self);
        }
        match removed {
            Ok(_) => advance(self.digests, self.next + 1),
            Err(error) => DeleteBatches::Finished(
                Err(Status::internal(describe("failed to remove from batch store: ", error.as_str()))),
            ),
        }
    }
}

impl DeleteBatches {
    /// Starts removing the batches with the given digests.
    pub fn start(digests: Vec<BatchDigest>) -> (state: DeleteBatches)
        ensures
            state@ == DeleteState::start(digest_views(digests@)),
            state@.wf(),
    {
        advance(digests, 0)
    }
}

} // verus!
