//! Taking in a batch that a peer worker reports: validate it, store it
//! under its digest, and tell the primary.

use crate::batch::{blake2b_256, Batch, BatchDigest};
use crate::directory::WorkerId;
use crate::machine::{done_view, result_view, Effect, Machine, Reply};
use crate::messages::WorkerOthersBatchMessage;
use crate::status::{describe, Status, StatusView};
use vstd::prelude::*;

verus! {

/// The taking in of a reported batch, as a specification value.
pub enum ReportState {
    /// Waiting for the validator's verdict on `batch`.
    Validating { batch: Seq<Seq<u8>>, worker_id: WorkerId },
    /// Waiting for `batch` to be written to the store under its digest.
    Storing { batch: Seq<Seq<u8>>, worker_id: WorkerId },
    /// Waiting for the primary to be told of the batch with `digest`.
    Notifying { digest: Seq<u8>, worker_id: WorkerId },
    /// Finished with the given result.
    Finished(Result<(), StatusView>),
}

impl Machine for ReportState {
    open spec fn effect(self) -> Option<Effect> {
        match self {
            ReportState::Validating { batch, .. } => Some(Effect::Validate { batch }),
            ReportState::Storing { batch, .. } => Some(
                Effect::Write { digest: blake2b_256(batch), batch },
            ),
            ReportState::Notifying { digest, worker_id } => Some(
                Effect::Notify { digest, worker_id },
            ),
            ReportState::Finished(_) => None,
        }
    }

    open spec fn next(self, reply: Reply) -> ReportState {
        match (self, reply) {
            (ReportState::Validating { batch, worker_id }, Reply::Done(verdict)) => match verdict {
                Ok(_) => ReportState::Storing { batch, worker_id },
                Err(error) => ReportState::Finished(
                    Err(StatusView::bad_request("Invalid batch: "@ + error)),
                ),
            },
            (ReportState::Storing { batch, worker_id }, Reply::Done(written)) => match written {
                Ok(_) => ReportState::Notifying { digest: blake2b_256(batch), worker_id },
                Err(error) => ReportState::Finished(
                    Err(StatusView::internal("failed to write to batch store: "@ + error)),
                ),
            },
            (ReportState::Notifying { .. }, Reply::Done(told)) => match told {
                Ok(_) => ReportState::Finished(Ok(())),
                Err(error) => ReportState::Finished(Err(StatusView::internal(error))),
            },
            _ => self,
        }
    }
}

/// Waiting for the validator's verdict on a reported batch.
pub struct ReportValidation {
    batch: Batch,
    worker_id: WorkerId,
}

/// Waiting for a reported batch to be written to the store.
pub struct ReportWrite {
    digest: BatchDigest,
    batch: Batch,
    worker_id: WorkerId,
}

/// Waiting for the primary to be told of a reported batch.
pub struct ReportNotice {
    message: WorkerOthersBatchMessage,
}

/// The taking in of a reported batch: the outside action it waits for, or
/// its result.
pub enum ReportBatch {
    /// Ask the validator about `ReportValidation::batch` and resume with the
    /// verdict.
    Validate(ReportValidation),
    /// Write `ReportWrite::batch` under `ReportWrite::digest` and resume with
    /// the outcome.
    Store(ReportWrite),
    /// Send `ReportNotice::message` to the primary and resume with the
    /// outcome.
    Notify(ReportNotice),
    /// The operation has finished.
    Finished(Result<(), Status>),
}

impl View for ReportValidation {
    type V = ReportState;

    closed spec fn view(&self) -> ReportState {
        ReportState::Validating { batch: self.batch@, worker_id: self.worker_id }
    }
}

impl View for ReportWrite {
    type V = ReportState;

    closed spec fn view(&self) -> ReportState {
        ReportState::Storing { batch: self.batch@, worker_id: self.worker_id }
    }
}

impl View for ReportNotice {
    type V = ReportState;

    closed spec fn view(&self) -> ReportState {
        ReportState::Notifying { digest: self.message.digest@, worker_id: self.message.worker_id }
    }
}

impl View for ReportBatch {
    type V = ReportState;

    open spec fn view(&self) -> ReportState {
        match *self {
            ReportBatch::Validate(validation) => validation@,
            ReportBatch::Store(write) => write@,
            ReportBatch::Notify(notice) => notice@,
            ReportBatch::Finished(result) => ReportState::Finished(result_view(result)),
        }
    }
}

impl ReportValidation {
    /// The batch to validate.
    pub fn batch(&self) -> (batch: &Batch)
        ensures
            self@.effect() == Some(Effect::Validate { batch: batch@ }),
    {
        &self.batch
    }

    /// Moves on with the validator's verdict.
    pub fn resume(self, verdict: Result<(), String>) -> (state: ReportBatch)
        ensures
            state@ == self@.next(Reply::Done(done_view(verdict))),
    {
        match verdict {
            Ok(_) => {
                let digest = self.batch.digest();
                ReportBatch::Store(
                    ReportWrite { digest, batch: self.batch, worker_id: self.worker_id },
                )
            },
            Err(error) => ReportBatch::Finished(
                Err(Status::bad_request(describe("Invalid batch: ", error.as_str()))),
            ),
        }
    }
}

impl ReportWrite {
    #[verifier::type_invariant]
    spec fn inv(self) -> bool {
        self.digest@ == blake2b_256(self.batch@)
    }

    /// The digest under which to write the batch.
    pub fn digest(&self) -> (digest: &BatchDigest)
        ensures
            self@.effect() matches Some(Effect::Write { digest: asked, .. }) && asked == digest@,
    {
        proof {
            use_type_invariant(self);
        }
        &self.digest
    }

    /// The batch to write.
    pub fn batch(&self) -> (batch: &Batch)
        ensures
            self@.effect() matches Some(Effect::Write { batch: asked, .. }) && asked == batch@,
    {
        &self.batch
    }

    /// Moves on with the outcome of the write.
    pub fn resume(self, written: Result<(), String>) -> (state: ReportBatch)
        ensures
            state@ == self@.next(Reply::Done(done_view(written))),
    {
        proof {
            use_type_invariant(&self);
        }
        match written {
            Ok(_) => ReportBatch::Notify(
                ReportNotice {
                    message: WorkerOthersBatchMessage {
                        digest: self.digest,
                        worker_id: self.worker_id,
                    },
                },
            ),
            Err(error) => ReportBatch::Finished(
                Err(Status::internal(describe("failed to write to batch store: ", error.as_str()))),
            ),
        }
    }
}

impl ReportNotice {
    /// The message to send to the primary.
    pub fn message(&self) -> (message: &WorkerOthersBatchMessage)
        ensures
            self@.effect() == Some(
                Effect::Notify { digest: message.digest@, worker_id: message.worker_id },
            ),
    {
        &self.message
    }

    /// Finishes with the outcome of the notification.
    pub fn resume(self, told: Result<(), String>) -> (state: ReportBatch)
        ensures
            state@ == self@.next(Reply::Done(done_view(told))),
            state@ is Finished,
    {
        match told {
            Ok(_) => ReportBatch::Finished(Ok(())),
            Err(error) => ReportBatch::Finished(Err(Status::internal(error))),
        }
    }
}

impl ReportBatch {
    /// Starts taking in `batch` at the worker `worker_id`.
    pub fn start(batch: Batch, worker_id: WorkerId) -> (state: ReportBatch)
        ensures
            state@ == (ReportState::Validating { batch: batch@, worker_id }),
    {
        ReportBatch::Validate(ReportValidation { batch, worker_id })
    }
}

} // verus!
