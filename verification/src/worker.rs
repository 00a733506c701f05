//! The handler for what peer workers ask of this worker.

use crate::batch::digest_views;
use crate::directory::WorkerId;
use crate::messages::{RequestBatchRequest, RequestBatchesRequest, WorkerBatchMessage};
use crate::report::{ReportBatch, ReportState};
use crate::serve::{BatchState, BatchesState, RequestBatch, RequestBatches};
use vstd::prelude::*;

verus! {

/// Serves the requests of peer workers.
#[derive(Clone, Copy, Debug)]
pub struct WorkerReceiverHandler {
    /// The id of this worker.
    pub id: WorkerId,
}

impl WorkerReceiverHandler {
    pub fn new(id: WorkerId) -> (handler: WorkerReceiverHandler)
        ensures
            handler.id == id,
    {
        WorkerReceiverHandler { id }
    }

    /// Starts taking in the batch that a peer reports: it is validated, then
    /// stored under its digest, then the primary is told of it.
    pub fn report_batch(&self, message: WorkerBatchMessage) -> (state: ReportBatch)
        ensures
            state@ == (ReportState::Validating { batch: message.batch@, worker_id: self.id }),
    {
        ReportBatch::start(message.batch, self.id)
    }

    /// Starts serving a peer's request for one batch.
    pub fn request_batch(&self, request: RequestBatchRequest) -> (state: RequestBatch)
        ensures
            state@ == (BatchState::Reading { digest: request.batch@ }),
    {
        RequestBatch::start(request.batch)
    }

    /// Starts serving a peer's request for several batches. The digests are
    /// read from the store in chunks, and the batches found are added to the
    /// response in order until one does not fit.
    pub fn request_batches(&self, request: RequestBatchesRequest) -> (state: RequestBatches)
        ensures
            state@ == BatchesState::start(digest_views(request.batch_digests@)),
            state@.wf(),
    {
        RequestBatches::start(request.batch_digests)
    }
}

} // verus!
