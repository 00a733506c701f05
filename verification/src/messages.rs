//! The messages that workers exchange with each other and with the primary.

use crate::batch::{batch_views, Batch, BatchDigest};
use crate::directory::{AuthorityIdentifier, WorkerId};
use crate::machine::PeerAnswer;
use crate::status::Status;
use vstd::prelude::*;

verus! {

/// A worker hands a batch of its own to a peer.
#[derive(Clone, Debug, PartialEq, Eq)]
pub struct WorkerBatchMessage {
    pub batch: Batch,
}

/// A worker asks a peer for one batch.
#[derive(Clone, Copy, Debug, PartialEq, Eq)]
pub struct RequestBatchRequest {
    pub batch: BatchDigest,
}

/// The answer to a request for one batch: the batch, if the peer has it.
#[derive(Clone, Debug, PartialEq, Eq)]
pub struct RequestBatchResponse {
    pub batch: Option<Batch>,
}

/// A worker asks a peer for several batches.
#[derive(Clone, Debug, PartialEq, Eq)]
pub struct RequestBatchesRequest {
    pub batch_digests: Vec<BatchDigest>,
}

/// The answer to a request for several batches: those that the peer has and
/// that fit into one response, and whether some had to be left out for size.
#[derive(Clone, Debug, PartialEq, Eq)]
pub struct RequestBatchesResponse {
    pub batches: Vec<Batch>,
    pub is_size_limit_reached: bool,
}

/// A worker tells its primary that a batch of another worker has arrived.
#[derive(Clone, Copy, Debug, PartialEq, Eq)]
pub struct WorkerOthersBatchMessage {
    pub digest: BatchDigest,
    pub worker_id: WorkerId,
}

/// The primary asks its worker to get the batches with the given digests from
/// its counterpart at the authority `target`.
#[derive(Clone, Debug, PartialEq, Eq)]
pub struct WorkerSynchronizeMessage {
    pub digests: Vec<BatchDigest>,
    pub target: AuthorityIdentifier,
    pub is_certified: bool,
}

/// The primary asks its worker for the payload of a certified header, which
/// the workers of the given authorities are known to hold.
#[derive(Clone, Debug, PartialEq, Eq)]
pub struct FetchBatchesRequest {
    pub digests: Vec<BatchDigest>,
    pub known_workers: Vec<AuthorityIdentifier>,
}

/// The batches that were fetched, each under its digest.
#[derive(Clone, Debug, PartialEq, Eq)]
pub struct FetchBatchesResponse {
    pub batches: Vec<(BatchDigest, Batch)>,
}

/// The primary asks its worker to forget the batches with the given digests.
#[derive(Clone, Debug, PartialEq, Eq)]
pub struct WorkerDeleteBatchesMessage {
    pub digests: Vec<BatchDigest>,
}

/// What came of asking a peer worker for batches.
#[derive(Clone, Debug, PartialEq, Eq)]
pub enum PeerReply {
    /// There is no connection to the peer.
    NotConnected,
    /// The request failed with the given status.
    Failed(Status),
    /// The peer answered.
    Answered(RequestBatchesResponse),
}

impl View for PeerReply {
    type V = PeerAnswer;

    open spec fn view(&self) -> PeerAnswer {
        match *self {
            PeerReply::NotConnected => PeerAnswer::NotConnected,
            PeerReply::Failed(status) => PeerAnswer::Failed(status@),
            PeerReply::Answered(response) => PeerAnswer::Batches {
                batches: batch_views(response.batches@),
                is_size_limit_reached: response.is_size_limit_reached,
            },
        }
    }
}

} // verus!
