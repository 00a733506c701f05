//! Fetching the payload of a certified header through the batch fetcher.

use crate::batch::{digest_views, Batch, BatchDigest};
use crate::directory::AuthorityIdentifier;
use crate::machine::{Effect, Machine, Reply};
use crate::messages::{FetchBatchesRequest, FetchBatchesResponse};
use crate::status::{Status, StatusView};
use vstd::prelude::*;
use vstd::string::*;

verus! {

/// The message of the status with which `fetch_batches` refuses to work
/// without a batch fetcher.
pub open spec fn fetch_unsupported() -> Seq<char> {
    "fetch_batches() is unsupported via RPC interface, please call via local worker handler instead"@
}

/// Batches with their digests as specification values, in the same order.
pub open spec fn fetched_views(batches: Seq<(BatchDigest, Batch)>) -> Seq<(Seq<u8>, Seq<Seq<u8>>)> {
    Seq::new(batches.len(), |i: int| (batches[i].0@, batches[i].1@))
}

impl View for FetchBatchesResponse {
    type V = Seq<(Seq<u8>, Seq<Seq<u8>>)>;

    open spec fn view(&self) -> Seq<(Seq<u8>, Seq<Seq<u8>>)> {
        fetched_views(self.batches@)
    }
}

/// A fetch in progress, as a specification value.
pub enum FetchState {
    /// Waiting for the batch fetcher.
    Fetching { digests: Seq<Seq<u8>>, known_workers: Seq<AuthorityIdentifier> },
    /// Finished with the given result.
    Finished(Result<Seq<(Seq<u8>, Seq<Seq<u8>>)>, StatusView>),
}

impl FetchState {
    /// The state in which a fetch starts. `fetcher` says whether the handler
    /// has a batch fetcher.
    pub open spec fn start(
        fetcher: bool,
        digests: Seq<Seq<u8>>,
        known_workers: Seq<AuthorityIdentifier>,
    ) -> FetchState {
        if fetcher {
            FetchState::Fetching { digests, known_workers }
        } else {
            FetchState::Finished(Err(StatusView::bad_request(fetch_unsupported())))
        }
    }
}

impl Machine for FetchState {
    open spec fn effect(self) -> Option<Effect> {
        match self {
            FetchState::Fetching { digests, known_workers } => Some(
                Effect::Fetch { digests, known_workers },
            ),
            FetchState::Finished(_) => None,
        }
    }

    open spec fn next(self, reply: Reply) -> FetchState {
        match (self, reply) {
            (FetchState::Fetching { .. }, Reply::Fetched(batches)) => FetchState::Finished(
                Ok(batches),
            ),
            _ => self,
        }
    }
}

/// Waiting for the batch fetcher.
pub struct Fetching {
    request: FetchBatchesRequest,
}

/// A fetch in progress: the call of the batch fetcher that it waits for, or
/// its result.
pub enum FetchBatches {
    /// Have the batch fetcher get `Fetching::digests` from
    /// `Fetching::known_workers`, and resume with what it obtained.
    Fetch(Fetching),
    /// The operation has finished.
    Finished(Result<FetchBatchesResponse, Status>),
}

/// The result of a fetch as a specification value.
pub open spec fn fetch_result_view(result: Result<FetchBatchesResponse, Status>) -> Result<
    Seq<(Seq<u8>, Seq<Seq<u8>>)>,
    StatusView,
> {
    match result {
        Ok(response) => Ok(response@),
        Err(status) => Err(status@),
    }
}

impl View for Fetching {
    type V = FetchState;

    closed spec fn view(&self) -> FetchState {
        FetchState::Fetching {
            digests: digest_views(self.request.digests@),
            known_workers: self.request.known_workers@,
        }
    }
}

impl View for FetchBatches {
    type V = FetchState;

    open spec fn view(&self) -> FetchState {
        match *self {
            FetchBatches::Fetch(fetching) => fetching@,
            FetchBatches::Finished(result) => FetchState::Finished(fetch_result_view(result)),
        }
    }
}

impl Fetching {
    /// The digests of the batches to fetch.
    pub fn digests(&self) -> (digests: &Vec<BatchDigest>)
        ensures
            self@.effect() matches Some(Effect::Fetch { digests: asked, .. }) && asked
                == digest_views(digests@),
    {
        &self.request.digests
    }

    /// The authorities whose workers are known to hold the batches.
    pub fn known_workers(&self) -> (known_workers: &Vec<AuthorityIdentifier>)
        ensures
            self@.effect() matches Some(Effect::Fetch { known_workers: asked, .. }) && asked
                == known_workers@,
    {
        &self.request.known_workers
    }

    /// Finishes with what the batch fetcher obtained, as it is.
    pub fn resume(self, batches: Vec<(BatchDigest, Batch)>) -> (state: FetchBatches)
        ensures
            state@ == self@.next(Reply::Fetched(fetched_views(batches@))),
            state@ is Finished,
    {
        FetchBatches::Finished(Ok(FetchBatchesResponse { batches }))
    }
}

impl FetchBatches {
    /// Starts a fetch. `fetcher` says whether the handler has a batch
    /// fetcher.
    pub fn start(fetcher: bool, request: FetchBatchesRequest) -> (state: FetchBatches)
        ensures
            state@ == FetchState::start(
                fetcher,
                digest_views(request.digests@),
                request.known_workers@,
            ),
    {
        if fetcher {
            FetchBatches::Fetch(Fetching { request })
        } else {
            FetchBatches::Finished(
                Err(
                    Status::bad_request(
                        String::from_str(
                            "fetch_batches() is unsupported via RPC interface, please call via local worker handler instead",
                        ),
                    ),
                ),
            )
        }
    }
}

} // verus!
