//! The handler for what the primary asks of its worker.

use crate::batch::digest_views;
use crate::delete::{DeleteBatches, DeleteState};
use crate::fetch::{FetchBatches, FetchState};
use crate::directory::{AuthorityIdentifier, Committee, PeerId, WorkerCache, WorkerId};
use crate::messages::{FetchBatchesRequest, WorkerDeleteBatchesMessage, WorkerSynchronizeMessage};
use crate::status::{Status, StatusView};
use crate::synchronize::{route_view, SyncState, Synchronize};
use std::time::Duration;
use vstd::prelude::*;
use vstd::string::*;

verus! {

/// Serves the primary's requests to its worker. `N` is the handle of the
/// network and `F` that of the batch fetcher; a handler made without one of
/// them refuses the operation that needs it.
pub struct PrimaryReceiverHandler<N, F> {
    /// The id of this authority.
    pub authority_id: AuthorityIdentifier,
    /// The id of this worker.
    pub id: WorkerId,
    /// The committee information.
    pub committee: Committee,
    /// The worker information cache.
    pub worker_cache: WorkerCache,
    /// How long to wait for a peer's answer to a request for batches.
    pub request_batch_timeout: Duration,
    /// Number of random nodes to query when retrying batch requests.
    pub request_batch_retry_nodes: usize,
    /// The network over which to reach other workers.
    pub network: Option<N>,
    /// Fetches certificate payloads from other workers.
    pub batch_fetcher: Option<F>,
}

impl<N, F> PrimaryReceiverHandler<N, F> {
    /// The peer that serves as this worker's counterpart at the authority
    /// `target`, as a specification value: the name that the worker cache
    /// has for the worker with this worker's index under the authority's
    /// protocol key.
    pub open spec fn spec_route(self, target: AuthorityIdentifier) -> Result<Seq<u8>, StatusView> {
        match self.committee.spec_protocol_key(target) {
            None => Err(
                StatusView::internal("The primary asked worker to sync with an unknown authority"@),
            ),
            Some(protocol_key) => match self.worker_cache.spec_worker_name(protocol_key, self.id) {
                None => Err(
                    StatusView::internal("The primary asked worker to sync with an unknown node"@),
                ),
                Some(name) => Ok(name),
            },
        }
    }

    /// The peer that serves as this worker's counterpart at the authority
    /// `target`, or the status that says why there is none.
    pub fn route(&self, target: &AuthorityIdentifier) -> (route: Result<PeerId, Status>)
        ensures
            route_view(route) == self.spec_route(*target),
    {
        match self.committee.authority(target) {
            None => Err(
                Status::internal(
                    String::from_str("The primary asked worker to sync with an unknown authority"),
                ),
            ),
            Some(authority) => match self.worker_cache.worker(&authority.protocol_key, &self.id) {
                None => Err(
                    Status::internal(
                        String::from_str("The primary asked worker to sync with an unknown node"),
                    ),
                ),
                Some(info) => Ok(info.name.peer_id()),
            },
        }
    }

    /// Starts getting the batches that `message` lists and the store lacks
    /// from this worker's counterpart at the target authority.
    pub fn synchronize(&self, message: WorkerSynchronizeMessage) -> (state: Synchronize)
        ensures
            state@ == SyncState::start(
                self.network is Some,
                self.spec_route(message.target),
                self.request_batch_timeout,
                digest_views(message.digests@),
                message.is_certified,
            ),
            state@.wf(),
    {
        let route = self.route(&message.target);
        Synchronize::start(
            self.network.is_some(),
            route,
            self.request_batch_timeout,
            message.digests,
            message.is_certified,
        )
    }

    /// Starts fetching the batches that `request` lists through the batch
    /// fetcher, from the workers of the authorities that it names.
    pub fn fetch_batches(&self, request: FetchBatchesRequest) -> (state: FetchBatches)
        ensures
            state@ == FetchState::start(
                self.batch_fetcher is Some,
                digest_views(request.digests@),
                request.known_workers@,
            ),
    {
        FetchBatches::start(self.batch_fetcher.is_some(), request)
    }

    /// Starts removing the batches that `message` lists from the store.
    pub fn delete_batches(&self, message: WorkerDeleteBatchesMessage) -> (state: DeleteBatches)
        ensures
            state@ == DeleteState::start(digest_views(message.digests@)),
            state@.wf(),
    {
        DeleteBatches::start(message.digests)
    }
}

} // verus!
