use std::collections::HashMap;
use std::time::Duration;
use worker_handlers::batch::{Batch, BatchDigest};
use worker_handlers::directory::{
    Authority, AuthorityIdentifier, Committee, NetworkPublicKey, PeerId, PublicKey, WorkerCache,
    WorkerEntry, WorkerInfo,
};
use worker_handlers::messages::{
    FetchBatchesRequest, FetchBatchesResponse, PeerReply, RequestBatchesResponse,
    WorkerDeleteBatchesMessage, WorkerSynchronizeMessage,
};
use worker_handlers::delete::DeleteBatches;
use worker_handlers::fetch::FetchBatches;
use worker_handlers::primary::PrimaryReceiverHandler;
use worker_handlers::status::{Status, StatusCode};
use worker_handlers::synchronize::{position, take_missing, Synchronize};

const TARGET: AuthorityIdentifier = AuthorityIdentifier(1);

fn target_name() -> NetworkPublicKey {
    NetworkPublicKey([42; 32])
}

fn handler() -> PrimaryReceiverHandler<(), ()> {
    PrimaryReceiverHandler {
        authority_id: AuthorityIdentifier(0),
        id: 0,
        committee: Committee::new(vec![
            Authority { id: AuthorityIdentifier(0), protocol_key: PublicKey(vec![0, 0]) },
            Authority { id: TARGET, protocol_key: PublicKey(vec![1, 1]) },
            Authority { id: AuthorityIdentifier(2), protocol_key: PublicKey(vec![2, 2]) },
        ]),
        worker_cache: WorkerCache::new(vec![
            WorkerEntry {
                protocol_key: PublicKey(vec![1, 1]),
                id: 1,
                info: WorkerInfo { name: NetworkPublicKey([41; 32]) },
            },
            WorkerEntry {
                protocol_key: PublicKey(vec![1, 1]),
                id: 0,
                info: WorkerInfo { name: target_name() },
            },
        ]),
        request_batch_timeout: Duration::from_secs(2),
        request_batch_retry_nodes: 3,
        network: Some(()),
        batch_fetcher: Some(()),
    }
}

fn batch_of(tag: u8) -> Batch {
    Batch::new(vec![vec![tag, tag], vec![tag]])
}

struct Outside {
    store: HashMap<BatchDigest, Batch>,
    probed: Vec<BatchDigest>,
    requested: Vec<(PeerId, Vec<BatchDigest>, Duration)>,
    validated: Vec<Batch>,
    reply: PeerReply,
    rejected: Option<(Batch, String)>,
    read_error: Option<String>,
    write_error: Option<String>,
}

fn outside(reply: PeerReply) -> Outside {
    Outside {
        store: HashMap::new(),
        probed: Vec::new(),
        requested: Vec::new(),
        validated: Vec::new(),
        reply,
        rejected: None,
        read_error: None,
        write_error: None,
    }
}

fn answer(batches: Vec<Batch>) -> PeerReply {
    PeerReply::Answered(RequestBatchesResponse { batches, is_size_limit_reached: false })
}

fn synchronize(
    handler: &PrimaryReceiverHandler<(), ()>,
    message: WorkerSynchronizeMessage,
    outside: &mut Outside,
) -> Result<(), Status> {
    let mut state = handler.synchronize(message);
    loop {
        state = match state {
            Synchronize::Probe(probe) => {
                outside.probed.push(*probe.digest());
                let found = match &outside.read_error {
                    Some(error) => Err(error.clone()),
                    None => Ok(outside.store.get(probe.digest()).cloned()),
                };
                probe.resume(found)
            }
            Synchronize::Request(request) => {
                outside.requested.push((
                    request.peer(),
                    request.digests().clone(),
                    *request.timeout(),
                ));
                let reply = outside.reply.clone();
                request.resume(reply)
            }
            Synchronize::Validate(validation) => {
                outside.validated.push(validation.batch().clone());
                let verdict = match &outside.rejected {
                    Some((batch, error)) if batch == validation.batch() => Err(error.clone()),
                    _ => Ok(()),
                };
                validation.resume(verdict)
            }
            Synchronize::Store(write) => {
                assert_eq!(write.digest(), &write.batch().digest());
                let written = match &outside.write_error {
                    Some(error) => Err(error.clone()),
                    None => {
                        outside.store.insert(*write.digest(), write.batch().clone());
                        Ok(())
                    }
                };
                write.resume(written)
            }
            Synchronize::Finished(result) => return result,
        }
    }
}

fn message(digests: Vec<BatchDigest>, is_certified: bool) -> WorkerSynchronizeMessage {
    WorkerSynchronizeMessage { digests, target: TARGET, is_certified }
}

#[test]
fn sync_success() {
    let (b1, b2) = (batch_of(1), batch_of(2));
    let (d1, d2) = (b1.digest(), b2.digest());
    let mut outside = outside(answer(vec![b1.clone(), b2.clone()]));
    let result = synchronize(&handler(), message(vec![d1, d2], true), &mut outside);
    assert_eq!(result, Ok(()));
    assert_eq!(outside.store.get(&d1), Some(&b1));
    assert_eq!(outside.store.get(&d2), Some(&b2));
    assert_eq!(outside.store.len(), 2);
    assert!(outside.validated.is_empty());
    assert_eq!(outside.probed, vec![d1, d2]);
    assert_eq!(
        outside.requested,
        vec![(target_name().peer_id(), vec![d1, d2], Duration::from_secs(2))]
    );
}

#[test]
fn sync_partial_failure() {
    let (b1, b2) = (batch_of(1), batch_of(2));
    let (d1, d2) = (b1.digest(), b2.digest());
    let mut outside = outside(answer(vec![b1.clone()]));
    let status = synchronize(&handler(), message(vec![d1, d2], true), &mut outside).unwrap_err();
    assert_eq!(status.code(), StatusCode::Internal);
    assert_eq!(status.message(), "failed to synchronize batches!");
    assert_eq!(outside.store.get(&d1), Some(&b1));
    assert_eq!(outside.store.get(&d2), None);
    assert_eq!(outside.store.len(), 1);
}

#[test]
fn sync_without_network_is_refused() {
    let mut handler = handler();
    handler.network = None;
    let mut outside = outside(PeerReply::NotConnected);
    let status =
        synchronize(&handler, message(vec![batch_of(1).digest()], true), &mut outside).unwrap_err();
    assert_eq!(status.code(), StatusCode::BadRequest);
    assert_eq!(
        status.message(),
        "synchronize() is unsupported via RPC interface, please call via local worker handler instead"
    );
    assert!(outside.probed.is_empty());
    assert!(outside.requested.is_empty());
}

#[test]
fn sync_asks_only_for_what_the_store_lacks() {
    let batches: Vec<Batch> = (0..4).map(batch_of).collect();
    let digests: Vec<BatchDigest> = batches.iter().map(|batch| batch.digest()).collect();
    let mut outside = outside(answer(vec![batches[3].clone(), batches[1].clone()]));
    outside.store.insert(digests[0], batches[0].clone());
    outside.store.insert(digests[2], batches[2].clone());
    let result = synchronize(&handler(), message(digests.clone(), true), &mut outside);
    assert_eq!(result, Ok(()));
    assert_eq!(outside.probed, digests);
    assert_eq!(outside.requested.len(), 1);
    assert_eq!(outside.requested[0].1, vec![digests[1], digests[3]]);
    assert_eq!(outside.store.len(), 4);
}

#[test]
fn sync_with_nothing_missing_asks_nobody() {
    let batch = batch_of(1);
    let mut outside = outside(PeerReply::NotConnected);
    outside.store.insert(batch.digest(), batch.clone());
    let mut handler = handler();
    handler.committee = Committee::new(vec![]);
    assert_eq!(synchronize(&handler, message(vec![batch.digest()], false), &mut outside), Ok(()));
    assert_eq!(synchronize(&handler, message(vec![], false), &mut outside), Ok(()));
    assert!(outside.requested.is_empty());
    assert!(outside.validated.is_empty());
}

#[test]
fn sync_lists_a_digest_once_however_often_it_was_given() {
    let (b1, b2) = (batch_of(1), batch_of(2));
    let (d1, d2) = (b1.digest(), b2.digest());
    let mut outside = outside(answer(vec![b2.clone(), b1.clone()]));
    let result = synchronize(&handler(), message(vec![d1, d2, d1, d1, d2], true), &mut outside);
    assert_eq!(result, Ok(()));
    assert_eq!(outside.probed, vec![d1, d2, d1, d1, d2]);
    assert_eq!(outside.requested[0].1, vec![d1, d2]);
}

#[test]
fn sync_with_an_unknown_authority_fails_internally() {
    let mut outside = outside(PeerReply::NotConnected);
    let mut message = message(vec![batch_of(1).digest()], true);
    message.target = AuthorityIdentifier(9);
    let status = synchronize(&handler(), message, &mut outside).unwrap_err();
    assert_eq!(status.code(), StatusCode::Internal);
    assert_eq!(status.message(), "The primary asked worker to sync with an unknown authority");
    assert_eq!(outside.probed.len(), 1);
    assert!(outside.requested.is_empty());
}

#[test]
fn sync_with_an_unknown_worker_fails_internally() {
    let mut outside = outside(PeerReply::NotConnected);
    let mut message = message(vec![batch_of(1).digest()], true);
    message.target = AuthorityIdentifier(2);
    let status = synchronize(&handler(), message, &mut outside).unwrap_err();
    assert_eq!(status.code(), StatusCode::Internal);
    assert_eq!(status.message(), "The primary asked worker to sync with an unknown node");
    assert!(outside.requested.is_empty());
}

#[test]
fn sync_targets_the_worker_with_its_own_index() {
    let mut handler = handler();
    handler.id = 1;
    let batch = batch_of(1);
    let mut outside = outside(answer(vec![batch.clone()]));
    assert_eq!(synchronize(&handler, message(vec![batch.digest()], true), &mut outside), Ok(()));
    assert_eq!(outside.requested[0].0, PeerId([41; 32]));
    assert_eq!(handler.route(&TARGET), Ok(PeerId([41; 32])));
}

#[test]
fn sync_fails_internally_where_the_peer_is_not_connected() {
    let mut outside = outside(PeerReply::NotConnected);
    let status =
        synchronize(&handler(), message(vec![batch_of(1).digest()], true), &mut outside).unwrap_err();
    assert_eq!(status.code(), StatusCode::Internal);
    assert_eq!(status.message(), "Not connected with worker peer");
    assert!(outside.store.is_empty());
}

#[test]
fn sync_hands_on_the_failure_of_the_request_unchanged() {
    let timeout = Status::new_with_message(StatusCode::RequestTimeout, "deadline passed".to_string());
    let mut outside = outside(PeerReply::Failed(timeout.clone()));
    let result = synchronize(&handler(), message(vec![batch_of(1).digest()], true), &mut outside);
    assert_eq!(result, Err(timeout));
    let unknown = Status::new_with_message(StatusCode::Unknown, "?".to_string());
    outside.reply = PeerReply::Failed(unknown.clone());
    let result = synchronize(&handler(), message(vec![batch_of(1).digest()], false), &mut outside);
    assert_eq!(result, Err(unknown));
}

#[test]
fn sync_validates_what_is_not_certified() {
    let (b1, b2) = (batch_of(1), batch_of(2));
    let mut outside = outside(answer(vec![b1.clone(), b2.clone()]));
    let result =
        synchronize(&handler(), message(vec![b1.digest(), b2.digest()], false), &mut outside);
    assert_eq!(result, Ok(()));
    assert_eq!(outside.validated, vec![b1.clone(), b2.clone()]);
    assert_eq!(outside.store.len(), 2);
}

#[test]
fn sync_fails_where_the_validator_rejects() {
    let (b1, b2, b3) = (batch_of(1), batch_of(2), batch_of(3));
    let mut outside = outside(answer(vec![b1.clone(), b2.clone(), b3.clone()]));
    outside.rejected = Some((b2.clone(), "bad tx".to_string()));
    let digests = vec![b1.digest(), b2.digest(), b3.digest()];
    let status = synchronize(&handler(), message(digests.clone(), false), &mut outside).unwrap_err();
    assert_eq!(status.code(), StatusCode::BadRequest);
    assert_eq!(status.message(), "Invalid batch: bad tx");
    assert_eq!(outside.store.len(), 1);
    assert_eq!(outside.store.get(&b1.digest()), Some(&b1));
    assert_eq!(outside.validated, vec![b1.clone(), b2.clone()]);

    let mut trusting = self::outside(answer(vec![b1, b2.clone(), b3]));
    trusting.rejected = Some((b2, "bad tx".to_string()));
    assert_eq!(synchronize(&handler(), message(digests, true), &mut trusting), Ok(()));
    assert_eq!(trusting.store.len(), 3);
}

#[test]
fn sync_validates_even_what_it_did_not_ask_for() {
    let (wanted, other) = (batch_of(1), batch_of(2));
    let mut outside = outside(answer(vec![other.clone(), wanted.clone()]));
    outside.rejected = Some((other.clone(), "bad tx".to_string()));
    let status =
        synchronize(&handler(), message(vec![wanted.digest()], false), &mut outside).unwrap_err();
    assert_eq!(status.code(), StatusCode::BadRequest);
    assert!(outside.store.is_empty());
}

#[test]
fn sync_ignores_batches_it_did_not_ask_for() {
    let (wanted, other) = (batch_of(1), batch_of(2));
    let mut outside =
        outside(answer(vec![other.clone(), wanted.clone(), other.clone(), wanted.clone()]));
    let result = synchronize(&handler(), message(vec![wanted.digest()], true), &mut outside);
    assert_eq!(result, Ok(()));
    assert_eq!(outside.store.len(), 1);
    assert_eq!(outside.store.get(&wanted.digest()), Some(&wanted));
    assert_eq!(outside.store.get(&other.digest()), None);
}

#[test]
fn sync_fails_where_the_peer_answers_with_nothing() {
    let mut outside = outside(answer(vec![]));
    let status =
        synchronize(&handler(), message(vec![batch_of(1).digest()], false), &mut outside).unwrap_err();
    assert_eq!(status.code(), StatusCode::Internal);
    assert_eq!(status.message(), "failed to synchronize batches!");
}

#[test]
fn sync_fails_internally_where_the_store_cannot_be_read() {
    let mut outside = outside(answer(vec![]));
    outside.read_error = Some("io".to_string());
    let digests = vec![batch_of(1).digest(), batch_of(2).digest()];
    let status = synchronize(&handler(), message(digests, true), &mut outside).unwrap_err();
    assert_eq!(status.code(), StatusCode::Internal);
    assert_eq!(status.message(), "failed to read from batch store: io");
    assert_eq!(outside.probed.len(), 1);
}

#[test]
fn sync_fails_internally_where_the_store_cannot_be_written() {
    let batch = batch_of(1);
    let mut outside = outside(answer(vec![batch.clone()]));
    outside.write_error = Some("disk full".to_string());
    let status =
        synchronize(&handler(), message(vec![batch.digest()], true), &mut outside).unwrap_err();
    assert_eq!(status.code(), StatusCode::Internal);
    assert_eq!(status.message(), "failed to write to batch store: disk full");
}

#[test]
fn position_finds_the_first_occurrence() {
    let digest = |byte: u8| BatchDigest::new([byte; 32]);
    let digests = vec![digest(1), digest(2), digest(3), digest(2)];
    assert_eq!(position(&digests, &digest(1)), Some(0));
    assert_eq!(position(&digests, &digest(2)), Some(1));
    assert_eq!(position(&digests, &digest(3)), Some(2));
    assert_eq!(position(&digests, &digest(4)), None);
    assert_eq!(position(&vec![], &digest(1)), None);
}

#[test]
fn take_missing_removes_the_digest_and_says_whether_it_was_there() {
    let digest = |byte: u8| BatchDigest::new([byte; 32]);
    let mut missing = vec![digest(1), digest(2), digest(3)];
    assert!(take_missing(&mut missing, &digest(2)));
    assert_eq!(missing, vec![digest(1), digest(3)]);
    assert!(!take_missing(&mut missing, &digest(2)));
    assert_eq!(missing, vec![digest(1), digest(3)]);
    assert!(take_missing(&mut missing, &digest(1)));
    assert!(take_missing(&mut missing, &digest(3)));
    assert!(missing.is_empty());
    assert!(!take_missing(&mut missing, &digest(3)));
}

#[test]
fn fetch_without_fetcher() {
    let mut handler = handler();
    handler.batch_fetcher = None;
    let request = FetchBatchesRequest {
        digests: vec![batch_of(1).digest()],
        known_workers: vec![TARGET],
    };
    match handler.fetch_batches(request) {
        FetchBatches::Finished(Err(status)) => {
            assert_eq!(status.code(), StatusCode::BadRequest);
            assert_eq!(
                status.message(),
                "fetch_batches() is unsupported via RPC interface, please call via local worker handler instead"
            );
            assert!(status.message().contains("unsupported via RPC interface"));
        }
        _ => panic!("a handler without a fetcher refuses to fetch"),
    }
}

#[test]
fn fetch_hands_the_request_to_the_fetcher_and_its_result_back() {
    let (b1, b2) = (batch_of(1), batch_of(2));
    let request = FetchBatchesRequest {
        digests: vec![b1.digest(), b2.digest()],
        known_workers: vec![TARGET, AuthorityIdentifier(2)],
    };
    let fetching = match handler().fetch_batches(request.clone()) {
        FetchBatches::Fetch(fetching) => fetching,
        FetchBatches::Finished(_) => panic!("a handler with a fetcher fetches"),
    };
    assert_eq!(fetching.digests(), &request.digests);
    assert_eq!(fetching.known_workers(), &request.known_workers);
    let fetched = vec![(b2.digest(), b2.clone())];
    match fetching.resume(fetched.clone()) {
        FetchBatches::Finished(result) => {
            assert_eq!(result, Ok(FetchBatchesResponse { batches: fetched }))
        }
        FetchBatches::Fetch(_) => panic!("the fetcher is called once"),
    }
}

fn delete(
    digests: Vec<BatchDigest>,
    store: &mut HashMap<BatchDigest, Batch>,
    fail_at: Option<usize>,
) -> Result<(), Status> {
    let mut removals = 0;
    let mut state = handler().delete_batches(WorkerDeleteBatchesMessage { digests });
    loop {
        state = match state {
            DeleteBatches::Remove(removal) => {
                let removed = if fail_at == Some(removals) {
                    Err("io".to_string())
                } else {
                    store.remove(removal.digest());
                    Ok(())
                };
                removals += 1;
                removal.resume(removed)
            }
            DeleteBatches::Finished(result) => return result,
        }
    }
}

#[test]
fn delete_removes_every_digest_listed() {
    let batches: Vec<Batch> = (0..5).map(batch_of).collect();
    let mut store: HashMap<BatchDigest, Batch> =
        batches.iter().map(|batch| (batch.digest(), batch.clone())).collect();
    let digests = vec![batches[1].digest(), batches[3].digest(), batches[1].digest()];
    assert_eq!(delete(digests.clone(), &mut store, None), Ok(()));
    for digest in &digests {
        assert_eq!(store.get(digest), None);
    }
    assert_eq!(store.len(), 3);
}

#[test]
fn delete_of_what_is_absent_is_no_error() {
    let mut store = HashMap::new();
    assert_eq!(delete(vec![batch_of(1).digest()], &mut store, None), Ok(()));
    assert_eq!(delete(vec![], &mut store, None), Ok(()));
}

#[test]
fn delete_stops_at_the_first_failure_and_keeps_what_was_done() {
    let batches: Vec<Batch> = (0..3).map(batch_of).collect();
    let mut store: HashMap<BatchDigest, Batch> =
        batches.iter().map(|batch| (batch.digest(), batch.clone())).collect();
    let digests: Vec<BatchDigest> = batches.iter().map(|batch| batch.digest()).collect();
    let status = delete(digests.clone(), &mut store, Some(1)).unwrap_err();
    assert_eq!(status.code(), StatusCode::Internal);
    assert_eq!(status.message(), "failed to remove from batch store: io");
    assert_eq!(store.get(&digests[0]), None);
    assert_eq!(store.get(&digests[1]), Some(&batches[1]));
    assert_eq!(store.get(&digests[2]), Some(&batches[2]));
}
