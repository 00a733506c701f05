use std::collections::HashMap;
use worker_handlers::batch::{Batch, BatchDigest};
use worker_handlers::messages::{
    RequestBatchRequest, RequestBatchResponse, WorkerBatchMessage, WorkerOthersBatchMessage,
};
use worker_handlers::report::ReportBatch;
use worker_handlers::serve::RequestBatch;
use worker_handlers::status::{Status, StatusCode};
use worker_handlers::worker::WorkerReceiverHandler;

struct Outside {
    store: HashMap<BatchDigest, Batch>,
    validated: Vec<Batch>,
    notified: Vec<WorkerOthersBatchMessage>,
    verdict: Result<(), String>,
    write: Result<(), String>,
    notify: Result<(), String>,
    read_error: Option<String>,
}

fn outside() -> Outside {
    Outside {
        store: HashMap::new(),
        validated: Vec::new(),
        notified: Vec::new(),
        verdict: Ok(()),
        write: Ok(()),
        notify: Ok(()),
        read_error: None,
    }
}

fn report(handler: &WorkerReceiverHandler, batch: Batch, outside: &mut Outside) -> Result<(), Status> {
    let mut state = handler.report_batch(WorkerBatchMessage { batch });
    loop {
        state = match state {
            ReportBatch::Validate(validation) => {
                outside.validated.push(validation.batch().clone());
                let verdict = outside.verdict.clone();
                validation.resume(verdict)
            }
            ReportBatch::Store(write) => {
                if outside.write.is_ok() {
                    outside.store.insert(*write.digest(), write.batch().clone());
                }
                let written = outside.write.clone();
                write.resume(written)
            }
            ReportBatch::Notify(notice) => {
                if outside.notify.is_ok() {
                    outside.notified.push(*notice.message());
                }
                let told = outside.notify.clone();
                notice.resume(told)
            }
            ReportBatch::Finished(result) => return result,
        }
    }
}

fn request(
    handler: &WorkerReceiverHandler,
    digest: BatchDigest,
    outside: &Outside,
) -> Result<RequestBatchResponse, Status> {
    match handler.request_batch(RequestBatchRequest { batch: digest }) {
        RequestBatch::Read(lookup) => {
            let found = match &outside.read_error {
                Some(error) => Err(error.clone()),
                None => Ok(outside.store.get(lookup.digest()).cloned()),
            };
            match lookup.resume(found) {
                RequestBatch::Finished(result) => result,
                RequestBatch::Read(_) => panic!("a single lookup reads once"),
            }
        }
        RequestBatch::Finished(result) => result,
    }
}

#[test]
fn happy_path_report() {
    let handler = WorkerReceiverHandler::new(0);
    let batch = Batch::new(vec![vec![0xAA, 0xBB]]);
    let digest = batch.digest();
    let mut outside = outside();
    assert_eq!(report(&handler, batch.clone(), &mut outside), Ok(()));
    assert_eq!(outside.store.get(&digest), Some(&batch));
    assert_eq!(outside.store.len(), 1);
    assert_eq!(outside.notified, vec![WorkerOthersBatchMessage { digest, worker_id: 0 }]);
    assert_eq!(outside.validated, vec![batch]);
}

#[test]
fn report_names_this_worker_to_the_primary() {
    let handler = WorkerReceiverHandler::new(7);
    let batch = Batch::new(vec![vec![1], vec![2, 3]]);
    let mut outside = outside();
    assert_eq!(report(&handler, batch.clone(), &mut outside), Ok(()));
    assert_eq!(
        outside.notified,
        vec![WorkerOthersBatchMessage { digest: batch.digest(), worker_id: 7 }]
    );
}

#[test]
fn validator_reject() {
    let handler = WorkerReceiverHandler::new(0);
    let batch = Batch::new(vec![vec![0xAA, 0xBB]]);
    let mut outside = outside();
    outside.verdict = Err("bad tx".to_string());
    let status = report(&handler, batch, &mut outside).unwrap_err();
    assert_eq!(status.code(), StatusCode::BadRequest);
    assert!(status.message().contains("bad tx"));
    assert_eq!(status.message(), "Invalid batch: bad tx");
    assert!(outside.store.is_empty());
    assert!(outside.notified.is_empty());
}

#[test]
fn report_fails_internally_where_the_store_fails() {
    let handler = WorkerReceiverHandler::new(0);
    let mut outside = outside();
    outside.write = Err("disk full".to_string());
    let status = report(&handler, Batch::new(vec![vec![1]]), &mut outside).unwrap_err();
    assert_eq!(status.code(), StatusCode::Internal);
    assert_eq!(status.message(), "failed to write to batch store: disk full");
    assert!(outside.notified.is_empty());
}

#[test]
fn report_fails_internally_where_the_primary_cannot_be_told() {
    let handler = WorkerReceiverHandler::new(0);
    let batch = Batch::new(vec![vec![1]]);
    let mut outside = outside();
    outside.notify = Err("primary is gone".to_string());
    let status = report(&handler, batch.clone(), &mut outside).unwrap_err();
    assert_eq!(status.code(), StatusCode::Internal);
    assert_eq!(status.message(), "primary is gone");
    assert_eq!(outside.store.get(&batch.digest()), Some(&batch));
}

#[test]
fn a_batch_reported_twice_is_notified_twice() {
    let handler = WorkerReceiverHandler::new(3);
    let batch = Batch::new(vec![vec![5, 6, 7]]);
    let digest = batch.digest();
    let mut outside = outside();
    assert_eq!(report(&handler, batch.clone(), &mut outside), Ok(()));
    assert_eq!(report(&handler, batch.clone(), &mut outside), Ok(()));
    assert_eq!(outside.store.len(), 1);
    assert_eq!(outside.store.get(&digest), Some(&batch));
    let notice = WorkerOthersBatchMessage { digest, worker_id: 3 };
    assert_eq!(outside.notified, vec![notice, notice]);
}

#[test]
fn report_asks_for_validation_then_write_then_notice() {
    let batch = Batch::new(vec![vec![9]]);
    let state = ReportBatch::start(batch.clone(), 4);
    let validation = match state {
        ReportBatch::Validate(validation) => validation,
        _ => panic!("a report starts with the validation"),
    };
    assert_eq!(validation.batch(), &batch);
    let write = match validation.resume(Ok(())) {
        ReportBatch::Store(write) => write,
        _ => panic!("an accepted batch is written"),
    };
    assert_eq!(write.batch(), &batch);
    assert_eq!(write.digest(), &batch.digest());
    let notice = match write.resume(Ok(())) {
        ReportBatch::Notify(notice) => notice,
        _ => panic!("a written batch is announced"),
    };
    assert_eq!(notice.message(), &WorkerOthersBatchMessage { digest: batch.digest(), worker_id: 4 });
    assert!(matches!(notice.resume(Ok(())), ReportBatch::Finished(Ok(()))));
}

#[test]
fn request_batch_returns_the_stored_batch() {
    let handler = WorkerReceiverHandler::new(0);
    let batch = Batch::new(vec![vec![1, 2, 3]]);
    let mut outside = outside();
    outside.store.insert(batch.digest(), batch.clone());
    assert_eq!(
        request(&handler, batch.digest(), &outside),
        Ok(RequestBatchResponse { batch: Some(batch) })
    );
}

#[test]
fn request_batch_answers_absence_in_band() {
    let handler = WorkerReceiverHandler::new(0);
    let outside = outside();
    assert_eq!(
        request(&handler, BatchDigest::new([1; 32]), &outside),
        Ok(RequestBatchResponse { batch: None })
    );
}

#[test]
fn request_batch_fails_internally_where_the_store_fails() {
    let handler = WorkerReceiverHandler::new(0);
    let mut outside = outside();
    outside.read_error = Some("corrupt".to_string());
    let status = request(&handler, BatchDigest::new([1; 32]), &outside).unwrap_err();
    assert_eq!(status.code(), StatusCode::Internal);
    assert_eq!(status.message(), "failed to read from batch store: corrupt");
}

#[test]
fn request_batch_reads_the_digest_asked_for() {
    let digest = BatchDigest::new([4; 32]);
    match RequestBatch::start(digest) {
        RequestBatch::Read(lookup) => assert_eq!(lookup.digest(), &digest),
        RequestBatch::Finished(_) => panic!("a lookup starts with a read"),
    }
}
