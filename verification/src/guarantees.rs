//! What holds of whole runs of the handler operations, whatever the outside
//! answers.

use crate::batch::{blake2b_256, total_len};
use crate::delete::DeleteState;
use crate::directory::WorkerId;
use crate::machine::{
    effects, faithful, proper, run, world_after, Effect, Machine, PeerAnswer, Reply, World,
};
use crate::report::ReportState;
use crate::serve::{
    admitted, chunk, lemma_admitted_fit, lemma_sizes_concat, lemma_sizes_push, present, sizes,
    BatchesState, BATCH_DIGESTS_READ_CHUNK_SIZE, MAX_REQUEST_BATCHES_RESPONSE_SIZE,
};
use crate::status::StatusView;
use crate::synchronize::{without, SyncState};
use std::time::Duration;
use vstd::prelude::*;

verus! {

/// Where a run of `report_batch` stands after its replies: which replies it
/// has had, what it has asked for, and what the world has become.
proof fn lemma_report_progress(batch: Seq<Seq<u8>>, worker_id: WorkerId, world: World, replies: Seq<Reply>)
    requires
        proper(ReportState::Validating { batch, worker_id }, replies),
    ensures
        ({
            let start = ReportState::Validating { batch, worker_id };
            let digest = blake2b_256(batch);
            let asked = effects(start, replies);
            let after = world_after(start, world, replies);
            let stored = World { store: world.store.insert(digest, batch), ..world };
            match run(start, replies) {
                ReportState::Validating { .. } => {
                    &&& replies.len() == 0
                    &&& asked == Seq::<Effect>::empty()
                    &&& after == world
                },
                ReportState::Storing { batch: held, worker_id: id } => {
                    &&& held == batch
                    &&& id == worker_id
                    &&& asked == seq![Effect::Validate { batch }]
                    &&& after == world
                },
                ReportState::Notifying { digest: held, worker_id: id } => {
                    &&& held == digest
                    &&& id == worker_id
                    &&& asked == seq![Effect::Validate { batch }, Effect::Write { digest, batch }]
                    &&& after == stored
                },
                ReportState::Finished(Ok(_)) => {
                    &&& asked == seq![
                        Effect::Validate { batch },
                        Effect::Write { digest, batch },
                        Effect::Notify { digest, worker_id },
                    ]
                    &&& after == World {
                        notified: world.notified.push((digest, worker_id)),
                        ..stored
                    }
                },
                ReportState::Finished(Err(_)) => after.notified == world.notified,
            }
        }),
    decreases replies.len(),
{
    let start = ReportState::Validating { batch, worker_id };
    if replies.len() > 0 {
        let before = replies.drop_last();
        lemma_report_progress(batch, worker_id, world, before);
        let asked = effects(start, before);
        match run(start, before) {
            ReportState::Validating { .. } => {
                assert(before.len() == 0);
                assert(asked.push(Effect::Validate { batch }) =~= seq![Effect::Validate { batch }]);
            },
            ReportState::Storing { .. } => {
                let digest = blake2b_256(batch);
                assert(asked.push(Effect::Write { digest, batch }) =~= seq![
                    Effect::Validate { batch },
                    Effect::Write { digest, batch },
                ]);
            },
            ReportState::Notifying { .. } => {
                let digest = blake2b_256(batch);
                assert(asked.push(Effect::Notify { digest, worker_id }) =~= seq![
                    Effect::Validate { batch },
                    Effect::Write { digest, batch },
                    Effect::Notify { digest, worker_id },
                ]);
            },
            ReportState::Finished(_) => {},
        }
    }
}

/// A report that ends well has left the batch in the store under its digest
/// and has told the primary of it exactly once, with this worker's index:
/// the run asked for one validation, one write and one notification, in that
/// order, and for nothing else.
pub proof fn lemma_report_stores_and_notifies_once(
    batch: Seq<Seq<u8>>,
    worker_id: WorkerId,
    world: World,
    replies: Seq<Reply>,
)
    requires
        proper(ReportState::Validating { batch, worker_id }, replies),
        run(ReportState::Validating { batch, worker_id }, replies) matches ReportState::Finished(
            Ok(_),
        ),
    ensures
        ({
            let start = ReportState::Validating { batch, worker_id };
            let digest = blake2b_256(batch);
            let after = world_after(start, world, replies);
            &&& after.get(digest) == Some(batch)
            &&& after.store == world.store.insert(digest, batch)
            &&& after.notified == world.notified.push((digest, worker_id))
            &&& effects(start, replies) == seq![
                Effect::Validate { batch },
                Effect::Write { digest, batch },
                Effect::Notify { digest, worker_id },
            ]
        }),
{
    lemma_report_progress(batch, worker_id, world, replies);
}

/// A report that the validator rejects ends at once as a bad request that
/// carries the validator's words, and leaves the store and the primary as
/// they were.
pub proof fn lemma_rejected_report_changes_nothing(
    batch: Seq<Seq<u8>>,
    worker_id: WorkerId,
    world: World,
    error: Seq<char>,
)
    ensures
        ({
            let start = ReportState::Validating { batch, worker_id };
            let replies = seq![Reply::Done(Err(error))];
            &&& proper(start, replies)
            &&& run(start, replies) == ReportState::Finished(
                Err(StatusView::bad_request("Invalid batch: "@ + error)),
            )
            &&& world_after(start, world, replies) == world
        }),
{
    let start = ReportState::Validating { batch, worker_id };
    let replies = seq![Reply::Done(Err(error))];
    assert(replies.drop_last() =~= Seq::empty());
    assert(run(start, replies.drop_last()) == start);
    assert(proper(start, replies.drop_last()));
    assert(world_after(start, world, replies.drop_last()) == world);
}

/// Where a run of `delete_batches` stands after its replies.
proof fn lemma_delete_progress(digests: Seq<Seq<u8>>, world: World, replies: Seq<Reply>)
    requires
        proper(DeleteState::start(digests), replies),
    ensures
        ({
            let after = world_after(DeleteState::start(digests), world, replies);
            match run(DeleteState::start(digests), replies) {
                DeleteState::Removing { digests: listed, next } => {
                    &&& listed == digests
                    &&& next < digests.len()
                    &&& forall|j: int| 0 <= j < next ==> !after.store.contains_key(digests[j])
                },
                DeleteState::Finished(Ok(_)) => forall|j: int|
                    0 <= j < digests.len() ==> !after.store.contains_key(digests[j]),
                DeleteState::Finished(Err(_)) => true,
            }
        }),
    decreases replies.len(),
{
    if replies.len() > 0 {
        lemma_delete_progress(digests, world, replies.drop_last());
    }
}

/// After a removal that ends well the store holds none of the digests that
/// were to be removed.
pub proof fn lemma_delete_removes_all(digests: Seq<Seq<u8>>, world: World, replies: Seq<Reply>)
    requires
        proper(DeleteState::start(digests), replies),
        run(DeleteState::start(digests), replies) matches DeleteState::Finished(Ok(_)),
    ensures
        forall|digest: Seq<u8>| #[trigger]
            digests.contains(digest) ==> world_after(
                DeleteState::start(digests),
                world,
                replies,
            ).get(digest) is None,
{
    lemma_delete_progress(digests, world, replies);
}

/// Whether every item of `part` is an item of `whole`.
pub open spec fn within(part: Seq<Seq<u8>>, whole: Seq<Seq<u8>>) -> bool {
    forall|i: int| 0 <= i < part.len() ==> whole.contains(#[trigger] part[i])
}

/// What is left of a list without a digest are items of the list.
proof fn lemma_without_within(digests: Seq<Seq<u8>>, digest: Seq<u8>)
    ensures
        within(without(digests, digest), digests),
    decreases digests.len(),
{
    if digests.len() > 0 {
        let tail = digests.skip(1);
        let left = without(digests, digest);
        if digests[0] == digest {
            assert forall|i: int| 0 <= i < left.len() implies digests.contains(#[trigger] left[i]) by {
                assert(left[i] == digests[i + 1]);
            }
        } else {
            lemma_without_within(tail, digest);
            assert forall|i: int| 0 <= i < left.len() implies digests.contains(#[trigger] left[i]) by {
                if i == 0 {
                    assert(left[0] == digests[0]);
                } else {
                    let item = without(tail, digest)[i - 1];
                    assert(left[i] == item);
                    assert(tail.contains(item));
                    let j = tail.index_of(item);
                    assert(digests[j + 1] == item);
                }
            }
        }
    }
}

/// What the scan of a peer's answer comes to: it stops at a batch to
/// validate only where the primary does not vouch for the batches, and at a
/// batch to write only where the batch's digest is missing and the batch
/// needs no validation or has just passed it.
proof fn lemma_scan_outcome(
    batches: Seq<Seq<Seq<u8>>>,
    next: nat,
    missing: Seq<Seq<u8>>,
    is_certified: bool,
    validated: bool,
)
    ensures
        match SyncState::scan(batches, next, missing, is_certified, validated) {
            SyncState::Validating { batches: held, next: at, missing: left } => {
                &&& held == batches
                &&& next <= at < batches.len()
                &&& left == missing
                &&& !is_certified
            },
            SyncState::Storing { batches: held, next: at, missing: left, is_certified: vouched } => {
                &&& held == batches
                &&& next <= at < batches.len()
                &&& vouched == is_certified
                &&& missing.contains(blake2b_256(batches[at as int]))
                &&& within(left, missing)
                &&& is_certified || (validated && at == next)
            },
            SyncState::Finished(_) => true,
            _ => false,
        },
    decreases batches.len() - next,
{
    if next < batches.len() && (is_certified || validated) {
        let digest = blake2b_256(batches[next as int]);
        if missing.contains(digest) {
            lemma_without_within(missing, digest);
        } else {
            lemma_scan_outcome(batches, next + 1, missing, is_certified, false);
        }
    }
}

/// What holds of a synchronisation after a run: `asked_at` is the number of
/// replies after which it asked the peer, where it has done so.
spec fn sync_progress(
    start: SyncState,
    digests: Seq<Seq<u8>>,
    is_certified: bool,
    replies: Seq<Reply>,
    asked_at: int,
) -> bool {
    let asked = run(start, replies.take(asked_at)).effect();
    let has_asked = {
        &&& 0 <= asked_at < replies.len()
        &&& asked matches Some(Effect::Request { digests: wanted, .. }) && within(wanted, digests)
    };
    match run(start, replies) {
        SyncState::Probing { digests: listed, next, missing, is_certified: vouched, .. } => {
            &&& listed == digests
            &&& next < digests.len()
            &&& vouched == is_certified
            &&& within(missing, digests)
        },
        SyncState::Requesting { missing, is_certified: vouched, .. } => {
            &&& vouched == is_certified
            &&& within(missing, digests)
        },
        SyncState::Validating { batches, next, missing } => {
            &&& has_asked
            &&& next < batches.len()
            &&& !is_certified
            &&& within(missing, asked->Some_0->Request_digests)
        },
        SyncState::Storing { batches, next, missing, is_certified: vouched } => {
            &&& has_asked
            &&& next < batches.len()
            &&& vouched == is_certified
            &&& within(missing, asked->Some_0->Request_digests)
            &&& asked->Some_0->Request_digests.contains(blake2b_256(batches[next as int]))
            &&& !is_certified ==> {
                &&& run(start, replies.drop_last()).effect() == Some(
                    Effect::Validate { batch: batches[next as int] },
                )
                &&& replies.last() matches Reply::Done(Ok(_))
            }
        },
        SyncState::Finished(_) => true,
    }
}

/// Every run of a synchronisation keeps to `sync_progress`.
proof fn lemma_sync_progress(
    network: bool,
    route: Result<Seq<u8>, StatusView>,
    timeout: Duration,
    digests: Seq<Seq<u8>>,
    is_certified: bool,
    replies: Seq<Reply>,
) -> (asked_at: int)
    requires
        proper(SyncState::start(network, route, timeout, digests, is_certified), replies),
    ensures
        sync_progress(
            SyncState::start(network, route, timeout, digests, is_certified),
            digests,
            is_certified,
            replies,
            asked_at,
        ),
    decreases replies.len(),
{
    let start = SyncState::start(network, route, timeout, digests, is_certified);
    if replies.len() == 0 {
        0
    } else {
        let before = replies.drop_last();
        let earlier = lemma_sync_progress(network, route, timeout, digests, is_certified, before);
        if 0 <= earlier < before.len() {
            assert(before.take(earlier) =~= replies.take(earlier));
        }
        assert(replies.take(before.len() as int) =~= before);
        match (run(start, before), replies.last()) {
            (SyncState::Probing { digests: listed, next, missing, .. }, Reply::Found(Ok(None))) => {
                let grown = if missing.contains(listed[next as int]) {
                    missing
                } else {
                    missing.push(listed[next as int])
                };
                assert(within(grown, digests));
                earlier
            },
            (SyncState::Requesting { missing, is_certified: vouched, .. }, Reply::Peer(PeerAnswer::Batches { batches, .. })) => {
                lemma_scan_outcome(batches, 0, missing, vouched, false);
                before.len() as int
            },
            (SyncState::Validating { batches, next, missing }, Reply::Done(Ok(_))) => {
                lemma_scan_outcome(batches, next, missing, false, true);
                earlier
            },
            (SyncState::Storing { batches, next, missing, is_certified: vouched }, Reply::Done(Ok(_))) => {
                lemma_scan_outcome(batches, next + 1, missing, vouched, false);
                earlier
            },
            _ => earlier,
        }
    }
}

/// A synchronisation writes no batch under a digest that it has not asked
/// the peer for: whenever it waits for a write, the digest is the written
/// batch's own, it is one of those that the primary listed, and the run has
/// before asked the peer for a list of digests that holds it.
pub proof fn lemma_sync_writes_only_requested(
    network: bool,
    route: Result<Seq<u8>, StatusView>,
    timeout: Duration,
    digests: Seq<Seq<u8>>,
    is_certified: bool,
    replies: Seq<Reply>,
)
    requires
        proper(SyncState::start(network, route, timeout, digests, is_certified), replies),
        run(SyncState::start(network, route, timeout, digests, is_certified), replies).effect() matches Some(
            Effect::Write { .. },
        ),
    ensures
        ({
            let start = SyncState::start(network, route, timeout, digests, is_certified);
            let write = run(start, replies).effect()->Some_0;
            &&& write->Write_digest == blake2b_256(write->Write_batch)
            &&& digests.contains(write->Write_digest)
            &&& exists|asked_at: int|
                0 <= asked_at < replies.len() && (#[trigger] run(
                    start,
                    replies.take(asked_at),
                ).effect() matches Some(Effect::Request { digests: wanted, .. })
                    && wanted.contains(write->Write_digest))
        }),
{
    let start = SyncState::start(network, route, timeout, digests, is_certified);
    let asked_at = lemma_sync_progress(network, route, timeout, digests, is_certified, replies);
    let wanted = run(start, replies.take(asked_at)).effect()->Some_0->Request_digests;
    let digest = run(start, replies).effect()->Some_0->Write_digest;
    let index = wanted.index_of(digest);
    assert(wanted[index] == digest);
}

/// A synchronisation of batches that the primary does not vouch for writes
/// none that the validator has not accepted: whenever it waits for a write,
/// the action before was the validation of that batch, and it succeeded.
pub proof fn lemma_sync_validates_before_writing(
    network: bool,
    route: Result<Seq<u8>, StatusView>,
    timeout: Duration,
    digests: Seq<Seq<u8>>,
    replies: Seq<Reply>,
)
    requires
        proper(SyncState::start(network, route, timeout, digests, false), replies),
        run(SyncState::start(network, route, timeout, digests, false), replies).effect() matches Some(
            Effect::Write { .. },
        ),
    ensures
        ({
            let start = SyncState::start(network, route, timeout, digests, false);
            let write = run(start, replies).effect()->Some_0;
            &&& replies.len() > 0
            &&& run(start, replies.drop_last()).effect() == Some(
                Effect::Validate { batch: write->Write_batch },
            )
            &&& replies.last() matches Reply::Done(Ok(_))
        }),
{
    let asked_at = lemma_sync_progress(network, route, timeout, digests, false, replies);
}

/// A synchronisation of batches that the primary vouches for never asks the
/// validator.
pub proof fn lemma_sync_trusts_certified(
    network: bool,
    route: Result<Seq<u8>, StatusView>,
    timeout: Duration,
    digests: Seq<Seq<u8>>,
    replies: Seq<Reply>,
)
    requires
        proper(SyncState::start(network, route, timeout, digests, true), replies),
    ensures
        !(run(SyncState::start(network, route, timeout, digests, true), replies).effect() matches Some(
            Effect::Validate { .. },
        )),
{
    let asked_at = lemma_sync_progress(network, route, timeout, digests, true, replies);
}

/// What the store of `world` holds under each of `digests`, in their order.
pub open spec fn lookups(world: World, digests: Seq<Seq<u8>>) -> Seq<Option<Seq<Seq<u8>>>> {
    Seq::new(digests.len(), |i: int| world.get(digests[i]))
}

/// What two reads found one after the other is what one read of both found.
proof fn lemma_present_concat(first: Seq<Option<Seq<Seq<u8>>>>, second: Seq<Option<Seq<Seq<u8>>>>)
    ensures
        present(first + second) == present(first) + present(second),
    decreases first.len(),
{
    if first.len() == 0 {
        assert(first + second =~= second);
        assert(present(first) + present(second) =~= present(second));
    } else {
        lemma_present_concat(first.skip(1), second);
        assert((first + second).skip(1) =~= first.skip(1) + second);
        match first[0] {
            Some(batch) => {
                assert((seq![batch] + present(first.skip(1))) + present(second) =~= seq![batch] + (
                present(first.skip(1)) + present(second)));
            },
            None => {},
        }
    }
}

/// Where not all candidates are admitted, the first one left out does not
/// fit beside those admitted.
proof fn lemma_admitted_stops(held: nat, candidates: Seq<Seq<Seq<u8>>>)
    requires
        admitted(held, candidates) < candidates.len(),
    ensures
        held + sizes(candidates.take(admitted(held, candidates) as int + 1))
            > MAX_REQUEST_BATCHES_RESPONSE_SIZE,
    decreases candidates.len(),
{
    let first = candidates[0];
    lemma_sizes_push(Seq::empty(), first);
    assert(seq![first] =~= Seq::<Seq<Seq<u8>>>::empty().push(first));
    if held + total_len(first) <= MAX_REQUEST_BATCHES_RESPONSE_SIZE {
        let others = candidates.skip(1);
        let count = admitted(held + total_len(first), others);
        lemma_admitted_stops(held + total_len(first), others);
        assert(candidates.take(count as int + 2) =~= seq![first] + others.take(count as int + 1));
        lemma_sizes_concat(seq![first], others.take(count as int + 1));
    } else {
        assert(candidates.take(1) =~= seq![first]);
    }
}

/// Whether `batches` and `is_size_limit_reached` are the right answer to a
/// request for `digests` where the store is that of `world`: the batches
/// are as many of those that the store holds under the digests, in the
/// order of the digests, as fit into one response, and the mark says that
/// some were left out.
pub open spec fn serves(
    world: World,
    digests: Seq<Seq<u8>>,
    batches: Seq<Seq<Seq<u8>>>,
    is_size_limit_reached: bool,
) -> bool {
    let held = present(lookups(world, digests));
    &&& batches.len() <= held.len()
    &&& batches == held.take(batches.len() as int)
    &&& sizes(batches) <= MAX_REQUEST_BATCHES_RESPONSE_SIZE
    &&& is_size_limit_reached <==> batches.len() < held.len()
    &&& is_size_limit_reached ==> sizes(held.take(batches.len() as int + 1))
        > MAX_REQUEST_BATCHES_RESPONSE_SIZE
}

/// Where the serving of a request for several batches stands after a run
/// whose reads returned what the store of `world` holds.
proof fn lemma_batches_progress(digests: Seq<Seq<u8>>, world: World, replies: Seq<Reply>)
    requires
        proper(BatchesState::start(digests), replies),
        faithful(BatchesState::start(digests), world, replies),
    ensures
        world_after(BatchesState::start(digests), world, replies) == world,
        match run(BatchesState::start(digests), replies) {
            BatchesState::Reading { digests: listed, offset, batches } => {
                &&& listed == digests
                &&& offset < digests.len()
                &&& batches == present(lookups(world, digests.take(offset as int)))
                &&& sizes(batches) <= MAX_REQUEST_BATCHES_RESPONSE_SIZE
            },
            BatchesState::Finished(Ok(response)) => serves(
                world,
                digests,
                response.batches,
                response.is_size_limit_reached,
            ),
            BatchesState::Finished(Err(_)) => true,
        },
    decreases replies.len(),
{
    let start = BatchesState::start(digests);
    if replies.len() == 0 {
        assert(digests.take(0) =~= Seq::empty());
        assert(lookups(world, digests.take(0)) =~= Seq::empty());
        assert(digests.take(digests.len() as int) =~= digests);
        assert(sizes(Seq::empty()) == 0);
        if digests.len() == 0 {
            assert(present(lookups(world, digests)) =~= Seq::empty());
            assert(Seq::<Seq<Seq<u8>>>::empty().take(0) =~= Seq::empty());
        }
    } else {
        let before = replies.drop_last();
        lemma_batches_progress(digests, world, before);
        match (run(start, before), replies.last()) {
            (BatchesState::Reading { offset, batches, .. }, Reply::FoundMany(Ok(found))) => {
                let read = chunk(digests, offset);
                let end = offset + read.len();
                let candidates = present(found);
                let count = admitted(sizes(batches), candidates);
                let extended = batches + candidates.take(count as int);
                let rest = digests.skip(end as int);
                assert(found =~= lookups(world, read));
                assert(digests.take(end as int) =~= digests.take(offset as int) + read);
                assert(lookups(world, digests.take(end as int)) =~= lookups(
                    world,
                    digests.take(offset as int),
                ) + found);
                lemma_present_concat(lookups(world, digests.take(offset as int)), found);
                lemma_admitted_fit(sizes(batches), candidates);
                lemma_sizes_concat(batches, candidates.take(count as int));
                if count < candidates.len() {
                    let held = present(lookups(world, digests));
                    assert(digests =~= digests.take(end as int) + rest);
                    assert(lookups(world, digests) =~= lookups(world, digests.take(end as int))
                        + lookups(world, rest));
                    lemma_present_concat(
                        lookups(world, digests.take(end as int)),
                        lookups(world, rest),
                    );
                    let tail = present(lookups(world, rest));
                    assert(held == (batches + candidates) + tail);
                    assert(held.take(extended.len() as int) =~= extended);
                    assert(held.take(extended.len() as int + 1) =~= batches + candidates.take(count as int + 1));
                    lemma_sizes_concat(batches, candidates.take(count as int + 1));
                    lemma_admitted_stops(sizes(batches), candidates);
                } else {
                    assert(candidates.take(count as int) =~= candidates);
                    if offset + BATCH_DIGESTS_READ_CHUNK_SIZE >= digests.len() {
                        assert(digests.take(end as int) =~= digests);
                        assert(extended.take(extended.len() as int) =~= extended);
                    }
                }
            },
            _ => {},
        }
    }
}

/// The answer to a request for several batches is as many of the batches
/// that the store holds under the digests asked for, in the order of the
/// digests, as fit into one response; the mark is set exactly where some
/// were left out, and then the next one would not have fitted. This holds
/// where each read returned what the store held and nothing changed the
/// store between the reads.
pub proof fn lemma_batches_served_in_order(digests: Seq<Seq<u8>>, world: World, replies: Seq<Reply>)
    requires
        proper(BatchesState::start(digests), replies),
        faithful(BatchesState::start(digests), world, replies),
        run(BatchesState::start(digests), replies) matches BatchesState::Finished(Ok(_)),
    ensures
        ({
            let response = run(BatchesState::start(digests), replies)->Finished_0->Ok_0;
            serves(world, digests, response.batches, response.is_size_limit_reached)
        }),
{
    lemma_batches_progress(digests, world, replies);
}

/// Where the mark is not set, the answer holds the batch of every digest
/// asked for that the store holds.
pub proof fn lemma_unmarked_response_is_complete(
    digests: Seq<Seq<u8>>,
    world: World,
    replies: Seq<Reply>,
    index: int,
)
    requires
        proper(BatchesState::start(digests), replies),
        faithful(BatchesState::start(digests), world, replies),
        run(BatchesState::start(digests), replies) matches BatchesState::Finished(Ok(response))
            && !response.is_size_limit_reached,
        0 <= index < digests.len(),
        world.store.contains_key(digests[index]),
    ensures
        run(BatchesState::start(digests), replies)->Finished_0->Ok_0.batches.contains(
            world.store[digests[index]],
        ),
{
    lemma_batches_progress(digests, world, replies);
    lemma_present_holds(lookups(world, digests), index);
    let held = present(lookups(world, digests));
    assert(held.take(held.len() as int) =~= held);
}

/// A batch that a read found is among the batches it found.
proof fn lemma_present_holds(found: Seq<Option<Seq<Seq<u8>>>>, index: int)
    requires
        0 <= index < found.len(),
        found[index] is Some,
    ensures
        present(found).contains(found[index]->Some_0),
    decreases found.len(),
{
    let others = present(found.skip(1));
    if index == 0 {
        assert((seq![found[0]->Some_0] + others)[0] == found[0]->Some_0);
    } else {
        lemma_present_holds(found.skip(1), index - 1);
        let at = others.index_of(found[index]->Some_0);
        assert(others[at] == found[index]->Some_0);
        match found[0] {
            Some(batch) => {
                assert((seq![batch] + others)[at + 1] == others[at]);
            },
            None => {},
        }
    }
}

/// However the store answers, the batches of an answer hold no more bytes
/// together than one response may.
pub proof fn lemma_response_within_limit(digests: Seq<Seq<u8>>, replies: Seq<Reply>)
    ensures
        run(BatchesState::start(digests), replies).wf(),
    decreases replies.len(),
{
    if replies.len() == 0 {
        assert(sizes(Seq::empty()) == 0);
    } else {
        lemma_response_within_limit(digests, replies.drop_last());
        match (run(BatchesState::start(digests), replies.drop_last()), replies.last()) {
            (BatchesState::Reading { batches, .. }, Reply::FoundMany(Ok(found))) => {
                let candidates = present(found);
                lemma_admitted_fit(sizes(batches), candidates);
                lemma_sizes_concat(
                    batches,
                    candidates.take(admitted(sizes(batches), candidates) as int),
                );
            },
            _ => {},
        }
    }
}

} // verus!
