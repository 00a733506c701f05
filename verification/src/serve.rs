//! Serving stored batches to peer workers: one batch by its digest, or as
//! many of a list as fit into one response.

use crate::batch::{batch_views, digest_views, total_len, Batch, BatchDigest};
use crate::machine::{found_many_view, found_view, found_views, Effect, Machine, Reply};
use crate::messages::{RequestBatchResponse, RequestBatchesResponse};
use crate::status::{describe, Status, StatusView};
use vstd::prelude::*;

verus! {

/// The largest number of bytes that the batches of one response may hold
/// together.
pub const MAX_REQUEST_BATCHES_RESPONSE_SIZE: usize = 6_000_000;

/// The largest number of digests that are looked up in one read of the store.
pub const BATCH_DIGESTS_READ_CHUNK_SIZE: usize = 200;

/// The number of bytes that `batches` hold together.
pub open spec fn sizes(batches: Seq<Seq<Seq<u8>>>) -> nat
    decreases batches.len(),
{
    if batches.len() == 0 {
        0
    } else {
        sizes(batches.drop_last()) + total_len(batches.last())
    }
}

/// The batches that a read found, in the order of the read; the digests
/// that the store does not hold are left out.
pub open spec fn present(found: Seq<Option<Seq<Seq<u8>>>>) -> Seq<Seq<Seq<u8>>>
    decreases found.len(),
{
    if found.len() == 0 {
        Seq::empty()
    } else {
        match found[0] {
            Some(batch) => seq![batch] + present(found.skip(1)),
            None => present(found.skip(1)),
        }
    }
}

/// How many of `candidates`, taken from the front, fit into a response that
/// already holds `held` bytes.
pub open spec fn admitted(held: nat, candidates: Seq<Seq<Seq<u8>>>) -> nat
    decreases candidates.len(),
{
    if candidates.len() == 0 {
        0
    } else if held + total_len(candidates[0]) <= MAX_REQUEST_BATCHES_RESPONSE_SIZE {
        1 + admitted(held + total_len(candidates[0]), candidates.skip(1))
    } else {
        0
    }
}

/// The digests that are read together when the digests before `offset` have
/// been read.
pub open spec fn chunk(digests: Seq<Seq<u8>>, offset: nat) -> Seq<Seq<u8>> {
    if offset + BATCH_DIGESTS_READ_CHUNK_SIZE <= digests.len() {
        digests.subrange(offset as int, offset + BATCH_DIGESTS_READ_CHUNK_SIZE)
    } else {
        digests.subrange(offset as int, digests.len() as int)
    }
}

/// The answer to a request for several batches, as a specification value.
pub struct BatchesView {
    pub batches: Seq<Seq<Seq<u8>>>,
    pub is_size_limit_reached: bool,
}

impl View for RequestBatchesResponse {
    type V = BatchesView;

    open spec fn view(&self) -> BatchesView {
        BatchesView {
            batches: batch_views(self.batches@),
            is_size_limit_reached: self.is_size_limit_reached,
        }
    }
}

/// The serving of a request for several batches, as a specification value.
pub enum BatchesState {
    /// Waiting for the store's answer on the chunk of `digests` that starts
    /// at `offset`. `batches` is what the response holds so far.
    Reading { digests: Seq<Seq<u8>>, offset: nat, batches: Seq<Seq<Seq<u8>>> },
    /// Finished with the given result.
    Finished(Result<BatchesView, StatusView>),
}

impl BatchesState {
    /// The state in which the digests before `offset` have been read and all
    /// that was found fitted into the response.
    pub open spec fn advance(digests: Seq<Seq<u8>>, offset: nat, batches: Seq<Seq<Seq<u8>>>) -> BatchesState {
        if offset < digests.len() {
            BatchesState::Reading { digests, offset, batches }
        } else {
            BatchesState::Finished(Ok(BatchesView { batches, is_size_limit_reached: false }))
        }
    }

    /// The state in which the serving of a request for `digests` starts.
    pub open spec fn start(digests: Seq<Seq<u8>>) -> BatchesState {
        BatchesState::advance(digests, 0, Seq::empty())
    }

    /// Whether the offset points at a digest and the response is within its
    /// limit.
    pub open spec fn wf(self) -> bool {
        match self {
            BatchesState::Reading { digests, offset, batches } => offset < digests.len() && sizes(
                batches,
            ) <= MAX_REQUEST_BATCHES_RESPONSE_SIZE,
            BatchesState::Finished(Ok(response)) => sizes(response.batches)
                <= MAX_REQUEST_BATCHES_RESPONSE_SIZE,
            BatchesState::Finished(Err(_)) => true,
        }
    }
}

impl Machine for BatchesState {
    open spec fn effect(self) -> Option<Effect> {
        match self {
            BatchesState::Reading { digests, offset, .. } => Some(
                Effect::ReadMany { digests: chunk(digests, offset) },
            ),
            BatchesState::Finished(_) => None,
        }
    }

    open spec fn next(self, reply: Reply) -> BatchesState {
        match (self, reply) {
            (BatchesState::Reading { digests, offset, batches }, Reply::FoundMany(Ok(found))) => {
                let candidates = present(found);
                let count = admitted(sizes(batches), candidates);
                let extended = batches + candidates.take(count as int);
                if count < candidates.len() {
                    BatchesState::Finished(
                        Ok(BatchesView { batches: extended, is_size_limit_reached: true }),
                    )
                } else {
                    BatchesState::advance(
                        digests,
                        (offset + BATCH_DIGESTS_READ_CHUNK_SIZE) as nat,
                        extended,
                    )
                }
            },
            (BatchesState::Reading { .. }, Reply::FoundMany(Err(error))) => BatchesState::Finished(
                Err(StatusView::internal("failed to read from batch store: "@ + error)),
            ),
            _ => self,
        }
    }
}

/// Adding a batch to a sequence adds its bytes to the total.
pub proof fn lemma_sizes_push(batches: Seq<Seq<Seq<u8>>>, batch: Seq<Seq<u8>>)
    ensures
        sizes(batches.push(batch)) == sizes(batches) + total_len(batch),
{
    assert(batches.push(batch).drop_last() =~= batches);
}

/// What a read found from its entry `index` on starts with the batch at
/// `index`, if there is one, and goes on with what it found after it.
pub proof fn lemma_present_step(found: Seq<Option<Seq<Seq<u8>>>>, index: int)
    requires
        0 <= index < found.len(),
    ensures
        present(found.skip(index)) == match found[index] {
            Some(batch) => seq![batch] + present(found.skip(index + 1)),
            None => present(found.skip(index + 1)),
        },
{
    assert(found.skip(index).skip(1) =~= found.skip(index + 1));
}

/// A first candidate is admitted if it fits, and then the others are
/// admitted into what room it leaves; if it does not fit, none is.
pub proof fn lemma_admitted_step(held: nat, first: Seq<Seq<u8>>, others: Seq<Seq<Seq<u8>>>)
    ensures
        admitted(held, seq![first] + others) == if held + total_len(first)
            <= MAX_REQUEST_BATCHES_RESPONSE_SIZE {
            1 + admitted(held + total_len(first), others)
        } else {
            0
        },
{
    assert((seq![first] + others).skip(1) =~= others);
}

/// No more candidates are admitted than there are, and those admitted fit.
pub proof fn lemma_admitted_fit(held: nat, candidates: Seq<Seq<Seq<u8>>>)
    ensures
        admitted(held, candidates) <= candidates.len(),
        held <= MAX_REQUEST_BATCHES_RESPONSE_SIZE ==> held + sizes(
            candidates.take(admitted(held, candidates) as int),
        ) <= MAX_REQUEST_BATCHES_RESPONSE_SIZE,
    decreases candidates.len(),
{
    if candidates.len() == 0 {
        assert(candidates.take(0) =~= Seq::empty());
    } else if held + total_len(candidates[0]) <= MAX_REQUEST_BATCHES_RESPONSE_SIZE {
        let others = candidates.skip(1);
        let count = admitted(held + total_len(candidates[0]), others);
        lemma_admitted_fit(held + total_len(candidates[0]), others);
        assert(candidates.take(1 + count as int) =~= seq![candidates[0]] + others.take(count as int));
        lemma_sizes_concat(seq![candidates[0]], others.take(count as int));
        lemma_sizes_push(Seq::empty(), candidates[0]);
        assert(seq![candidates[0]] =~= Seq::<Seq<Seq<u8>>>::empty().push(candidates[0]));
    } else {
        assert(candidates.take(0) =~= Seq::empty());
    }
}

/// The bytes of two sequences of batches add up.
pub proof fn lemma_sizes_concat(first: Seq<Seq<Seq<u8>>>, second: Seq<Seq<Seq<u8>>>)
    ensures
        sizes(first + second) == sizes(first) + sizes(second),
    decreases second.len(),
{
    if second.len() == 0 {
        assert(first + second =~= first);
    } else {
        lemma_sizes_concat(first, second.drop_last());
        assert((first + second).drop_last() =~= first + second.drop_last());
    }
}

/// Waiting for the store's answer on one chunk of the digests asked for.
pub struct ChunkRead {
    digests: Vec<BatchDigest>,
    offset: usize,
    batches: Vec<Batch>,
    total_size: usize,
}

/// The serving of a request for several batches: the read it waits for, or
/// its result.
pub enum RequestBatches {
    /// Read `ChunkRead::digests` from the store in one read, and resume with
    /// what was found.
    Read(ChunkRead),
    /// The operation has finished.
    Finished(Result<RequestBatchesResponse, Status>),
}

/// The result of serving a request for several batches, as a specification
/// value.
pub open spec fn batches_result_view(result: Result<RequestBatchesResponse, Status>) -> Result<
    BatchesView,
    StatusView,
> {
    match result {
        Ok(response) => Ok(response@),
        Err(status) => Err(status@),
    }
}

impl View for ChunkRead {
    type V = BatchesState;

    closed spec fn view(&self) -> BatchesState {
        BatchesState::Reading {
            digests: digest_views(self.digests@),
            offset: self.offset as nat,
            batches: batch_views(self.batches@),
        }
    }
}

impl View for RequestBatches {
    type V = BatchesState;

    open spec fn view(&self) -> BatchesState {
        match *self {
            RequestBatches::Read(read) => read@,
            RequestBatches::Finished(result) => BatchesState::Finished(batches_result_view(result)),
        }
    }
}

/// The state in which the digests before `offset` have been read and all
/// that was found fitted into the response.
fn advance(digests: Vec<BatchDigest>, offset: usize, batches: Vec<Batch>, total_size: usize) -> (state:
    RequestBatches)
    requires
        total_size == sizes(batch_views(batches@)),
        total_size <= MAX_REQUEST_BATCHES_RESPONSE_SIZE,
    ensures
        state@ == BatchesState::advance(
            digest_views(digests@),
            offset as nat,
            batch_views(batches@),
        ),
        state@.wf(),
{
    if offset < digests.len() {
        RequestBatches::Read(ChunkRead { digests, offset, batches, total_size })
    } else {
        RequestBatches::Finished(Ok(RequestBatchesResponse { batches, is_size_limit_reached: false }))
    }
}

impl ChunkRead {
    #[verifier::type_invariant]
    spec fn inv(self) -> bool {
        &&& self@.wf()
        &&& self.total_size == sizes(batch_views(self.batches@))
    }

    /// The digests to read from the store in one read.
    pub fn digests(&self) -> (digests: Vec<BatchDigest>)
        ensures
            self@.effect() == Some(Effect::ReadMany { digests: digest_views(digests@) }),
    {
        proof {
            use_type_invariant(self);
        }
        let end: usize = if self.digests.len() - self.offset <= BATCH_DIGESTS_READ_CHUNK_SIZE {
            self.digests.len()
        } else {
            self.offset + BATCH_DIGESTS_READ_CHUNK_SIZE
        };
        let mut digests: Vec<BatchDigest> = Vec::new();
        let mut i: usize = self.offset;
        while i < end
            invariant
                self.offset <= i <= end <= self.digests.len(),
                digest_views(digests@) == digest_views(self.digests@).subrange(
                    self.offset as int,
                    i as int,
                ),
            decreases end - i,
        {
            let ghost before = digests@;
            digests.push(self.digests[i]);
            proof {
                let wanted = digest_views(self.digests@).subrange(self.offset as int, i + 1);
                assert(digest_views(before).len() == i - self.offset);
                assert forall|j: int| 0 <= j < wanted.len() implies digest_views(digests@)[j]
                    == wanted[j] by {
                    if j < before.len() {
                        assert(digest_views(before)[j] == before[j]@);
                    }
                }
                assert(digest_views(digests@) =~= wanted);
            }
            i += 1;
        }
        digests
    }

    /// Moves on with what the store answered: the batches it found are added
    /// to the response in order until one does not fit.
    pub fn resume(self, found: Result<Vec<Option<Batch>>, String>) -> (state: RequestBatches)
        ensures
            state@ == self@.next(Reply::FoundMany(found_many_view(found))),
            state@.wf(),
    {
        proof {
            use_type_invariant(&self);
        }
        let ghost target = self@.next(Reply::FoundMany(found_many_view(found)));
        let ChunkRead { digests, offset, batches, total_size } = self;
        let mut slots = match found {
            Ok(found) => found,
            Err(error) => {
                return RequestBatches::Finished(
                    Err(Status::internal(describe("failed to read from batch store: ", error.as_str()))),
                );
            },
        };
        let ghost all = found_views(slots@);
        let ghost base = batch_views(batches@);
        let ghost goal = base + present(all).take(admitted(sizes(base), present(all)) as int);
        let ghost limited = admitted(sizes(base), present(all)) < present(all).len();
        let mut batches = batches;
        let mut total_size = total_size;
        let mut i: usize = 0;
        assert(all.skip(0) =~= all);
        while i < slots.len()
            invariant
                i <= slots.len(),
                slots.len() == all.len(),
                offset < digests.len(),
                target == if limited {
                    BatchesState::Finished(
                        Ok(BatchesView { batches: goal, is_size_limit_reached: true }),
                    )
                } else {
                    BatchesState::advance(
                        digest_views(digests@),
                        (offset + BATCH_DIGESTS_READ_CHUNK_SIZE) as nat,
                        goal,
                    )
                },
                target == self@.next(Reply::FoundMany(found_many_view(found))),
                forall|j: int| i <= j < all.len() ==> found_views(slots@)[j] == all[j],
                total_size == sizes(batch_views(batches@)),
                total_size <= MAX_REQUEST_BATCHES_RESPONSE_SIZE,
                goal == batch_views(batches@) + present(all.skip(i as int)).take(
                    admitted(total_size as nat, present(all.skip(i as int))) as int,
                ),
                limited == (admitted(total_size as nat, present(all.skip(i as int))) < present(
                    all.skip(i as int),
                ).len()),
            decreases slots.len() - i,
        {
            let ghost held = batch_views(batches@);
            let ghost others = present(all.skip(i + 1));
            proof {
                lemma_present_step(all, i as int);
                assert(found_views(slots@)[i as int] == all[i as int]);
            }
            let ghost before = slots@;
            let item = slots[i].take();
            proof {
                assert forall|j: int| i + 1 <= j < all.len() implies found_views(slots@)[j]
                    == all[j] by {
                    assert(found_views(before)[j] == all[j]);
                }
            }
            match item {
                Some(batch) => {
                    let size = batch.size();
                    proof {
                        lemma_admitted_step(total_size as nat, batch@, others);
                        lemma_admitted_fit(total_size as nat + total_len(batch@), others);
                    }
                    if size <= MAX_REQUEST_BATCHES_RESPONSE_SIZE - total_size {
                        batches.push(batch);
                        total_size = total_size + size;
                        proof {
                            let count = admitted(total_size as nat, others);
                            assert(batch_views(batches@) =~= held.push(batch@));
                            lemma_sizes_push(held, batch@);
                            assert((seq![batch@] + others).take(1 + count as int) =~= seq![batch@]
                                + others.take(count as int));
                            assert(held + (seq![batch@] + others.take(count as int))
                                =~= held.push(batch@) + others.take(count as int));
                        }
                    } else {
                        proof {
                            assert((seq![batch@] + others).take(0) =~= Seq::empty());
                            assert(held + Seq::empty() =~= held);
                        }
                        return RequestBatches::Finished(
                            Ok(RequestBatchesResponse { batches, is_size_limit_reached: true }),
                        );
                    }
                },
                None => {},
            }
            i += 1;
        }
        proof {
            assert(present(all.skip(i as int)) =~= Seq::empty());
            assert(batch_views(batches@) + Seq::empty() =~= batch_views(batches@));
        }
        if digests.len() - offset <= BATCH_DIGESTS_READ_CHUNK_SIZE {
            RequestBatches::Finished(Ok(RequestBatchesResponse { batches, is_size_limit_reached: false }))
        } else {
            advance(digests, offset + BATCH_DIGESTS_READ_CHUNK_SIZE, batches, total_size)
        }
    }
}

impl RequestBatches {
    /// Starts serving a request for the batches with the given digests.
    pub fn start(digests: Vec<BatchDigest>) -> (state: RequestBatches)
        ensures
            state@ == BatchesState::start(digest_views(digests@)),
            state@.wf(),
    {
        let batches: Vec<Batch> = Vec::new();
        assert(batch_views(batches@) =~= Seq::empty());
        advance(digests, 0, batches, 0)
    }
}

impl View for RequestBatchResponse {
    type V = Option<Seq<Seq<u8>>>;

    open spec fn view(&self) -> Option<Seq<Seq<u8>>> {
        match self.batch {
            Some(batch) => Some(batch@),
            None => None,
        }
    }
}

/// The serving of a request for one batch, as a specification value.
pub enum BatchState {
    /// Waiting for the store's answer on `digest`.
    Reading { digest: Seq<u8> },
    /// Finished with the given result: the batch, if the store holds it.
    Finished(Result<Option<Seq<Seq<u8>>>, StatusView>),
}

impl Machine for BatchState {
    open spec fn effect(self) -> Option<Effect> {
        match self {
            BatchState::Reading { digest } => Some(Effect::Read { digest }),
            BatchState::Finished(_) => None,
        }
    }

    open spec fn next(self, reply: Reply) -> BatchState {
        match (self, reply) {
            (BatchState::Reading { .. }, Reply::Found(Ok(found))) => BatchState::Finished(Ok(found)),
            (BatchState::Reading { .. }, Reply::Found(Err(error))) => BatchState::Finished(
                Err(StatusView::internal("failed to read from batch store: "@ + error)),
            ),
            _ => self,
        }
    }
}

/// Waiting for the store's answer on one digest.
pub struct Lookup {
    digest: BatchDigest,
}

/// The serving of a request for one batch: the read it waits for, or its
/// result.
pub enum RequestBatch {
    /// Look `Lookup::digest` up in the store and resume with what was found.
    Read(Lookup),
    /// The operation has finished.
    Finished(Result<RequestBatchResponse, Status>),
}

/// The result of serving a request for one batch, as a specification value.
pub open spec fn batch_result_view(result: Result<RequestBatchResponse, Status>) -> Result<
    Option<Seq<Seq<u8>>>,
    StatusView,
> {
    match result {
        Ok(response) => Ok(response@),
        Err(status) => Err(status@),
    }
}

impl View for Lookup {
    type V = BatchState;

    closed spec fn view(&self) -> BatchState {
        BatchState::Reading { digest: self.digest@ }
    }
}

impl View for RequestBatch {
    type V = BatchState;

    open spec fn view(&self) -> BatchState {
        match *self {
            RequestBatch::Read(lookup) => lookup@,
            RequestBatch::Finished(result) => BatchState::Finished(batch_result_view(result)),
        }
    }
}

impl Lookup {
    /// The digest to look up in the store.
    pub fn digest(&self) -> (digest: &BatchDigest)
        ensures
            self@.effect() == Some(Effect::Read { digest: digest@ }),
    {
        &self.digest
    }

    /// Finishes with what the store answered: the batch it found or none,
    /// or an internal error where the read failed.
    pub fn resume(self, found: Result<Option<Batch>, String>) -> (state: RequestBatch)
        ensures
            state@ == self@.next(Reply::Found(found_view(found))),
            state@ is Finished,
    {
        match found {
            Ok(batch) => RequestBatch::Finished(Ok(RequestBatchResponse { batch })),
            Err(error) => RequestBatch::Finished(
                Err(Status::internal(describe("failed to read from batch store: ", error.as_str()))),
            ),
        }
    }
}

impl RequestBatch {
    /// Starts serving a request for the batch with the given digest.
    pub fn start(digest: BatchDigest) -> (state: RequestBatch)
        ensures
            state@ == (BatchState::Reading { digest: digest@ }),
    {
        RequestBatch::Read(Lookup { digest })
    }
}

} // verus!
