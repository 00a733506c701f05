//! Getting missing batches from a peer worker on the primary's request.
//!
//! The operation probes the store for each digest it was given, asks the
//! target's worker once for those that are missing, validates what comes back
//! unless the primary vouches for it, and stores every batch whose own digest
//! is one of those still missing.

use crate::batch::{batch_views, blake2b_256, digest_views, Batch, BatchDigest};
use crate::directory::PeerId;
use crate::machine::{done_view, found_view, result_view, Effect, Machine, PeerAnswer, Reply};
use crate::messages::PeerReply;
use crate::status::{describe, Status, StatusView};
use std::time::Duration;
use vstd::prelude::*;
use vstd::string::*;

verus! {

/// The message of the status with which `synchronize` refuses to work
/// without a network.
pub open spec fn sync_unsupported() -> Seq<char> {
    "synchronize() is unsupported via RPC interface, please call via local worker handler instead"@
}

/// The digests in `digests` but for the first that equals `digest`.
pub open spec fn without(digests: Seq<Seq<u8>>, digest: Seq<u8>) -> Seq<Seq<u8>>
    decreases digests.len(),
{
    if digests.len() == 0 {
        digests
    } else if digests[0] == digest {
        digests.skip(1)
    } else {
        seq![digests[0]] + without(digests.skip(1), digest)
    }
}

/// A synchronisation in progress, as a specification value.
pub enum SyncState {
    /// Waiting to learn whether the store holds `digests[next]`. `missing`
    /// are the digests before it that the store does not hold.
    Probing {
        digests: Seq<Seq<u8>>,
        next: nat,
        missing: Seq<Seq<u8>>,
        route: Result<Seq<u8>, StatusView>,
        timeout: Duration,
        is_certified: bool,
    },
    /// Waiting for the peer's answer to the request for `missing`.
    Requesting { peer: Seq<u8>, missing: Seq<Seq<u8>>, timeout: Duration, is_certified: bool },
    /// Waiting for the validator's verdict on `batches[next]`.
    Validating { batches: Seq<Seq<Seq<u8>>>, next: nat, missing: Seq<Seq<u8>> },
    /// Waiting for `batches[next]` to be written to the store. `missing` are
    /// the digests that are still missing once it is.
    Storing { batches: Seq<Seq<Seq<u8>>>, next: nat, missing: Seq<Seq<u8>>, is_certified: bool },
    /// Finished with the given result.
    Finished(Result<(), StatusView>),
}

impl SyncState {
    /// The state in which the digests before `next` have been probed.
    pub open spec fn probe(
        digests: Seq<Seq<u8>>,
        next: nat,
        missing: Seq<Seq<u8>>,
        route: Result<Seq<u8>, StatusView>,
        timeout: Duration,
        is_certified: bool,
    ) -> SyncState {
        if next < digests.len() {
            SyncState::Probing { digests, next, missing, route, timeout, is_certified }
        } else if missing.len() == 0 {
            SyncState::Finished(Ok(()))
        } else {
            match route {
                Ok(peer) => SyncState::Requesting { peer, missing, timeout, is_certified },
                Err(status) => SyncState::Finished(Err(status)),
            }
        }
    }

    /// The result once every batch of the peer's answer has been seen.
    pub open spec fn conclude(missing: Seq<Seq<u8>>) -> SyncState {
        if missing.len() == 0 {
            SyncState::Finished(Ok(()))
        } else {
            SyncState::Finished(Err(StatusView::internal("failed to synchronize batches!"@)))
        }
    }

    /// The state in which the batches before `next` have been dealt with.
    /// `validated` says that the validator has accepted `batches[next]`.
    pub open spec fn scan(
        batches: Seq<Seq<Seq<u8>>>,
        next: nat,
        missing: Seq<Seq<u8>>,
        is_certified: bool,
        validated: bool,
    ) -> SyncState
        decreases batches.len() - next,
    {
        if next >= batches.len() {
            SyncState::conclude(missing)
        } else if !is_certified && !validated {
            SyncState::Validating { batches, next, missing }
        } else {
            let digest = blake2b_256(batches[next as int]);
            if missing.contains(digest) {
                SyncState::Storing { batches, next, missing: without(missing, digest), is_certified }
            } else {
                SyncState::scan(batches, next + 1, missing, is_certified, false)
            }
        }
    }

    /// The state in which a synchronisation starts. `network` says whether
    /// the handler has a network, `route` is the peer to ask or the status
    /// with which the target could not be resolved.
    pub open spec fn start(
        network: bool,
        route: Result<Seq<u8>, StatusView>,
        timeout: Duration,
        digests: Seq<Seq<u8>>,
        is_certified: bool,
    ) -> SyncState {
        if !network {
            SyncState::Finished(Err(StatusView::bad_request(sync_unsupported())))
        } else {
            SyncState::probe(digests, 0, Seq::empty(), route, timeout, is_certified)
        }
    }

    /// Whether the indices in the state point at an item and no digest is
    /// listed twice as missing.
    pub open spec fn wf(self) -> bool {
        match self {
            SyncState::Probing { digests, next, missing, .. } => next < digests.len()
                && missing.no_duplicates(),
            SyncState::Requesting { missing, .. } => missing.no_duplicates(),
            SyncState::Validating { batches, next, missing } => next < batches.len()
                && missing.no_duplicates(),
            SyncState::Storing { batches, next, missing, .. } => next < batches.len()
                && missing.no_duplicates(),
            SyncState::Finished(_) => true,
        }
    }
}

impl Machine for SyncState {
    open spec fn effect(self) -> Option<Effect> {
        match self {
            SyncState::Probing { digests, next, .. } => Some(
                Effect::Read { digest: digests[next as int] },
            ),
            SyncState::Requesting { peer, missing, timeout, .. } => Some(
                Effect::Request { peer, digests: missing, timeout },
            ),
            SyncState::Validating { batches, next, .. } => Some(
                Effect::Validate { batch: batches[next as int] },
            ),
            SyncState::Storing { batches, next, .. } => Some(
                Effect::Write {
                    digest: blake2b_256(batches[next as int]),
                    batch: batches[next as int],
                },
            ),
            SyncState::Finished(_) => None,
        }
    }

    open spec fn next(self, reply: Reply) -> SyncState {
        match (self, reply) {
            (
                SyncState::Probing { digests, next, missing, route, timeout, is_certified },
                Reply::Found(found),
            ) => match found {
                Ok(Some(_)) => SyncState::probe(
                    digests,
                    next + 1,
                    missing,
                    route,
                    timeout,
                    is_certified,
                ),
                Ok(None) => SyncState::probe(
                    digests,
                    next + 1,
                    if missing.contains(digests[next as int]) {
                        missing
                    } else {
                        missing.push(digests[next as int])
                    },
                    route,
                    timeout,
                    is_certified,
                ),
                Err(error) => SyncState::Finished(
                    Err(StatusView::internal("failed to read from batch store: "@ + error)),
                ),
            },
            (SyncState::Requesting { missing, is_certified, .. }, Reply::Peer(answer)) => match answer {
                PeerAnswer::NotConnected => SyncState::Finished(
                    Err(StatusView::internal("Not connected with worker peer"@)),
                ),
                PeerAnswer::Failed(status) => SyncState::Finished(Err(status)),
                PeerAnswer::Batches { batches, .. } => SyncState::scan(
                    batches,
                    0,
                    missing,
                    is_certified,
                    false,
                ),
            },
            (SyncState::Validating { batches, next, missing }, Reply::Done(verdict)) => match verdict {
                Ok(_) => SyncState::scan(batches, next, missing, false, true),
                Err(error) => SyncState::Finished(
                    Err(StatusView::bad_request("Invalid batch: "@ + error)),
                ),
            },
            (SyncState::Storing { batches, next, missing, is_certified }, Reply::Done(written)) => match written {
                Ok(_) => SyncState::scan(batches, next + 1, missing, is_certified, false),
                Err(error) => SyncState::Finished(
                    Err(StatusView::internal("failed to write to batch store: "@ + error)),
                ),
            },
            _ => self,
        }
    }
}

/// The peer to ask as a specification value, or the status with which the
/// target could not be resolved.
pub open spec fn route_view(route: Result<PeerId, Status>) -> Result<Seq<u8>, StatusView> {
    match route {
        Ok(peer) => Ok(peer@),
        Err(status) => Err(status@),
    }
}

/// Taking the first occurrence of a digest out of a list is removing the
/// item at the first index that holds it. Where the list held nothing
/// twice, neither does what is left, and the digest is gone from it.
pub proof fn lemma_without_first(digests: Seq<Seq<u8>>, digest: Seq<u8>, index: int)
    requires
        0 <= index < digests.len(),
        digests[index] == digest,
        forall|j: int| 0 <= j < index ==> digests[j] != digest,
    ensures
        without(digests, digest) == digests.remove(index),
        digests.no_duplicates() ==> without(digests, digest).no_duplicates() && !without(
            digests,
            digest,
        ).contains(digest),
    decreases digests.len(),
{
    let rest = digests.remove(index);
    if index == 0 {
        assert(digests.skip(1) =~= rest);
    } else {
        let tail = digests.skip(1);
        assert forall|j: int| 0 <= j < index - 1 implies tail[j] != digest by {
            assert(tail[j] == digests[j + 1]);
        }
        lemma_without_first(tail, digest, index - 1);
        assert(seq![digests[0]] + tail.remove(index - 1) =~= rest);
    }
    if digests.no_duplicates() {
        assert forall|i: int, j: int| 0 <= i < rest.len() && 0 <= j < rest.len() && i != j implies rest[i]
            != rest[j] by {
            let a = if i < index { i } else { i + 1 };
            let b = if j < index { j } else { j + 1 };
            assert(rest[i] == digests[a] && rest[j] == digests[b]);
        }
        assert forall|i: int| 0 <= i < rest.len() implies rest[i] != digest by {
            let a = if i < index { i } else { i + 1 };
            assert(rest[i] == digests[a]);
        }
    }
}

/// A list that does not hold a digest is what it is without it.
pub proof fn lemma_without_absent(digests: Seq<Seq<u8>>, digest: Seq<u8>)
    requires
        !digests.contains(digest),
    ensures
        without(digests, digest) == digests,
    decreases digests.len(),
{
    if digests.len() > 0 {
        let tail = digests.skip(1);
        assert(digests[0] != digest);
        assert forall|j: int| 0 <= j < tail.len() implies tail[j] != digest by {
            assert(tail[j] == digests[j + 1]);
        }
        lemma_without_absent(tail, digest);
        assert(seq![digests[0]] + tail =~= digests);
    }
}

/// The index of the first of `digests` that equals `digest`, if there is one.
pub fn position(digests: &Vec<BatchDigest>, digest: &BatchDigest) -> (found: Option<usize>)
    ensures
        match found {
            Some(index) => {
                &&& index < digests.len()
                &&& digests[index as int]@ == digest@
                &&& forall|j: int| 0 <= j < index ==> digests[j]@ != digest@
            },
            None => !digest_views(digests@).contains(digest@),
        },
{
    let mut i: usize = 0;
    while i < digests.len()
        invariant
            i <= digests.len(),
            forall|j: int| 0 <= j < i ==> digests[j]@ != digest@,
        decreases digests.len() - i,
    {
        if digests[i].same(digest) {
            return Some(i);
        }
        i += 1;
    }
    assert forall|j: int| 0 <= j < digest_views(digests@).len() implies digest_views(digests@)[j]
        != digest@ by {
        assert(digest_views(digests@)[j] == digests[j]@);
    }
    None
}

/// Takes `digest` off the list of missing digests if it is on it, and says
/// whether it was.
pub fn take_missing(missing: &mut Vec<BatchDigest>, digest: &BatchDigest) -> (was_missing: bool)
    ensures
        was_missing == digest_views(old(missing)@).contains(digest@),
        digest_views(final(missing)@) == without(digest_views(old(missing)@), digest@),
        !was_missing ==> digest_views(final(missing)@) == digest_views(old(missing)@),
        digest_views(old(missing)@).no_duplicates() ==> digest_views(final(missing)@).no_duplicates(),
{
    let ghost before = digest_views(missing@);
    match position(missing, digest) {
        Some(index) => {
            missing.remove(index);
            proof {
                assert(before[index as int] == digest@);
                assert forall|j: int| 0 <= j < index implies before[j] != digest@ by {
                    assert(before[j] == old(missing)@[j]@);
                }
                lemma_without_first(before, digest@, index as int);
                assert(digest_views(missing@) =~= before.remove(index as int));
            }
            true
        },
        None => {
            proof {
                lemma_without_absent(before, digest@);
            }
            false
        },
    }
}

/// Waiting to learn whether the store holds a digest.
pub struct Probe {
    digests: Vec<BatchDigest>,
    next: usize,
    missing: Vec<BatchDigest>,
    route: Result<PeerId, Status>,
    timeout: Duration,
    is_certified: bool,
}

/// Waiting for a peer's answer to a request for batches.
pub struct PeerRequest {
    peer: PeerId,
    missing: Vec<BatchDigest>,
    timeout: Duration,
    is_certified: bool,
}

/// Waiting for the validator's verdict on a batch.
pub struct Validation {
    batches: Vec<Batch>,
    next: usize,
    missing: Vec<BatchDigest>,
}

/// Waiting for a batch to be written to the store.
pub struct Write {
    batches: Vec<Batch>,
    next: usize,
    digest: BatchDigest,
    missing: Vec<BatchDigest>,
    is_certified: bool,
}

/// A synchronisation in progress: the outside action it waits for, or its
/// result.
pub enum Synchronize {
    /// Look `Probe::digest` up in the store and resume with what was found.
    Probe(Probe),
    /// Ask the peer for the batches and resume with the answer.
    Request(PeerRequest),
    /// Ask the validator about `Validation::batch` and resume with the verdict.
    Validate(Validation),
    /// Write `Write::batch` under `Write::digest` and resume with the outcome.
    Store(Write),
    /// The operation has finished.
    Finished(Result<(), Status>),
}

impl View for Probe {
    type V = SyncState;

    closed spec fn view(&self) -> SyncState {
        SyncState::Probing {
            digests: digest_views(self.digests@),
            next: self.next as nat,
            missing: digest_views(self.missing@),
            route: route_view(self.route),
            timeout: self.timeout,
            is_certified: self.is_certified,
        }
    }
}

impl View for PeerRequest {
    type V = SyncState;

    closed spec fn view(&self) -> SyncState {
        SyncState::Requesting {
            peer: self.peer@,
            missing: digest_views(self.missing@),
            timeout: self.timeout,
            is_certified: self.is_certified,
        }
    }
}

impl View for Validation {
    type V = SyncState;

    closed spec fn view(&self) -> SyncState {
        SyncState::Validating {
            batches: batch_views(self.batches@),
            next: self.next as nat,
            missing: digest_views(self.missing@),
        }
    }
}

impl View for Write {
    type V = SyncState;

    closed spec fn view(&self) -> SyncState {
        SyncState::Storing {
            batches: batch_views(self.batches@),
            next: self.next as nat,
            missing: digest_views(self.missing@),
            is_certified: self.is_certified,
        }
    }
}

impl View for Synchronize {
    type V = SyncState;

    open spec fn view(&self) -> SyncState {
        match *self {
            Synchronize::Probe(probe) => probe@,
            Synchronize::Request(request) => request@,
            Synchronize::Validate(validation) => validation@,
            Synchronize::Store(write) => write@,
            Synchronize::Finished(result) => SyncState::Finished(result_view(result)),
        }
    }
}

impl Probe {
    #[verifier::type_invariant]
    spec fn inv(self) -> bool {
        self@.wf()
    }

    /// The digest to look up in the store.
    pub fn digest(&self) -> (digest: &BatchDigest)
        ensures
            self@.effect() == Some(Effect::Read { digest: digest@ }),
    {
        proof {
            use_type_invariant(self);
        }
        &self.digests[self.next]
    }

    /// Moves on with what the store answered.
    pub fn resume(self, found: Result<Option<Batch>, String>) -> (state: Synchronize)
        ensures
            state@ == self@.next(Reply::Found(found_view(found))),
            state@.wf(),
    {
        proof {
            use_type_invariant(&self);
        }
        assert(self.next < self.digests.len());
        let Probe { digests, next, mut missing, route, timeout, is_certified } = self;
        match found {
            Ok(Some(_)) => {},
            Ok(None) => {
                match position(&missing, &digests[next]) {
                    Some(index) => {
                        assert(digest_views(missing@)[index as int] == digests[next as int]@);
                    },
                    None => {
                        let ghost old_missing = digest_views(missing@);
                        missing.push(digests[next]);
                        assert(digest_views(missing@) =~= old_missing.push(
                            digest_views(digests@)[next as int],
                        ));
                    },
                }
            },
            Err(error) => {
                return Synchronize::Finished(
                    Err(Status::internal(describe("failed to read from batch store: ", error.as_str()))),
                );
            },
        }
        probe(digests, next + 1, missing, route, timeout, is_certified)
    }
}

/// The state in which the digests before `next` have been probed.
fn probe(
    digests: Vec<BatchDigest>,
    next: usize,
    missing: Vec<BatchDigest>,
    route: Result<PeerId, Status>,
    timeout: Duration,
    is_certified: bool,
) -> (state: Synchronize)
    requires
        next <= digests.len(),
        digest_views(missing@).no_duplicates(),
    ensures
        state@ == SyncState::probe(
            digest_views(digests@),
            next as nat,
            digest_views(missing@),
            route_view(route),
            timeout,
            is_certified,
        ),
        state@.wf(),
{
    if next < digests.len() {
        Synchronize::Probe(Probe { digests, next, missing, route, timeout, is_certified })
    } else if missing.len() == 0 {
        Synchronize::Finished(Ok(()))
    } else {
        match route {
            Ok(peer) => Synchronize::Request(PeerRequest { peer, missing, timeout, is_certified }),
            Err(status) => Synchronize::Finished(Err(status)),
        }
    }
}

impl PeerRequest {
    #[verifier::type_invariant]
    spec fn inv(self) -> bool {
        self@.wf()
    }

    /// The peer to ask.
    pub fn peer(&self) -> (peer: PeerId)
        ensures
            self@.effect() matches Some(Effect::Request { peer: asked, .. }) && asked == peer@,
    {
        self.peer
    }

    /// The digests of the batches to ask for.
    pub fn digests(&self) -> (digests: &Vec<BatchDigest>)
        ensures
            self@.effect() matches Some(Effect::Request { digests: asked, .. }) && asked
                == digest_views(digests@),
    {
        &self.missing
    }

    /// How long to wait for the peer's answer.
    pub fn timeout(&self) -> (timeout: &Duration)
        ensures
            self@.effect() matches Some(Effect::Request { timeout: asked, .. }) && asked
                == *timeout,
    {
        &self.timeout
    }

    /// Moves on with what came of the request.
    pub fn resume(self, reply: PeerReply) -> (state: Synchronize)
        ensures
            state@ == self@.next(Reply::Peer(reply@)),
            state@.wf(),
    {
        proof {
            use_type_invariant(&self);
        }
        let PeerRequest { peer, missing, timeout, is_certified } = self;
        match reply {
            PeerReply::NotConnected => Synchronize::Finished(
                Err(Status::internal(String::from_str("Not connected with worker peer"))),
            ),
            PeerReply::Failed(status) => Synchronize::Finished(Err(status)),
            PeerReply::Answered(response) => scan(response.batches, 0, missing, is_certified, false),
        }
    }
}

impl Validation {
    #[verifier::type_invariant]
    spec fn inv(self) -> bool {
        self@.wf()
    }

    /// The batch to validate.
    pub fn batch(&self) -> (batch: &Batch)
        ensures
            self@.effect() == Some(Effect::Validate { batch: batch@ }),
    {
        proof {
            use_type_invariant(self);
        }
        &self.batches[self.next]
    }

    /// Moves on with the validator's verdict.
    pub fn resume(self, verdict: Result<(), String>) -> (state: Synchronize)
        ensures
            state@ == self@.next(Reply::Done(done_view(verdict))),
            state@.wf(),
    {
        proof {
            use_type_invariant(&self);
        }
        assert(self.next < self.batches.len());
        let Validation { batches, next, missing } = self;
        match verdict {
            Ok(_) => scan(batches, next, missing, false, true),
            Err(error) => Synchronize::Finished(
                Err(Status::bad_request(describe("Invalid batch: ", error.as_str()))),
            ),
        }
    }
}

impl Write {
    #[verifier::type_invariant]
    spec fn inv(self) -> bool {
        &&& self@.wf()
        &&& self.next < self.batches.len()
        &&& self.digest@ == blake2b_256(self.batches[self.next as int]@)
    }

    /// The digest under which to write the batch.
    pub fn digest(&self) -> (digest: &BatchDigest)
        ensures
            self@.effect() matches Some(Effect::Write { digest: asked, .. }) && asked == digest@,
    {
        proof {
            use_type_invariant(self);
        }
        &self.digest
    }

    /// The batch to write.
    pub fn batch(&self) -> (batch: &Batch)
        ensures
            self@.effect() matches Some(Effect::Write { batch: asked, .. }) && asked == batch@,
    {
        proof {
            use_type_invariant(self);
        }
        &self.batches[self.next]
    }

    /// Moves on with the outcome of the write.
    pub fn resume(self, written: Result<(), String>) -> (state: Synchronize)
        ensures
            state@ == self@.next(Reply::Done(done_view(written))),
            state@.wf(),
    {
        proof {
            use_type_invariant(&self);
        }
        let Write { batches, next, digest, missing, is_certified } = self;
        match written {
            Ok(_) => scan(batches, next + 1, missing, is_certified, false),
            Err(error) => Synchronize::Finished(
                Err(Status::internal(describe("failed to write to batch store: ", error.as_str()))),
            ),
        }
    }
}

/// The state in which the batches before `next` have been dealt with.
fn scan(
    batches: Vec<Batch>,
    next: usize,
    missing: Vec<BatchDigest>,
    is_certified: bool,
    validated: bool,
) -> (state: Synchronize)
    requires
        next <= batches.len(),
        digest_views(missing@).no_duplicates(),
    ensures
        state@ == SyncState::scan(
            batch_views(batches@),
            next as nat,
            digest_views(missing@),
            is_certified,
            validated,
        ),
        state@.wf(),
{
    let ghost goal = SyncState::scan(
        batch_views(batches@),
        next as nat,
        digest_views(missing@),
        is_certified,
        validated,
    );
    let mut left = missing;
    let mut i: usize = next;
    let mut accepted = validated;
    while i < batches.len()
        invariant
            i <= batches.len(),
            digest_views(left@).no_duplicates(),
            goal == SyncState::scan(
                batch_views(batches@),
                next as nat,
                digest_views(missing@),
                is_certified,
                validated,
            ),
            goal == SyncState::scan(
                batch_views(batches@),
                i as nat,
                digest_views(left@),
                is_certified,
                accepted,
            ),
        decreases batches.len() - i,
    {
        assert(batch_views(batches@).len() == batches.len());
        assert(batch_views(batches@)[i as int] == batches[i as int]@);
        if !is_certified && !accepted {
            return Synchronize::Validate(Validation { batches, next: i, missing: left });
        }
        let digest = batches[i].digest();
        if take_missing(&mut left, &digest) {
            return Synchronize::Store(
                Write { batches, next: i, digest, missing: left, is_certified },
            );
        }
        i += 1;
        accepted = false;
    }
    if left.len() == 0 {
        Synchronize::Finished(Ok(()))
    } else {
        Synchronize::Finished(Err(Status::internal(String::from_str("failed to synchronize batches!"))))
    }
}

impl Synchronize {
    /// Starts a synchronisation. `network` says whether the handler has a
    /// network, `route` is the peer to ask or the status with which the
    /// target could not be resolved, and `timeout` bounds the wait for the
    /// peer's answer.
    pub fn start(
        network: bool,
        route: Result<PeerId, Status>,
        timeout: Duration,
        digests: Vec<BatchDigest>,
        is_certified: bool,
    ) -> (state: Synchronize)
        ensures
            state@ == SyncState::start(
                network,
                route_view(route),
                timeout,
                digest_views(digests@),
                is_certified,
            ),
            state@.wf(),
    {
        if !network {
            return Synchronize::Finished(
                Err(
                    Status::bad_request(
                        String::from_str(
                            "synchronize() is unsupported via RPC interface, please call via local worker handler instead",
                        ),
                    ),
                ),
            );
        }
        let missing: Vec<BatchDigest> = Vec::new();
        assert(digest_views(missing@) =~= Seq::empty());
        probe(digests, 0, missing, route, timeout, is_certified)
    }
}

} // verus!
