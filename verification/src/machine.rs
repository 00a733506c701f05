//! The vocabulary in which the handler operations talk to the outside: the
//! actions they ask for, the answers they are resumed with, and a model of
//! the batch store and the primary against which whole runs are stated.

use crate::batch::Batch;
use crate::directory::AuthorityIdentifier;
use crate::status::{Status, StatusView};
use std::time::Duration;
use vstd::prelude::*;

verus! {

/// An outside action that an operation is waiting for.
pub enum Effect {
    /// Ask the transaction validator about a batch.
    Validate { batch: Seq<Seq<u8>> },
    /// Look one digest up in the batch store.
    Read { digest: Seq<u8> },
    /// Look several digests up in the batch store in one read.
    ReadMany { digests: Seq<Seq<u8>> },
    /// Put a batch into the store under a digest.
    Write { digest: Seq<u8>, batch: Seq<Seq<u8>> },
    /// Remove a digest from the store.
    Remove { digest: Seq<u8> },
    /// Tell the primary that a batch of another worker has arrived.
    Notify { digest: Seq<u8>, worker_id: u32 },
    /// Ask a peer worker for the batches with the given digests, and wait
    /// for the answer no longer than `timeout`.
    Request { peer: Seq<u8>, digests: Seq<Seq<u8>>, timeout: Duration },
    /// Have the batch fetcher get the batches with the given digests from
    /// the workers of the given authorities.
    Fetch { digests: Seq<Seq<u8>>, known_workers: Seq<AuthorityIdentifier> },
}

impl Effect {
    /// Whether `reply` is of the kind that this action is answered with.
    pub open spec fn answered_by(self, reply: Reply) -> bool {
        match self {
            Effect::Validate { .. } => reply is Done,
            Effect::Read { .. } => reply is Found,
            Effect::ReadMany { .. } => reply is FoundMany,
            Effect::Write { .. } => reply is Done,
            Effect::Remove { .. } => reply is Done,
            Effect::Notify { .. } => reply is Done,
            Effect::Request { .. } => reply is Peer,
            Effect::Fetch { .. } => reply is Fetched,
        }
    }
}

/// What a peer worker's answer to a request for batches came to.
pub enum PeerAnswer {
    /// There is no connection to the peer.
    NotConnected,
    /// The request failed with the given status.
    Failed(StatusView),
    /// The peer sent batches.
    Batches { batches: Seq<Seq<Seq<u8>>>, is_size_limit_reached: bool },
}

/// The outcome of an outside action.
pub enum Reply {
    /// The outcome of a validation, a write, a removal or a notification.
    Done(Result<(), Seq<char>>),
    /// The outcome of a single read.
    Found(Result<Option<Seq<Seq<u8>>>, Seq<char>>),
    /// The outcome of a read of several digests.
    FoundMany(Result<Seq<Option<Seq<Seq<u8>>>>, Seq<char>>),
    /// The outcome of a request to a peer.
    Peer(PeerAnswer),
    /// What the batch fetcher obtained: batches, each under its digest.
    Fetched(Seq<(Seq<u8>, Seq<Seq<u8>>)>),
}

/// The outcome of a validation, a write, a removal or a notification as a
/// specification value. The error is the failure in words.
pub open spec fn done_view(outcome: Result<(), String>) -> Result<(), Seq<char>> {
    match outcome {
        Ok(_) => Ok(()),
        Err(error) => Err(error@),
    }
}

/// The outcome of a single read as a specification value.
pub open spec fn found_view(outcome: Result<Option<Batch>, String>) -> Result<
    Option<Seq<Seq<u8>>>,
    Seq<char>,
> {
    match outcome {
        Ok(Some(batch)) => Ok(Some(batch@)),
        Ok(None) => Ok(None),
        Err(error) => Err(error@),
    }
}

/// What a read of several digests found, as a specification value.
pub open spec fn found_views(found: Seq<Option<Batch>>) -> Seq<Option<Seq<Seq<u8>>>> {
    Seq::new(
        found.len(),
        |i: int|
            match found[i] {
                Some(batch) => Some(batch@),
                None => None,
            },
    )
}

/// The outcome of a read of several digests as a specification value.
pub open spec fn found_many_view(outcome: Result<Vec<Option<Batch>>, String>) -> Result<
    Seq<Option<Seq<Seq<u8>>>>,
    Seq<char>,
> {
    match outcome {
        Ok(found) => Ok(found_views(found@)),
        Err(error) => Err(error@),
    }
}

/// The result of an operation that returns nothing, as a specification value.
pub open spec fn result_view(result: Result<(), Status>) -> Result<(), StatusView> {
    match result {
        Ok(_) => Ok(()),
        Err(status) => Err(status@),
    }
}

/// An operation in progress: it either waits for an outside action or has
/// finished, and it moves on when it is given that action's outcome.
pub trait Machine: Sized {
    /// The action that the operation waits for, if it has not finished.
    spec fn effect(self) -> Option<Effect>;

    /// The operation after it was resumed with `reply`.
    spec fn next(self, reply: Reply) -> Self;
}

/// The operation after it was resumed with each of `replies` in turn.
pub open spec fn run<M: Machine>(start: M, replies: Seq<Reply>) -> M
    decreases replies.len(),
{
    if replies.len() == 0 {
        start
    } else {
        run(start, replies.drop_last()).next(replies.last())
    }
}

/// The actions that the operation asked for while it was resumed with each
/// of `replies` in turn: one for each reply that found it unfinished.
pub open spec fn effects<M: Machine>(start: M, replies: Seq<Reply>) -> Seq<Effect>
    decreases replies.len(),
{
    if replies.len() == 0 {
        Seq::empty()
    } else {
        let before = effects(start, replies.drop_last());
        match run(start, replies.drop_last()).effect() {
            Some(effect) => before.push(effect),
            None => before,
        }
    }
}

/// The batch store and the primary as the operations see them: what the
/// store holds under each digest, and the notifications that the primary has
/// received, oldest first.
pub struct World {
    pub store: Map<Seq<u8>, Seq<Seq<u8>>>,
    pub notified: Seq<(Seq<u8>, u32)>,
}

impl World {
    /// The world after `effect` was carried out with outcome `reply`. Only a
    /// write, a removal and a notification that succeeded change it.
    pub open spec fn after(self, effect: Option<Effect>, reply: Reply) -> World {
        match (effect, reply) {
            (Some(Effect::Write { digest, batch }), Reply::Done(Ok(_))) => World {
                store: self.store.insert(digest, batch),
                ..self
            },
            (Some(Effect::Remove { digest }), Reply::Done(Ok(_))) => World {
                store: self.store.remove(digest),
                ..self
            },
            (Some(Effect::Notify { digest, worker_id }), Reply::Done(Ok(_))) => World {
                notified: self.notified.push((digest, worker_id)),
                ..self
            },
            _ => self,
        }
    }

    /// What the store holds under `digest`, if anything.
    pub open spec fn get(self, digest: Seq<u8>) -> Option<Seq<Seq<u8>>> {
        if self.store.contains_key(digest) {
            Some(self.store[digest])
        } else {
            None
        }
    }

    /// Whether `reply` is an answer that this world can give to `effect`: a
    /// read that succeeds returns what the store holds, in the order asked.
    pub open spec fn answers(self, effect: Option<Effect>, reply: Reply) -> bool {
        match (effect, reply) {
            (Some(Effect::Read { digest }), Reply::Found(Ok(found))) => found == self.get(digest),
            (Some(Effect::ReadMany { digests }), Reply::FoundMany(Ok(found))) => {
                &&& found.len() == digests.len()
                &&& forall|i: int| 0 <= i < digests.len() ==> found[i] == self.get(#[trigger] digests[i])
            },
            _ => true,
        }
    }
}

/// The world after the operation was resumed with each of `replies` in turn
/// and each action it asked for was carried out with that outcome.
pub open spec fn world_after<M: Machine>(start: M, world: World, replies: Seq<Reply>) -> World
    decreases replies.len(),
{
    if replies.len() == 0 {
        world
    } else {
        world_after(start, world, replies.drop_last()).after(
            run(start, replies.drop_last()).effect(),
            replies.last(),
        )
    }
}

/// Whether `replies` is a run of the operation from `start`: each reply
/// finds the operation unfinished and is of the kind that the action it
/// waits for is answered with.
pub open spec fn proper<M: Machine>(start: M, replies: Seq<Reply>) -> bool
    decreases replies.len(),
{
    if replies.len() == 0 {
        true
    } else {
        &&& proper(start, replies.drop_last())
        &&& match run(start, replies.drop_last()).effect() {
            Some(effect) => effect.answered_by(replies.last()),
            None => false,
        }
    }
}

/// Whether every read among `replies` that succeeded returned what the
/// world of its moment held.
pub open spec fn faithful<M: Machine>(start: M, world: World, replies: Seq<Reply>) -> bool
    decreases replies.len(),
{
    if replies.len() == 0 {
        true
    } else {
        &&& faithful(start, world, replies.drop_last())
        &&& world_after(start, world, replies.drop_last()).answers(
            run(start, replies.drop_last()).effect(),
            replies.last(),
        )
    }
}

} // verus!
