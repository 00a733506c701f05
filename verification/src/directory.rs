//! Who is who: the committee of authorities and the cache of their workers'
//! network names.

use vstd::prelude::*;

verus! {

/// The index of a worker within its authority.
pub type WorkerId = u32;

/// The identifier of an authority of the committee.
#[derive(Clone, Copy, Debug, PartialEq, Eq, Hash, Structural)]
pub struct AuthorityIdentifier(pub u16);

/// Whether two byte strings are equal.
pub fn same_bytes(a: &Vec<u8>, b: &Vec<u8>) -> (equal: bool)
    ensures
        equal == (a@ == b@),
{
    if a.len() != b.len() {
        return false;
    }
    let mut i: usize = 0;
    while i < a.len()
        invariant
            a.len() == b.len(),
            i <= a.len(),
            forall|j: int| 0 <= j < i ==> a@[j] == b@[j],
        decreases a.len() - i,
    {
        if a[i] != b[i] {
            return false;
        }
        i += 1;
    }
    assert(a@ =~= b@);
    true
}

/// The key with which an authority signs: its cryptographic identity.
#[derive(Clone, Debug, PartialEq, Eq)]
pub struct PublicKey(pub Vec<u8>);

impl View for PublicKey {
    type V = Seq<u8>;

    open spec fn view(&self) -> Seq<u8> {
        self.0@
    }
}

/// The key under which a worker is known on the network: its name.
#[derive(Clone, Copy, Debug, PartialEq, Eq)]
pub struct NetworkPublicKey(pub [u8; 32]);

impl View for NetworkPublicKey {
    type V = Seq<u8>;

    open spec fn view(&self) -> Seq<u8> {
        self.0@
    }
}

/// The identifier under which the network keeps its connection to a peer.
#[derive(Clone, Copy, Debug, PartialEq, Eq)]
pub struct PeerId(pub [u8; 32]);

impl View for PeerId {
    type V = Seq<u8>;

    open spec fn view(&self) -> Seq<u8> {
        self.0@
    }
}

impl NetworkPublicKey {
    /// The peer identifier of the worker with this name: the name's bytes.
    pub fn peer_id(&self) -> (peer: PeerId)
        ensures
            peer@ == self@,
    {
        PeerId(self.0)
    }
}

/// An authority of the committee.
#[derive(Clone, Debug, PartialEq, Eq)]
pub struct Authority {
    pub id: AuthorityIdentifier,
    pub protocol_key: PublicKey,
}

/// The authorities of the current epoch. Where two entries have the same
/// identifier, the first one counts.
#[derive(Clone, Debug, PartialEq, Eq)]
pub struct Committee {
    pub authorities: Vec<Authority>,
}

/// The protocol key of the first of `authorities` whose identifier is `id`.
pub open spec fn protocol_key_of(authorities: Seq<Authority>, id: AuthorityIdentifier) -> Option<
    Seq<u8>,
>
    decreases authorities.len(),
{
    if authorities.len() == 0 {
        None
    } else if authorities[0].id == id {
        Some(authorities[0].protocol_key@)
    } else {
        protocol_key_of(authorities.skip(1), id)
    }
}

impl Committee {
    pub fn new(authorities: Vec<Authority>) -> (committee: Committee)
        ensures
            committee.authorities == authorities,
    {
        Committee { authorities }
    }

    /// The protocol key of `id` as a specification value.
    pub open spec fn spec_protocol_key(self, id: AuthorityIdentifier) -> Option<Seq<u8>> {
        protocol_key_of(self.authorities@, id)
    }

    /// The record of the authority `id`, if the committee has one.
    pub fn authority(&self, id: &AuthorityIdentifier) -> (found: Option<&Authority>)
        ensures
            match found {
                Some(authority) => authority.id == *id && self.spec_protocol_key(*id) == Some(
                    authority.protocol_key@,
                ),
                None => self.spec_protocol_key(*id) is None,
            },
    {
        let mut i: usize = 0;
        assert(self.authorities@.skip(0) =~= self.authorities@);
        while i < self.authorities.len()
            invariant
                i <= self.authorities.len(),
                protocol_key_of(self.authorities@, *id) == protocol_key_of(
                    self.authorities@.skip(i as int),
                    *id,
                ),
            decreases self.authorities.len() - i,
        {
            proof {
                assert(self.authorities@.skip(i as int).skip(1) =~= self.authorities@.skip(i + 1));
            }
            if self.authorities[i].id.0 == id.0 {
                return Some(&self.authorities[i]);
            }
            i += 1;
        }
        None
    }
}

/// What the cache knows of one worker.
#[derive(Clone, Copy, Debug, PartialEq, Eq)]
pub struct WorkerInfo {
    /// The worker's network name.
    pub name: NetworkPublicKey,
}

/// One entry of the worker cache: the worker `id` of the authority with the
/// protocol key `protocol_key`.
#[derive(Clone, Debug, PartialEq, Eq)]
pub struct WorkerEntry {
    pub protocol_key: PublicKey,
    pub id: WorkerId,
    pub info: WorkerInfo,
}

/// The workers of every authority. Where two entries have the same key and
/// worker index, the first one counts.
#[derive(Clone, Debug, PartialEq, Eq)]
pub struct WorkerCache {
    pub workers: Vec<WorkerEntry>,
}

/// The network name of the first of `workers` entered for the worker `id` of
/// the authority with the key `protocol_key`.
pub open spec fn worker_name_of(workers: Seq<WorkerEntry>, protocol_key: Seq<u8>, id: WorkerId) -> Option<
    Seq<u8>,
>
    decreases workers.len(),
{
    if workers.len() == 0 {
        None
    } else if workers[0].protocol_key@ == protocol_key && workers[0].id == id {
        Some(workers[0].info.name@)
    } else {
        worker_name_of(workers.skip(1), protocol_key, id)
    }
}

impl WorkerCache {
    pub fn new(workers: Vec<WorkerEntry>) -> (cache: WorkerCache)
        ensures
            cache.workers == workers,
    {
        WorkerCache { workers }
    }

    /// The network name of a worker as a specification value.
    pub open spec fn spec_worker_name(self, protocol_key: Seq<u8>, id: WorkerId) -> Option<Seq<u8>> {
        worker_name_of(self.workers@, protocol_key, id)
    }

    /// What the cache knows of the worker `id` of the authority with the key
    /// `protocol_key`, if it has an entry for it.
    pub fn worker(&self, protocol_key: &PublicKey, id: &WorkerId) -> (found: Option<WorkerInfo>)
        ensures
            match found {
                Some(info) => self.spec_worker_name(protocol_key@, *id) == Some(info.name@),
                None => self.spec_worker_name(protocol_key@, *id) is None,
            },
    {
        let mut i: usize = 0;
        assert(self.workers@.skip(0) =~= self.workers@);
        while i < self.workers.len()
            invariant
                i <= self.workers.len(),
                worker_name_of(self.workers@, protocol_key@, *id) == worker_name_of(
                    self.workers@.skip(i as int),
                    protocol_key@,
                    *id,
                ),
            decreases self.workers.len() - i,
        {
            proof {
                assert(self.workers@.skip(i as int).skip(1) =~= self.workers@.skip(i + 1));
            }
            if self.workers[i].id == *id && same_bytes(&self.workers[i].protocol_key.0, &protocol_key.0) {
                return Some(self.workers[i].info);
            }
            i += 1;
        }
        None
    }
}

} // verus!
