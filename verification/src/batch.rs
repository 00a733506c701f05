//! Batches of transactions and the digests that identify them.

use fastcrypto::hash::{Blake2b256, HashFunction};
use vstd::prelude::*;

verus! {

/// Number of bytes in a batch digest.
pub const DIGEST_LENGTH: usize = 32;

/// The BLAKE2b-256 hash of the given byte strings, fed to the hash function
/// one after the other.
pub uninterp spec fn blake2b_256(chunks: Seq<Seq<u8>>) -> Seq<u8>;

/// Calls `Blake2b256::digest_iterator` of `fastcrypto` on the transactions in
/// order. The hash is a function of the bytes alone, so the contract names it
/// `blake2b_256` and says nothing more of it.
#[verifier::external_body]
fn hash_transactions(transactions: &Vec<Vec<u8>>) -> (out: [u8; DIGEST_LENGTH])
    ensures
        out@ == blake2b_256(transactions.deep_view()),
{
    Blake2b256::digest_iterator(transactions.iter()).digest
}

/// Total number of bytes in a sequence of transactions.
pub open spec fn total_len(transactions: Seq<Seq<u8>>) -> nat
    decreases transactions.len(),
{
    if transactions.len() == 0 {
        0
    } else {
        total_len(transactions.drop_last()) + transactions.last().len()
    }
}

/// A prefix of a sequence of transactions holds no more bytes than the whole.
pub proof fn lemma_total_len_prefix(transactions: Seq<Seq<u8>>, n: int)
    requires
        0 <= n <= transactions.len(),
    ensures
        total_len(transactions.take(n)) <= total_len(transactions),
    decreases transactions.len(),
{
    if n == transactions.len() {
        assert(transactions.take(n) =~= transactions);
    } else {
        lemma_total_len_prefix(transactions.drop_last(), n);
        assert(transactions.drop_last().take(n) =~= transactions.take(n));
    }
}

/// The fixed-width hash that identifies a batch.
#[derive(Clone, Copy, Debug, PartialEq, Eq, Hash)]
pub struct BatchDigest(pub [u8; DIGEST_LENGTH]);

impl View for BatchDigest {
    type V = Seq<u8>;

    open spec fn view(&self) -> Seq<u8> {
        self.0@
    }
}

impl BatchDigest {
    pub fn new(bytes: [u8; DIGEST_LENGTH]) -> (digest: BatchDigest)
        ensures
            digest@ == bytes@,
    {
        BatchDigest(bytes)
    }

    /// Whether two digests hold the same bytes.
    pub fn same(&self, other: &BatchDigest) -> (equal: bool)
        ensures
            equal == (self@ == other@),
    {
        let mut i: usize = 0;
        while i < DIGEST_LENGTH
            invariant
                i <= DIGEST_LENGTH,
                forall|j: int| 0 <= j < i ==> self.0@[j] == other.0@[j],
            decreases DIGEST_LENGTH - i,
        {
            if self.0[i] != other.0[i] {
                return false;
            }
            i += 1;
        }
        assert(self.0@ =~= other.0@);
        true
    }
}

/// An ordered sequence of transactions, each a string of bytes.
#[derive(Clone, Debug, PartialEq, Eq)]
pub struct Batch {
    pub transactions: Vec<Vec<u8>>,
}

impl View for Batch {
    type V = Seq<Seq<u8>>;

    open spec fn view(&self) -> Seq<Seq<u8>> {
        self.transactions.deep_view()
    }
}

impl Batch {
    pub fn new(transactions: Vec<Vec<u8>>) -> (batch: Batch)
        ensures
            batch@ == transactions.deep_view(),
    {
        Batch { transactions }
    }

    /// The digest of this batch as a specification value.
    pub open spec fn spec_digest(self) -> Seq<u8> {
        blake2b_256(self@)
    }

    /// The number of bytes that the batch's transactions hold together.
    pub open spec fn spec_size(self) -> nat {
        total_len(self@)
    }

    /// The digest of the batch: the hash of its transactions in order.
    pub fn digest(&self) -> (digest: BatchDigest)
        ensures
            digest@ == self.spec_digest(),
    {
        BatchDigest(hash_transactions(&self.transactions))
    }

    /// The size of the batch in bytes, or `usize::MAX` where the true size is
    /// larger than that.
    pub fn size(&self) -> (size: usize)
        ensures
            size == if self.spec_size() <= usize::MAX { self.spec_size() } else { usize::MAX as nat },
    {
        let mut total: usize = 0;
        let mut i: usize = 0;
        while i < self.transactions.len()
            invariant
                i <= self.transactions.len(),
                total == total_len(self@.take(i as int)),
            decreases self.transactions.len() - i,
        {
            let len: usize = self.transactions[i].len();
            proof {
                let next = self@.take(i + 1);
                assert(next.drop_last() =~= self@.take(i as int));
                assert(next.last() == self@[i as int]);
                assert(self@[i as int] == self.transactions@[i as int]@);
                lemma_total_len_prefix(self@, i + 1);
            }
            if len > usize::MAX - total {
                return usize::MAX;
            }
            total = total + len;
            i += 1;
        }
        assert(self@.take(i as int) =~= self@);
        total
    }
}

/// The digests in `digests` as byte strings, in the same order.
pub open spec fn digest_views(digests: Seq<BatchDigest>) -> Seq<Seq<u8>> {
    Seq::new(digests.len(), |i: int| digests[i]@)
}

/// The batches in `batches` as sequences of transactions, in the same order.
pub open spec fn batch_views(batches: Seq<Batch>) -> Seq<Seq<Seq<u8>>> {
    Seq::new(batches.len(), |i: int| batches[i]@)
}

} // verus!
