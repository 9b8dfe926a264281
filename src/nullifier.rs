//! The spent-nullifier set of a pool: insert-once records.
use vstd::prelude::*;
use crate::bytes::bytes32_eq;
use crate::errors::SolanaVeilError;

verus! {

/// The record of a spent nullifier hash.
#[derive(Debug, Clone, Copy, PartialEq, Eq)]
pub struct Nullifier {
    pub is_spent: bool,
    pub nullifier_hash: [u8; 32],
    pub spent_at: i64,
    pub recipient: [u8; 32],
}

/// The nullifier records of one pool, at most one per hash.
pub struct NullifierSet {
    pub records: Vec<Nullifier>,
}

impl NullifierSet {
    /// The spent hashes, in the order they were spent.
    pub open spec fn hashes(&self) -> Seq<[u8; 32]> {
        self.records@.map_values(|n: Nullifier| n.nullifier_hash)
    }

    pub open spec fn is_spent(&self, hash: [u8; 32]) -> bool {
        self.hashes().contains(hash)
    }

    pub open spec fn wf(&self) -> bool {
        &&& self.hashes().no_duplicates()
        &&& forall|i: int| 0 <= i < self.records@.len() ==> #[trigger] self.records@[i].is_spent
    }

    pub fn new() -> (r: NullifierSet)
        ensures
            r.wf(),
            r.records@.len() == 0,
    {
        NullifierSet { records: Vec::new() }
    }

    /// Whether `hash` was spent.
    pub fn contains(&self, hash: &[u8; 32]) -> (r: bool)
        ensures
            r == self.is_spent(*hash),
    {
        let mut i: usize = 0;
        while i < self.records.len()
            invariant
                0 <= i <= self.records@.len(),
                forall|j: int| 0 <= j < i ==> self.hashes()[j] != *hash,
            decreases self.records@.len() - i,
        {
            if bytes32_eq(&self.records[i].nullifier_hash, hash) {
                assert(self.hashes()[i as int] == *hash);
                return true;
            }
            i += 1;
        }
        false
    }

    /// Marks `hash` spent, unless it already was.
    pub fn insert(&mut self, hash: [u8; 32], recipient: [u8; 32], spent_at: i64) -> (r: Result<
        (),
        SolanaVeilError,
    >)
        requires
            old(self).wf(),
        ensures
            final(self).wf(),
            old(self).is_spent(hash) <==> r is Err,
            r is Err ==> r == Err::<(), SolanaVeilError>(SolanaVeilError::NullifierAlreadySpent)
                && *final(self) == *old(self),
            r is Ok ==> final(self).records@ == old(self).records@.push(
                Nullifier { is_spent: true, nullifier_hash: hash, spent_at, recipient },
            ),
    {
        if self.contains(&hash) {
            return Err(SolanaVeilError::NullifierAlreadySpent);
        }
        let record = Nullifier { is_spent: true, nullifier_hash: hash, spent_at, recipient };
        self.records.push(record);
        assert(self.hashes() =~= old(self).hashes().push(hash));
        Ok(())
    }
}

} // verus!
