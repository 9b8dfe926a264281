//! Fixed-denomination pools: creation, configuration and deposits.
use vstd::prelude::*;
use crate::bytes::{bytes32_eq, zero32};
use crate::errors::SolanaVeilError;
use crate::nullifier::NullifierSet;
use crate::tree::{initialize_tree, valid_depth, MerkleTree};

verus! {

/// The highest withdrawal fee cap a pool may have, in basis points.
pub const MAX_FEE_CAP_BP: u16 = 500;

/// The withdrawal fee cap of a new pool, in basis points.
pub const DEFAULT_FEE_CAP_BP: u16 = 200;

/// One whole, in basis points.
pub const BASIS_POINTS: u64 = 10000;

/// A pool of one denomination (and one asset, if tokenized).
pub struct Pool {
    pub authority: [u8; 32],
    pub denomination: u64,
    /// The token's mint; `None` for the native asset.
    pub mint: Option<[u8; 32]>,
    pub token_vault: [u8; 32],
    pub max_fee_basis_points: u16,
    pub min_withdrawal_amount: u64,
    pub is_active: bool,
    pub deposit_count: u64,
    pub total_deposited: u64,
    pub total_withdrawn: u64,
    pub tree: MerkleTree,
    pub nullifiers: NullifierSet,
}

impl Pool {
    pub open spec fn wf(&self) -> bool {
        &&& self.denomination > 0
        &&& self.max_fee_basis_points <= MAX_FEE_CAP_BP
        &&& self.min_withdrawal_amount <= self.denomination
        &&& self.tree.wf()
        &&& self.nullifiers.wf()
        &&& self.total_deposited == self.denomination * self.deposit_count
        &&& self.total_withdrawn == self.denomination * self.nullifiers.records@.len()
    }
}

/// What a deposit emits: the leaf it became and the amount moved into the
/// vault.
#[derive(Debug, Clone, Copy, PartialEq, Eq)]
pub struct DepositEvent {
    pub commitment: [u8; 32],
    pub leaf_index: u64,
    pub amount: u64,
    pub timestamp: i64,
}

/// `a` and `b` agree on everything but the accumulator, the nullifiers and
/// the running totals.
pub open spec fn same_config(a: Pool, b: Pool) -> bool {
    &&& b.authority == a.authority
    &&& b.denomination == a.denomination
    &&& b.mint == a.mint
    &&& b.token_vault == a.token_vault
    &&& b.max_fee_basis_points == a.max_fee_basis_points
    &&& b.min_withdrawal_amount == a.min_withdrawal_amount
    &&& b.is_active == a.is_active
}

/// Creates an active, empty pool with the default fee cap and a minimum
/// withdrawal of a tenth of the denomination.
pub fn initialize_pool(
    authority: [u8; 32],
    denomination: u64,
    max_depth: u8,
    mint: Option<[u8; 32]>,
    token_vault: [u8; 32],
) -> (r: Result<Pool, SolanaVeilError>)
    ensures
        denomination == 0 ==> r == Err::<Pool, SolanaVeilError>(
            SolanaVeilError::InvalidDenomination,
        ),
        denomination > 0 && !valid_depth(max_depth) ==> r == Err::<Pool, SolanaVeilError>(
            SolanaVeilError::InvalidTreeDepth,
        ),
        denomination > 0 && valid_depth(max_depth) ==> r is Ok,
        r matches Ok(p) ==> {
            &&& p.wf()
            &&& p.authority == authority
            &&& p.denomination == denomination
            &&& p.mint == mint
            &&& p.token_vault == token_vault
            &&& p.max_fee_basis_points == DEFAULT_FEE_CAP_BP
            &&& p.min_withdrawal_amount == denomination / 10
            &&& p.is_active
            &&& p.deposit_count == 0
            &&& p.total_deposited == 0
            &&& p.total_withdrawn == 0
            &&& p.tree.max_depth == max_depth
            &&& p.tree.authority == authority
            &&& p.tree.num_leaves == 0
            &&& p.tree.root@ == zero32()
            &&& p.tree.root_history@ == seq![p.tree.root]
            &&& p.nullifiers.records@.len() == 0
        },
{
    if denomination == 0 {
        return Err(SolanaVeilError::InvalidDenomination);
    }
    let tree = match initialize_tree(authority, max_depth) {
        Ok(t) => t,
        Err(e) => return Err(e),
    };
    Ok(
        Pool {
            authority,
            denomination,
            mint,
            token_vault,
            max_fee_basis_points: DEFAULT_FEE_CAP_BP,
            min_withdrawal_amount: denomination / 10,
            is_active: true,
            deposit_count: 0,
            total_deposited: 0,
            total_withdrawn: 0,
            tree,
            nullifiers: NullifierSet::new(),
        },
    )
}

/// Why a configuration update is refused, if it is.
pub open spec fn update_pool_error(
    pool: Pool,
    caller: [u8; 32],
    max_fee_basis_points: Option<u16>,
    min_withdrawal_amount: Option<u64>,
) -> Option<SolanaVeilError> {
    if caller != pool.authority {
        Some(SolanaVeilError::Unauthorized)
    } else if max_fee_basis_points matches Some(f) && f > MAX_FEE_CAP_BP {
        Some(SolanaVeilError::FeeTooHigh)
    } else if min_withdrawal_amount matches Some(m) && m > pool.denomination {
        Some(SolanaVeilError::InvalidDenomination)
    } else {
        None
    }
}

/// The value an optional update leaves.
pub open spec fn updated<T>(new: Option<T>, current: T) -> T {
    match new {
        Some(v) => v,
        None => current,
    }
}

/// Changes the fee cap, the minimum withdrawal and the active flag; each
/// `None` leaves its setting as it is. Only the pool's authority may do so,
/// and nothing changes unless every given value is acceptable.
pub fn update_pool_config(
    pool: &mut Pool,
    caller: &[u8; 32],
    max_fee_basis_points: Option<u16>,
    min_withdrawal_amount: Option<u64>,
    is_active: Option<bool>,
) -> (r: Result<(), SolanaVeilError>)
    requires
        old(pool).wf(),
    ensures
        final(pool).wf(),
        update_pool_error(*old(pool), *caller, max_fee_basis_points, min_withdrawal_amount)
            matches Some(e) ==> r == Err::<(), SolanaVeilError>(e) && *final(pool) == *old(
            pool,
        ),
        update_pool_error(*old(pool), *caller, max_fee_basis_points, min_withdrawal_amount)
            is None ==> r is Ok && *final(pool) == (Pool {
            max_fee_basis_points: updated(max_fee_basis_points, old(pool).max_fee_basis_points),
            min_withdrawal_amount: updated(min_withdrawal_amount, old(pool).min_withdrawal_amount),
            is_active: updated(is_active, old(pool).is_active),
            ..*old(pool)
        }),
{
    if !bytes32_eq(caller, &pool.authority) {
        return Err(SolanaVeilError::Unauthorized);
    }
    if let Some(f) = max_fee_basis_points {
        if f > MAX_FEE_CAP_BP {
            return Err(SolanaVeilError::FeeTooHigh);
        }
    }
    if let Some(m) = min_withdrawal_amount {
        if m > pool.denomination {
            return Err(SolanaVeilError::InvalidDenomination);
        }
    }
    if let Some(f) = max_fee_basis_points {
        pool.max_fee_basis_points = f;
    }
    if let Some(m) = min_withdrawal_amount {
        pool.min_withdrawal_amount = m;
    }
    if let Some(a) = is_active {
        pool.is_active = a;
    }
    Ok(())
}

/// Why a deposit is refused, if it is: checked in this order.
pub open spec fn deposit_error(pool: Pool, depositor_balance: u64) -> Option<SolanaVeilError> {
    if !pool.is_active {
        Some(SolanaVeilError::PoolInactive)
    } else if depositor_balance < pool.denomination {
        Some(SolanaVeilError::InsufficientFunds)
    } else if pool.tree.is_full_spec() {
        Some(SolanaVeilError::MerkleTreeFull)
    } else if pool.total_deposited + pool.denomination > u64::MAX {
        Some(SolanaVeilError::CalculationError)
    } else {
        None
    }
}

/// `new` is `old` after `commitment` was deposited.
pub open spec fn deposited(old: Pool, new: Pool, commitment: [u8; 32]) -> bool {
    &&& same_config(old, new)
    &&& new.tree.leaves@ == old.tree.leaves@.push(commitment)
    &&& new.tree.num_leaves == old.tree.num_leaves + 1
    &&& new.tree.root_history == old.tree.root_history
    &&& new.tree.root == old.tree.root
    &&& new.tree.max_depth == old.tree.max_depth
    &&& new.tree.authority == old.tree.authority
    &&& new.nullifiers == old.nullifiers
    &&& new.deposit_count == old.deposit_count + 1
    &&& new.total_deposited == old.total_deposited + old.denomination
    &&& new.total_withdrawn == old.total_withdrawn
}

/// A successful deposit of `commitment` took `old` to `new` and emitted `ev`.
pub open spec fn deposit_step(old: Pool, new: Pool, commitment: [u8; 32], ev: DepositEvent) -> bool {
    &&& ev.commitment == commitment
    &&& ev.leaf_index == old.tree.num_leaves
    &&& ev.amount == old.denomination
    &&& deposited(old, new, commitment)
}

/// Deposits exactly one denomination under `commitment`: the commitment
/// becomes the next leaf of the pool's accumulator. `depositor_balance` is
/// what the depositor holds of the pool's asset; the caller moves the event's
/// amount from the depositor into the vault.
pub fn deposit(pool: &mut Pool, commitment: [u8; 32], depositor_balance: u64, timestamp: i64) -> (r:
    Result<DepositEvent, SolanaVeilError>)
    requires
        old(pool).wf(),
    ensures
        final(pool).wf(),
        deposit_error(*old(pool), depositor_balance) matches Some(e) ==> r == Err::<
            DepositEvent,
            SolanaVeilError,
        >(e) && *final(pool) == *old(pool),
        deposit_error(*old(pool), depositor_balance) is None ==> r == Ok::<
            DepositEvent,
            SolanaVeilError,
        >(
            DepositEvent {
                commitment,
                leaf_index: old(pool).tree.num_leaves,
                amount: old(pool).denomination,
                timestamp,
            },
        ) && deposited(*old(pool), *final(pool), commitment),
        r matches Ok(ev) ==> deposit_step(*old(pool), *final(pool), commitment, ev),
{
    if !pool.is_active {
        return Err(SolanaVeilError::PoolInactive);
    }
    let denomination = pool.denomination;
    if depositor_balance < denomination {
        return Err(SolanaVeilError::InsufficientFunds);
    }
    if pool.tree.is_full() {
        return Err(SolanaVeilError::MerkleTreeFull);
    }
    let total = match pool.total_deposited.checked_add(denomination) {
        Some(t) => t,
        None => return Err(SolanaVeilError::CalculationError),
    };
    proof {
        let c = pool.deposit_count as int;
        let d = denomination as int;
        assert(d * c >= c) by (nonlinear_arith)
            requires
                d >= 1,
                c >= 0,
        ;
        assert(d * (c + 1) == d * c + d) by (nonlinear_arith);
    }
    let leaf_index = match pool.tree.append(commitment) {
        Ok(i) => i,
        Err(e) => return Err(e),
    };
    pool.total_deposited = total;
    pool.deposit_count = pool.deposit_count + 1;
    Ok(DepositEvent { commitment, leaf_index, amount: denomination, timestamp })
}

/// A deposit into an active pool by a depositor who holds a denomination,
/// while the running total has room, succeeds exactly when the accumulator
/// has room: the deposit that takes the last leaf, index `2^depth - 1`,
/// succeeds, and the next one fails with `MerkleTreeFull`.
pub proof fn lemma_deposit_capacity(pool: Pool, depositor_balance: u64)
    requires
        pool.wf(),
        pool.is_active,
        depositor_balance >= pool.denomination,
        pool.total_deposited + pool.denomination <= u64::MAX,
    ensures
        deposit_error(pool, depositor_balance) is None <==> pool.tree.num_leaves
            < pool.tree.capacity(),
        pool.tree.num_leaves + 1 == pool.tree.capacity() ==> deposit_error(
            pool,
            depositor_balance,
        ) is None,
        pool.tree.num_leaves == pool.tree.capacity() ==> deposit_error(pool, depositor_balance)
            == Some(SolanaVeilError::MerkleTreeFull),
{
}

/// What `k` successful deposits into an empty pool leave.
proof fn lemma_deposit_prefix(
    states: Seq<Pool>,
    commitments: Seq<[u8; 32]>,
    events: Seq<DepositEvent>,
    k: int,
)
    requires
        states.len() == commitments.len() + 1,
        events.len() == commitments.len(),
        states[0].tree.num_leaves == 0,
        states[0].tree.leaves@.len() == 0,
        states[0].total_deposited == 0,
        states[0].deposit_count == 0,
        forall|i: int|
            0 <= i < commitments.len() ==> #[trigger] deposit_step(
                states[i],
                states[i + 1],
                commitments[i],
                events[i],
            ),
        0 <= k <= commitments.len(),
    ensures
        states[k].denomination == states[0].denomination,
        states[k].tree.num_leaves == k,
        states[k].tree.leaves@ == commitments.subrange(0, k),
        states[k].deposit_count == k,
        states[k].total_deposited == states[0].denomination * k,
    decreases k,
{
    if k == 0 {
        assert(states[0].tree.leaves@ =~= commitments.subrange(0, 0));
    } else {
        lemma_deposit_prefix(states, commitments, events, k - 1);
        let j = k - 1;
        assert(deposit_step(states[j], states[j + 1], commitments[j], events[j]));
        assert(commitments.subrange(0, k) =~= commitments.subrange(0, k - 1).push(
            commitments[k - 1],
        ));
        let d = states[0].denomination as int;
        assert(d * (k - 1) + d == d * k) by (nonlinear_arith);
    }
}

/// Deposits into an empty pool are assigned leaf indices 0, 1, 2, ... in
/// order, leaf `i` holds the `i`-th commitment, and after `k` deposits the
/// pool has taken in exactly `k` denominations.
pub proof fn lemma_deposit_indices(
    states: Seq<Pool>,
    commitments: Seq<[u8; 32]>,
    events: Seq<DepositEvent>,
)
    requires
        states.len() == commitments.len() + 1,
        events.len() == commitments.len(),
        states[0].tree.num_leaves == 0,
        states[0].tree.leaves@.len() == 0,
        states[0].total_deposited == 0,
        states[0].deposit_count == 0,
        forall|i: int|
            0 <= i < commitments.len() ==> #[trigger] deposit_step(
                states[i],
                states[i + 1],
                commitments[i],
                events[i],
            ),
    ensures
        forall|i: int| 0 <= i < events.len() ==> #[trigger] events[i].leaf_index == i,
        forall|k: int|
            0 <= k < states.len() ==> #[trigger] states[k].total_deposited == states[0].denomination
                * states[k].deposit_count && states[k].deposit_count == k,
        states.last().tree.leaves@ == commitments,
{
    assert forall|i: int| 0 <= i < events.len() implies #[trigger] events[i].leaf_index == i by {
        lemma_deposit_prefix(states, commitments, events, i);
        assert(deposit_step(states[i], states[i + 1], commitments[i], events[i]));
    }
    assert forall|k: int| 0 <= k < states.len() implies #[trigger] states[k].total_deposited
        == states[0].denomination * states[k].deposit_count && states[k].deposit_count == k by {
        lemma_deposit_prefix(states, commitments, events, k);
    }
    lemma_deposit_prefix(states, commitments, events, commitments.len() as int);
    assert(commitments.subrange(0, commitments.len() as int) =~= commitments);
}

} // verus!
