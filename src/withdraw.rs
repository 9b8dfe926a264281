//! Proof-gated withdrawals.
use vstd::prelude::*;
use crate::errors::SolanaVeilError;
use crate::nullifier::Nullifier;
use crate::pool::{same_config, Pool, BASIS_POINTS};
use crate::proof_gate::{
    all_canonical,
    build_withdrawal_inputs,
    groth16_accepts,
    is_canonical,
    lemma_u64_word_canonical,
    u64_word,
    verify_bridge_proof,
    withdrawal_inputs,
    word_is_canonical,
};
use crate::relayer::Relayer;

verus! {

/// What a withdrawal emits: the caller moves `amount` from the vault to the
/// recipient and, when `fee` is positive, `fee` to `relayer`.
#[derive(Debug, Clone, Copy, PartialEq, Eq)]
pub struct WithdrawEvent {
    pub nullifier_hash: [u8; 32],
    pub recipient: [u8; 32],
    pub relayer: [u8; 32],
    pub fee: u64,
    pub amount: u64,
    pub timestamp: i64,
}

/// The largest fee a pool lets a relayer take: `denomination * cap / 10000`,
/// rounded down.
pub open spec fn max_fee(denomination: u64, cap_bp: u16) -> int {
    (denomination as int * cap_bp as int) / (BASIS_POINTS as int)
}

/// Whether the address words of a withdrawal's public inputs are canonical
/// scalar encodings; the fee word always is.
pub open spec fn inputs_canonical(
    root: [u8; 32],
    nullifier_hash: [u8; 32],
    recipient: [u8; 32],
    relayer: [u8; 32],
) -> bool {
    &&& is_canonical(root@)
    &&& is_canonical(nullifier_hash@)
    &&& is_canonical(recipient@)
    &&& is_canonical(relayer@)
}

/// The checks made before the proof is looked at, in this order; on success
/// the net amount that reaches the recipient.
pub open spec fn withdraw_precheck(
    pool: Pool,
    root: [u8; 32],
    nullifier_hash: [u8; 32],
    fee: u64,
) -> Result<u64, SolanaVeilError> {
    if !pool.is_active {
        Err(SolanaVeilError::PoolInactive)
    } else if !pool.tree.knows_root(root) {
        Err(SolanaVeilError::InvalidMerkleRoot)
    } else if fee > pool.denomination || fee > max_fee(pool.denomination, pool.max_fee_basis_points) {
        Err(SolanaVeilError::FeeTooHigh)
    } else if pool.denomination - fee < pool.min_withdrawal_amount {
        Err(SolanaVeilError::WithdrawalAmountTooLow)
    } else if pool.nullifiers.is_spent(nullifier_hash) {
        Err(SolanaVeilError::NullifierAlreadySpent)
    } else {
        Ok((pool.denomination - fee) as u64)
    }
}

/// Whether the relayer's statistics can take a withdrawal of `net` with
/// `fee` without overflow.
pub open spec fn relayer_credit_fits(relayer: Option<Relayer>, net: u64, fee: u64) -> bool {
    match relayer {
        Some(r) => fee == 0 || (r.total_relayed + net <= u64::MAX && r.total_fees + fee
            <= u64::MAX),
        None => true,
    }
}

/// The relayer's statistics after a withdrawal of `net` with `fee`.
pub open spec fn credited(relayer: Option<Relayer>, net: u64, fee: u64) -> Option<Relayer> {
    match relayer {
        Some(r) => if fee > 0 {
            Some(
                Relayer {
                    total_relayed: (r.total_relayed + net) as u64,
                    total_fees: (r.total_fees + fee) as u64,
                    ..r
                },
            )
        } else {
            relayer
        },
        None => relayer,
    }
}

/// The outcome of a withdrawal; `proof_accepted` says whether its proof
/// verified. `stats` is the fee recipient's statistics record, if it has
/// one. Public inputs that are not canonical scalar encodings make the proof
/// invalid: otherwise several byte strings, each unspent, would stand for
/// one nullifier.
pub open spec fn withdraw_result(
    pool: Pool,
    stats: Option<Relayer>,
    root: [u8; 32],
    nullifier_hash: [u8; 32],
    recipient: [u8; 32],
    relayer: [u8; 32],
    fee: u64,
    timestamp: i64,
    proof_accepted: bool,
) -> Result<WithdrawEvent, SolanaVeilError> {
    match withdraw_precheck(pool, root, nullifier_hash, fee) {
        Err(e) => Err(e),
        Ok(net) => if !(inputs_canonical(root, nullifier_hash, recipient, relayer)
            && proof_accepted) {
            Err(SolanaVeilError::InvalidProof)
        } else if pool.total_withdrawn + pool.denomination > u64::MAX || !relayer_credit_fits(
            stats,
            net,
            fee,
        ) {
            Err(SolanaVeilError::CalculationError)
        } else {
            Ok(
                WithdrawEvent {
                    nullifier_hash,
                    recipient,
                    relayer,
                    fee,
                    amount: net,
                    timestamp,
                },
            )
        },
    }
}

/// `new` is `old` after the withdrawal with `nullifier_hash` was paid out.
pub open spec fn withdrawn(
    old: Pool,
    new: Pool,
    nullifier_hash: [u8; 32],
    recipient: [u8; 32],
    timestamp: i64,
) -> bool {
    &&& same_config(old, new)
    &&& new.tree == old.tree
    &&& new.nullifiers.records@ == old.nullifiers.records@.push(
        Nullifier { is_spent: true, nullifier_hash, spent_at: timestamp, recipient },
    )
    &&& new.deposit_count == old.deposit_count
    &&& new.total_deposited == old.total_deposited
    &&& new.total_withdrawn == old.total_withdrawn + old.denomination
}

/// How the pool and the relayer's statistics relate before and after a
/// withdrawal with outcome `r`: untouched on failure.
pub open spec fn withdraw_post(
    old_pool: Pool,
    new_pool: Pool,
    old_relayer: Option<Relayer>,
    new_relayer: Option<Relayer>,
    nullifier_hash: [u8; 32],
    recipient: [u8; 32],
    fee: u64,
    timestamp: i64,
    r: Result<WithdrawEvent, SolanaVeilError>,
) -> bool {
    match r {
        Err(_) => new_pool == old_pool && new_relayer == old_relayer,
        Ok(ev) => withdrawn(old_pool, new_pool, nullifier_hash, recipient, timestamp)
            && new_relayer == credited(old_relayer, ev.amount, fee),
    }
}

/// The checks made before the proof is looked at: returns the net amount,
/// or why the withdrawal is refused.
pub fn check_withdrawal(
    pool: &Pool,
    root: &[u8; 32],
    nullifier_hash: &[u8; 32],
    fee: u64,
) -> (r: Result<u64, SolanaVeilError>)
    requires
        pool.wf(),
    ensures
        r == withdraw_precheck(*pool, *root, *nullifier_hash, fee),
{
    if !pool.is_active {
        return Err(SolanaVeilError::PoolInactive);
    }
    if !pool.tree.is_known_root(root) {
        return Err(SolanaVeilError::InvalidMerkleRoot);
    }
    let denomination = pool.denomination;
    let cap = pool.max_fee_basis_points;
    proof {
        let d = denomination as int;
        let c = cap as int;
        assert(0 <= d * c <= 0xffff_ffff_ffff_ffff * 500) by (nonlinear_arith)
            requires
                0 <= d <= 0xffff_ffff_ffff_ffff,
                0 <= c <= 500,
        ;
        assert(d * c / 10000 <= d) by (nonlinear_arith)
            requires
                0 <= d,
                0 <= c <= 500,
        ;
    }
    let limit = ((denomination as u128) * (cap as u128) / (BASIS_POINTS as u128)) as u64;
    if fee > denomination || fee > limit {
        return Err(SolanaVeilError::FeeTooHigh);
    }
    let net = denomination - fee;
    if net < pool.min_withdrawal_amount {
        return Err(SolanaVeilError::WithdrawalAmountTooLow);
    }
    if pool.nullifiers.contains(nullifier_hash) {
        return Err(SolanaVeilError::NullifierAlreadySpent);
    }
    Ok(net)
}

/// Completes a withdrawal; `proof_accepted` says whether its proof
/// verified. Spends the nullifier hash, updates the totals and, when a fee
/// is paid, the relayer's statistics record if there is one; returns the
/// payout. Nothing changes on failure.
pub fn settle_withdrawal(
    pool: &mut Pool,
    stats: &mut Option<Relayer>,
    root: [u8; 32],
    nullifier_hash: [u8; 32],
    recipient: [u8; 32],
    relayer: [u8; 32],
    fee: u64,
    timestamp: i64,
    proof_accepted: bool,
) -> (r: Result<WithdrawEvent, SolanaVeilError>)
    requires
        old(pool).wf(),
    ensures
        final(pool).wf(),
        r == withdraw_result(
            *old(pool),
            *old(stats),
            root,
            nullifier_hash,
            recipient,
            relayer,
            fee,
            timestamp,
            proof_accepted,
        ),
        withdraw_post(
            *old(pool),
            *final(pool),
            *old(stats),
            *final(stats),
            nullifier_hash,
            recipient,
            fee,
            timestamp,
            r,
        ),
{
    let net = match check_withdrawal(pool, &root, &nullifier_hash, fee) {
        Ok(n) => n,
        Err(e) => return Err(e),
    };
    let canonical = word_is_canonical(&root) && word_is_canonical(&nullifier_hash)
        && word_is_canonical(&recipient) && word_is_canonical(&relayer);
    if !(canonical && proof_accepted) {
        return Err(SolanaVeilError::InvalidProof);
    }
    let denomination = pool.denomination;
    let total = match pool.total_withdrawn.checked_add(denomination) {
        Some(t) => t,
        None => return Err(SolanaVeilError::CalculationError),
    };
    let mut new_stats: Option<Relayer> = *stats;
    if let Some(rl) = *stats {
        if fee > 0 {
            let relayed = match rl.total_relayed.checked_add(net) {
                Some(v) => v,
                None => return Err(SolanaVeilError::CalculationError),
            };
            let fees = match rl.total_fees.checked_add(fee) {
                Some(v) => v,
                None => return Err(SolanaVeilError::CalculationError),
            };
            new_stats = Some(Relayer { total_relayed: relayed, total_fees: fees, ..rl });
        }
    }
    proof {
        let n = pool.nullifiers.records@.len() as int;
        let d = denomination as int;
        assert(d * (n + 1) == d * n + d) by (nonlinear_arith);
    }
    match pool.nullifiers.insert(nullifier_hash, recipient, timestamp) {
        Ok(()) => {},
        Err(e) => return Err(e),
    }
    pool.total_withdrawn = total;
    *stats = new_stats;
    Ok(
        WithdrawEvent {
            nullifier_hash,
            recipient,
            relayer,
            fee,
            amount: net,
            timestamp,
        },
    )
}

/// Withdraws one deposit: checks the pool, the root, the fee and the
/// nullifier hash, verifies the proof against the public inputs
/// `[root, nullifier_hash, recipient, relayer, fee]`, then settles. The fee
/// goes to `relayer`; `stats` is its statistics record, if it has one.
pub fn withdraw(
    pool: &mut Pool,
    stats: &mut Option<Relayer>,
    proof_data: &[u8],
    verifying_key: &[u8],
    root: [u8; 32],
    nullifier_hash: [u8; 32],
    recipient: [u8; 32],
    relayer: [u8; 32],
    fee: u64,
    timestamp: i64,
) -> (r: Result<WithdrawEvent, SolanaVeilError>)
    requires
        old(pool).wf(),
    ensures
        final(pool).wf(),
        r == withdraw_result(
            *old(pool),
            *old(stats),
            root,
            nullifier_hash,
            recipient,
            relayer,
            fee,
            timestamp,
            groth16_accepts(
                proof_data@,
                verifying_key@,
                withdrawal_inputs(root, nullifier_hash, recipient, relayer, fee),
            ),
        ),
        withdraw_post(
            *old(pool),
            *final(pool),
            *old(stats),
            *final(stats),
            nullifier_hash,
            recipient,
            fee,
            timestamp,
            r,
        ),
{
    match check_withdrawal(pool, &root, &nullifier_hash, fee) {
        Ok(_) => {},
        Err(e) => return Err(e),
    }
    let inputs = build_withdrawal_inputs(root, nullifier_hash, recipient, relayer, fee);
    let accepted = verify_bridge_proof(proof_data, verifying_key, inputs.as_slice()).is_ok();
    proof {
        lemma_u64_word_canonical(fee);
        let s = inputs@;
        if inputs_canonical(root, nullifier_hash, recipient, relayer) {
            assert(all_canonical(s)) by {
                assert forall|i: int| 0 <= i < s.len() implies is_canonical(#[trigger] s[i]@) by {
                    if i == 4 {
                        assert(s[4]@ == u64_word(fee));
                    }
                }
            }
        } else {
            assert(!all_canonical(s)) by {
                if all_canonical(s) {
                    assert(is_canonical(s[0]@));
                    assert(is_canonical(s[1]@));
                    assert(is_canonical(s[2]@));
                    assert(is_canonical(s[3]@));
                }
            }
        }
    }
    settle_withdrawal(
        pool,
        stats,
        root,
        nullifier_hash,
        recipient,
        relayer,
        fee,
        timestamp,
        accepted,
    )
}

/// A withdrawal succeeds only if its fee is at most the denomination and at
/// most `denomination * cap / 10000`, the net amount is at least the pool's
/// minimum, and its root, nullifier hash, recipient and relayer are canonical
/// scalar encodings (so one nullifier has one spendable byte string).
pub proof fn lemma_withdraw_fee_limits(
    pool: Pool,
    stats: Option<Relayer>,
    root: [u8; 32],
    nullifier_hash: [u8; 32],
    recipient: [u8; 32],
    relayer: [u8; 32],
    fee: u64,
    timestamp: i64,
    proof_accepted: bool,
)
    ensures
        withdraw_result(
            pool,
            stats,
            root,
            nullifier_hash,
            recipient,
            relayer,
            fee,
            timestamp,
            proof_accepted,
        ) is Ok ==> {
            &&& inputs_canonical(root, nullifier_hash, recipient, relayer)
            &&& fee <= pool.denomination
            &&& fee <= max_fee(pool.denomination, pool.max_fee_basis_points)
            &&& pool.denomination - fee >= pool.min_withdrawal_amount
        },
{
}

/// When every other check passes, the fee limits decide exactly: a fee up
/// to the cap with a net amount down to the minimum, both limits included,
/// succeeds; a fee above the cap fails with `FeeTooHigh`; a net amount below
/// the minimum fails with `WithdrawalAmountTooLow`.
pub proof fn lemma_withdraw_fee_boundary(
    pool: Pool,
    stats: Option<Relayer>,
    root: [u8; 32],
    nullifier_hash: [u8; 32],
    recipient: [u8; 32],
    relayer: [u8; 32],
    fee: u64,
    timestamp: i64,
)
    requires
        pool.wf(),
        pool.is_active,
        pool.tree.knows_root(root),
        !pool.nullifiers.is_spent(nullifier_hash),
        inputs_canonical(root, nullifier_hash, recipient, relayer),
        pool.total_withdrawn + pool.denomination <= u64::MAX,
        stats matches Some(st) ==> st.total_relayed + pool.denomination <= u64::MAX
            && st.total_fees + fee <= u64::MAX,
    ensures
        ({
            let r = withdraw_result(
                pool,
                stats,
                root,
                nullifier_hash,
                recipient,
                relayer,
                fee,
                timestamp,
                true,
            );
            &&& r is Ok <==> fee <= max_fee(pool.denomination, pool.max_fee_basis_points)
                && pool.denomination - fee >= pool.min_withdrawal_amount
            &&& fee > max_fee(pool.denomination, pool.max_fee_basis_points) ==> r == Err::<
                WithdrawEvent,
                SolanaVeilError,
            >(SolanaVeilError::FeeTooHigh)
            &&& fee <= max_fee(pool.denomination, pool.max_fee_basis_points) && pool.denomination
                - fee < pool.min_withdrawal_amount ==> r == Err::<WithdrawEvent, SolanaVeilError>(
                SolanaVeilError::WithdrawalAmountTooLow,
            )
        }),
{
    let d = pool.denomination as int;
    let c = pool.max_fee_basis_points as int;
    assert(d * c / 10000 <= d) by (nonlinear_arith)
        requires
            0 <= d,
            0 <= c <= 500,
    ;
}

/// Right after a withdrawal with a nullifier hash succeeded, the next
/// withdrawal with that hash on the pool fails, whatever its other
/// arguments and whatever the proof.
pub proof fn lemma_spent_hash_refused(
    pre: Pool,
    post: Pool,
    stats: Option<Relayer>,
    stats_after: Option<Relayer>,
    root: [u8; 32],
    nullifier_hash: [u8; 32],
    recipient: [u8; 32],
    relayer: [u8; 32],
    fee: u64,
    timestamp: i64,
    proof_accepted: bool,
    next_stats: Option<Relayer>,
    next_root: [u8; 32],
    next_recipient: [u8; 32],
    next_relayer: [u8; 32],
    next_fee: u64,
    next_timestamp: i64,
    next_proof_accepted: bool,
)
    requires
        withdraw_result(
            pre,
            stats,
            root,
            nullifier_hash,
            recipient,
            relayer,
            fee,
            timestamp,
            proof_accepted,
        ) is Ok,
        withdraw_post(
            pre,
            post,
            stats,
            stats_after,
            nullifier_hash,
            recipient,
            fee,
            timestamp,
            withdraw_result(
                pre,
                stats,
                root,
                nullifier_hash,
                recipient,
                relayer,
                fee,
                timestamp,
                proof_accepted,
            ),
        ),
    ensures
        post.nullifiers.is_spent(nullifier_hash),
        withdraw_result(
            post,
            next_stats,
            next_root,
            nullifier_hash,
            next_recipient,
            next_relayer,
            next_fee,
            next_timestamp,
            next_proof_accepted,
        ) is Err,
{
    let n = pre.nullifiers.hashes().len();
    assert(post.nullifiers.hashes()[n as int] == nullifier_hash);
}

/// A withdrawal with `nullifier_hash` took `pre` to `post` with outcome `r`,
/// whatever its other arguments were.
pub open spec fn withdraw_step(
    pre: Pool,
    post: Pool,
    nullifier_hash: [u8; 32],
    r: Result<WithdrawEvent, SolanaVeilError>,
) -> bool {
    exists|
        stats: Option<Relayer>,
        stats_after: Option<Relayer>,
        root: [u8; 32],
        recipient: [u8; 32],
        relayer: [u8; 32],
        fee: u64,
        timestamp: i64,
        proof_accepted: bool,
    |
        r == withdraw_result(
            pre,
            stats,
            root,
            nullifier_hash,
            recipient,
            relayer,
            fee,
            timestamp,
            proof_accepted,
        ) && withdraw_post(
            pre,
            post,
            stats,
            stats_after,
            nullifier_hash,
            recipient,
            fee,
            timestamp,
            r,
        )
}

/// One step of a pool's history: a withdrawal with `nullifier_hash` and
/// outcome `r`, or, when `is_withdrawal` is false, any operation that leaves
/// the nullifier records alone (a deposit, a configuration update, a new
/// root).
pub open spec fn history_step(
    pre: Pool,
    post: Pool,
    is_withdrawal: bool,
    nullifier_hash: [u8; 32],
    r: Result<WithdrawEvent, SolanaVeilError>,
) -> bool {
    if is_withdrawal {
        withdraw_step(pre, post, nullifier_hash, r)
    } else {
        post.nullifiers == pre.nullifiers
    }
}

/// A spent hash stays spent along a history.
proof fn lemma_spent_persists(
    states: Seq<Pool>,
    kinds: Seq<bool>,
    hashes: Seq<[u8; 32]>,
    results: Seq<Result<WithdrawEvent, SolanaVeilError>>,
    h: [u8; 32],
    i: int,
    k: int,
)
    requires
        states.len() == kinds.len() + 1,
        hashes.len() == kinds.len(),
        results.len() == kinds.len(),
        forall|s: int|
            0 <= s < kinds.len() ==> #[trigger] history_step(
                states[s],
                states[s + 1],
                kinds[s],
                hashes[s],
                results[s],
            ),
        0 <= i <= k < states.len(),
        states[i].nullifiers.is_spent(h),
    ensures
        states[k].nullifiers.is_spent(h),
    decreases k - i,
{
    if k > i {
        lemma_spent_persists(states, kinds, hashes, results, h, i, k - 1);
        let s = k - 1;
        assert(history_step(states[s], states[s + 1], kinds[s], hashes[s], results[s]));
        let pre = states[s];
        let post = states[s + 1];
        if kinds[s] && results[s] is Ok {
            let idx = choose|j: int| 0 <= j < pre.nullifiers.hashes().len() && pre.nullifiers.hashes()[j] == h;
            assert(post.nullifiers.hashes()[idx] == h);
        }
    }
}

/// For any nullifier hash, at most one withdrawal along a pool's history
/// succeeds: once one has, every later withdrawal with the same hash fails,
/// and it fails as already spent unless an earlier check refused it first.
pub proof fn lemma_nullifier_spent_once(
    states: Seq<Pool>,
    kinds: Seq<bool>,
    hashes: Seq<[u8; 32]>,
    results: Seq<Result<WithdrawEvent, SolanaVeilError>>,
    i: int,
    j: int,
)
    requires
        states.len() == kinds.len() + 1,
        hashes.len() == kinds.len(),
        results.len() == kinds.len(),
        forall|s: int|
            0 <= s < kinds.len() ==> #[trigger] history_step(
                states[s],
                states[s + 1],
                kinds[s],
                hashes[s],
                results[s],
            ),
        0 <= i < j < kinds.len(),
        kinds[i],
        kinds[j],
        hashes[i] == hashes[j],
        results[i] is Ok,
    ensures
        results[j] is Err,
        states[j].nullifiers.is_spent(hashes[j]),
        forall|root: [u8; 32], fee: u64|
            #[trigger] withdraw_precheck(states[j], root, hashes[j], fee) is Err,
        forall|root: [u8; 32], fee: u64|
            {
                &&& states[j].is_active
                &&& states[j].tree.knows_root(root)
                &&& fee <= states[j].denomination
                &&& fee <= max_fee(states[j].denomination, states[j].max_fee_basis_points)
                &&& states[j].denomination - fee >= states[j].min_withdrawal_amount
            } ==> #[trigger] withdraw_precheck(states[j], root, hashes[j], fee)
                == Err::<u64, SolanaVeilError>(SolanaVeilError::NullifierAlreadySpent),
{
    let h = hashes[i];
    assert(history_step(states[i], states[i + 1], kinds[i], hashes[i], results[i]));
    let pre = states[i];
    let post = states[i + 1];
    let n = pre.nullifiers.hashes().len();
    assert(post.nullifiers.hashes()[n as int] == h);
    lemma_spent_persists(states, kinds, hashes, results, h, i + 1, j);
    assert(history_step(states[j], states[j + 1], kinds[j], hashes[j], results[j]));
}

} // verus!
