use solana_veil::errors::SolanaVeilError;
use solana_veil::pool::{deposit, initialize_pool, update_pool_config, Pool};
use solana_veil::relayer::{set_relayer, Relayer};
use solana_veil::tree::{initialize_tree, update_tree_root};
use solana_veil::withdraw::{check_withdrawal, settle_withdrawal, withdraw};

const AUTH: [u8; 32] = [1u8; 32];
const VAULT: [u8; 32] = [2u8; 32];
const RECIPIENT: [u8; 32] = [3u8; 32];
const RELAYER: [u8; 32] = [4u8; 32];
const ZERO: [u8; 32] = [0u8; 32];

fn h(b: u8) -> [u8; 32] {
    let mut a = [0u8; 32];
    a[31] = b;
    a[0] = 0x0a;
    a
}

fn pool(denomination: u64) -> Pool {
    initialize_pool(AUTH, denomination, 20, None, VAULT).unwrap()
}

fn relayer() -> Option<Relayer> {
    let mut r = None;
    set_relayer(&mut r, RELAYER, true, 100).unwrap();
    r
}

/// A pool of 1000 with a 2% fee cap and a minimum withdrawal of 100.
fn scenario_pool() -> Pool {
    let mut p = pool(1000);
    update_pool_config(&mut p, &AUTH, Some(200), Some(100), None).unwrap();
    p
}

#[test]
fn initialize_pool_sets_defaults() {
    let p = initialize_pool(AUTH, 1000, 20, Some([9u8; 32]), VAULT).unwrap();
    assert_eq!(p.denomination, 1000);
    assert_eq!(p.max_fee_basis_points, 200);
    assert_eq!(p.min_withdrawal_amount, 100);
    assert!(p.is_active);
    assert_eq!(p.mint, Some([9u8; 32]));
    assert_eq!(p.total_deposited, 0);
    assert_eq!(p.tree.num_leaves, 0);
    assert_eq!(p.tree.root, ZERO);
    assert!(p.tree.is_known_root(&ZERO));
}

#[test]
fn initialize_pool_rejects_zero_denomination() {
    assert_eq!(
        initialize_pool(AUTH, 0, 20, None, VAULT).err(),
        Some(SolanaVeilError::InvalidDenomination)
    );
}

#[test]
fn initialize_pool_checks_depth_range() {
    assert_eq!(
        initialize_pool(AUTH, 5, 9, None, VAULT).err(),
        Some(SolanaVeilError::InvalidTreeDepth)
    );
    assert_eq!(
        initialize_pool(AUTH, 5, 33, None, VAULT).err(),
        Some(SolanaVeilError::InvalidTreeDepth)
    );
    assert!(initialize_pool(AUTH, 5, 10, None, VAULT).is_ok());
    assert!(initialize_pool(AUTH, 5, 32, None, VAULT).is_ok());
}

#[test]
fn deposits_get_sequential_indices_and_exact_totals() {
    let mut p = pool(500);
    for i in 0..5u8 {
        let ev = deposit(&mut p, h(i), 10_000, 77).unwrap();
        assert_eq!(ev.leaf_index, i as u64);
        assert_eq!(ev.amount, 500);
        assert_eq!(ev.commitment, h(i));
        assert_eq!(ev.timestamp, 77);
    }
    assert_eq!(p.total_deposited, 2500);
    assert_eq!(p.deposit_count, 5);
    assert_eq!(p.tree.num_leaves, 5);
    assert_eq!(p.tree.leaves[3], h(3));
}

#[test]
fn deposit_into_inactive_pool_fails() {
    let mut p = pool(500);
    update_pool_config(&mut p, &AUTH, None, None, Some(false)).unwrap();
    assert_eq!(deposit(&mut p, h(1), 10_000, 0).err(), Some(SolanaVeilError::PoolInactive));
    assert_eq!(p.tree.num_leaves, 0);
}

#[test]
fn deposit_needs_a_full_denomination() {
    let mut p = pool(500);
    assert_eq!(deposit(&mut p, h(1), 499, 0).err(), Some(SolanaVeilError::InsufficientFunds));
    assert_eq!(p.total_deposited, 0);
    assert!(deposit(&mut p, h(1), 500, 0).is_ok());
}

#[test]
fn deposit_total_overflow_is_a_calculation_error() {
    let mut p = pool(u64::MAX);
    deposit(&mut p, h(1), u64::MAX, 0).unwrap();
    assert_eq!(
        deposit(&mut p, h(2), u64::MAX, 0).err(),
        Some(SolanaVeilError::CalculationError)
    );
    assert_eq!(p.tree.num_leaves, 1);
}

#[test]
fn append_fills_exactly_to_capacity() {
    let mut t = initialize_tree(AUTH, 10).unwrap();
    for i in 0..1023u64 {
        assert_eq!(t.append(h((i % 200) as u8)), Ok(i));
    }
    assert!(!t.is_full());
    assert_eq!(t.append(h(7)), Ok(1023));
    assert!(t.is_full());
    assert_eq!(t.append(h(8)), Err(SolanaVeilError::MerkleTreeFull));
    assert_eq!(t.append(h(8)), Err(SolanaVeilError::MerkleTreeFull));
    assert_eq!(t.num_leaves, 1024);
}

#[test]
fn deposit_into_full_tree_fails() {
    let mut p = initialize_pool(AUTH, 1, 10, None, VAULT).unwrap();
    for i in 0..1024u64 {
        assert_eq!(deposit(&mut p, h(1), 1, 0).unwrap().leaf_index, i);
    }
    assert_eq!(deposit(&mut p, h(1), 1, 0).err(), Some(SolanaVeilError::MerkleTreeFull));
    assert_eq!(p.total_deposited, 1024);
}

#[test]
fn root_history_keeps_recent_roots() {
    let mut t = initialize_tree(AUTH, 20).unwrap();
    assert_eq!(update_tree_root(&mut t, &RECIPIENT, h(1)), Err(SolanaVeilError::Unauthorized));
    for i in 1..=29u8 {
        update_tree_root(&mut t, &AUTH, h(i)).unwrap();
    }
    assert!(t.is_known_root(&ZERO));
    assert!(t.is_known_root(&h(1)));
    assert_eq!(t.root, h(29));
    update_tree_root(&mut t, &AUTH, h(30)).unwrap();
    assert!(!t.is_known_root(&ZERO));
    assert!(t.is_known_root(&h(1)));
    assert!(t.is_known_root(&h(30)));
    assert_eq!(t.root_history.len(), 30);
}

#[test]
fn update_pool_config_checks_and_applies() {
    let mut p = pool(1000);
    assert_eq!(
        update_pool_config(&mut p, &RECIPIENT, Some(100), None, None),
        Err(SolanaVeilError::Unauthorized)
    );
    assert_eq!(
        update_pool_config(&mut p, &AUTH, Some(501), Some(10), None),
        Err(SolanaVeilError::FeeTooHigh)
    );
    assert_eq!(p.min_withdrawal_amount, 100);
    assert_eq!(
        update_pool_config(&mut p, &AUTH, Some(300), Some(1001), None),
        Err(SolanaVeilError::InvalidDenomination)
    );
    assert_eq!(p.max_fee_basis_points, 200);
    assert_eq!(update_pool_config(&mut p, &AUTH, Some(500), Some(1000), Some(false)), Ok(()));
    assert_eq!(p.max_fee_basis_points, 500);
    assert_eq!(p.min_withdrawal_amount, 1000);
    assert!(!p.is_active);
}

#[test]
fn withdraw_fee_scenario() {
    let mut p = scenario_pool();
    let mut r = relayer();
    let ev = settle_withdrawal(&mut p, &mut r, ZERO, h(1), RECIPIENT, RELAYER, 20, 5, true).unwrap();
    assert_eq!(ev.amount, 980);
    assert_eq!(ev.fee, 20);
    assert_eq!(ev.relayer, RELAYER);
    assert_eq!(
        settle_withdrawal(&mut p, &mut r, ZERO, h(2), RECIPIENT, RELAYER, 21, 5, true).err(),
        Some(SolanaVeilError::FeeTooHigh)
    );
    assert_eq!(
        settle_withdrawal(&mut p, &mut r, ZERO, h(3), RECIPIENT, RELAYER, 901, 5, true).err(),
        Some(SolanaVeilError::FeeTooHigh)
    );
    assert_eq!(p.nullifiers.records.len(), 1);
    assert_eq!(p.total_withdrawn, 1000);
}

#[test]
fn withdraw_below_minimum_fails() {
    let mut p = pool(1000);
    update_pool_config(&mut p, &AUTH, Some(500), Some(951), None).unwrap();
    let mut r = relayer();
    assert_eq!(
        settle_withdrawal(&mut p, &mut r, ZERO, h(1), RECIPIENT, RELAYER, 50, 5, true).err(),
        Some(SolanaVeilError::WithdrawalAmountTooLow)
    );
    assert_eq!(
        settle_withdrawal(&mut p, &mut r, ZERO, h(1), RECIPIENT, RELAYER, 49, 5, true).unwrap().amount,
        951
    );
}

#[test]
fn withdraw_fee_boundaries() {
    let p = scenario_pool();
    assert_eq!(check_withdrawal(&p, &ZERO, &h(1), 20), Ok(980));
    assert_eq!(check_withdrawal(&p, &ZERO, &h(1), 21), Err(SolanaVeilError::FeeTooHigh));
    assert_eq!(check_withdrawal(&p, &ZERO, &h(1), 0), Ok(1000));
    let mut q = pool(1000);
    update_pool_config(&mut q, &AUTH, Some(200), Some(980), None).unwrap();
    assert_eq!(check_withdrawal(&q, &ZERO, &h(1), 20), Ok(980));
    update_pool_config(&mut q, &AUTH, None, Some(981), None).unwrap();
    assert_eq!(
        check_withdrawal(&q, &ZERO, &h(1), 20),
        Err(SolanaVeilError::WithdrawalAmountTooLow)
    );
}

#[test]
fn same_nullifier_pays_out_once() {
    let mut p = scenario_pool();
    let mut r = relayer();
    let first = settle_withdrawal(&mut p, &mut r, ZERO, h(9), RECIPIENT, RELAYER, 10, 5, true);
    assert_eq!(first.unwrap().amount, 990);
    let withdrawn = p.total_withdrawn;
    let stats = r;
    let second = settle_withdrawal(&mut p, &mut r, ZERO, h(9), [5u8; 32], RELAYER, 10, 6, true);
    assert_eq!(second.err(), Some(SolanaVeilError::NullifierAlreadySpent));
    assert_eq!(p.total_withdrawn, withdrawn);
    assert_eq!(r, stats);
    assert_eq!(p.nullifiers.records.len(), 1);
    assert_eq!(p.nullifiers.records[0].recipient, RECIPIENT);
    assert!(p.nullifiers.contains(&h(9)));
}

#[test]
fn withdraw_checks_pool_and_root_first() {
    let mut p = scenario_pool();
    let mut r = relayer();
    assert_eq!(
        settle_withdrawal(&mut p, &mut r, h(5), h(1), RECIPIENT, RELAYER, 0, 5, true).err(),
        Some(SolanaVeilError::InvalidMerkleRoot)
    );
    update_tree_root(&mut p.tree, &AUTH, h(5)).unwrap();
    update_tree_root(&mut p.tree, &AUTH, h(6)).unwrap();
    assert!(settle_withdrawal(&mut p, &mut r, h(5), h(1), RECIPIENT, RELAYER, 0, 5, true).is_ok());
    update_pool_config(&mut p, &AUTH, None, None, Some(false)).unwrap();
    assert_eq!(
        settle_withdrawal(&mut p, &mut r, h(6), h(2), RECIPIENT, RELAYER, 0, 5, true).err(),
        Some(SolanaVeilError::PoolInactive)
    );
}

#[test]
fn fee_is_paid_without_a_statistics_record() {
    let mut p = scenario_pool();
    let mut r: Option<Relayer> = None;
    let ev = settle_withdrawal(&mut p, &mut r, ZERO, h(1), RECIPIENT, RELAYER, 5, 5, true).unwrap();
    assert_eq!(ev.amount, 995);
    assert_eq!(ev.fee, 5);
    assert_eq!(ev.relayer, RELAYER);
    assert_eq!(r, None);
}

#[test]
fn fee_above_cap_without_statistics_record_is_fee_too_high() {
    let mut p = scenario_pool();
    let mut r: Option<Relayer> = None;
    assert_eq!(
        settle_withdrawal(&mut p, &mut r, ZERO, h(1), RECIPIENT, RELAYER, 21, 5, true).err(),
        Some(SolanaVeilError::FeeTooHigh)
    );
    settle_withdrawal(&mut p, &mut r, ZERO, h(2), RECIPIENT, RELAYER, 0, 5, true).unwrap();
    assert_eq!(
        settle_withdrawal(&mut p, &mut r, ZERO, h(2), RECIPIENT, RELAYER, 20, 5, false).err(),
        Some(SolanaVeilError::NullifierAlreadySpent)
    );
}

/// The order of the BN254 scalar field, big-endian.
const MODULUS: [u8; 32] = [
    0x30, 0x64, 0x4e, 0x72, 0xe1, 0x31, 0xa0, 0x29, 0xb8, 0x50, 0x45, 0xb6, 0x81, 0x81, 0x58, 0x5d,
    0x28, 0x33, 0xe8, 0x48, 0x79, 0xb9, 0x70, 0x91, 0x43, 0xe1, 0xf5, 0x93, 0xf0, 0x00, 0x00, 0x01,
];

#[test]
fn non_canonical_inputs_are_refused() {
    let mut p = scenario_pool();
    let mut r = relayer();
    assert_eq!(
        settle_withdrawal(&mut p, &mut r, ZERO, MODULUS, RECIPIENT, RELAYER, 0, 5, true).err(),
        Some(SolanaVeilError::InvalidProof)
    );
    assert_eq!(
        settle_withdrawal(&mut p, &mut r, ZERO, h(1), [0xff; 32], RELAYER, 0, 5, true).err(),
        Some(SolanaVeilError::InvalidProof)
    );
    assert_eq!(
        settle_withdrawal(&mut p, &mut r, ZERO, h(1), RECIPIENT, MODULUS, 0, 5, true).err(),
        Some(SolanaVeilError::InvalidProof)
    );
    assert_eq!(p.nullifiers.records.len(), 0);
    let mut below = MODULUS;
    below[31] = 0;
    assert!(settle_withdrawal(&mut p, &mut r, ZERO, below, RECIPIENT, RELAYER, 0, 5, true).is_ok());
}

#[test]
fn rejected_proof_spends_nothing() {
    let mut p = scenario_pool();
    let mut r = relayer();
    assert_eq!(
        settle_withdrawal(&mut p, &mut r, ZERO, h(1), RECIPIENT, RELAYER, 10, 5, false).err(),
        Some(SolanaVeilError::InvalidProof)
    );
    assert!(!p.nullifiers.contains(&h(1)));
    assert_eq!(p.total_withdrawn, 0);
}

#[test]
fn relayer_statistics_follow_paid_withdrawals() {
    let mut p = scenario_pool();
    let mut r = relayer();
    settle_withdrawal(&mut p, &mut r, ZERO, h(1), RECIPIENT, RELAYER, 10, 5, true).unwrap();
    settle_withdrawal(&mut p, &mut r, ZERO, h(2), RECIPIENT, RELAYER, 0, 5, true).unwrap();
    let stats = r.unwrap();
    assert_eq!(stats.total_relayed, 990);
    assert_eq!(stats.total_fees, 10);
    assert_eq!(p.total_withdrawn, 2000);
}

#[test]
fn relayer_overflow_is_a_calculation_error() {
    let mut p = scenario_pool();
    let mut r = Some(Relayer {
        authority: RELAYER,
        is_active: true,
        fee_basis_points: 0,
        total_relayed: 0,
        total_fees: u64::MAX,
    });
    assert_eq!(
        settle_withdrawal(&mut p, &mut r, ZERO, h(1), RECIPIENT, RELAYER, 1, 5, true).err(),
        Some(SolanaVeilError::CalculationError)
    );
    assert!(!p.nullifiers.contains(&h(1)));
}

#[test]
fn withdraw_with_malformed_proof_is_refused() {
    let mut p = scenario_pool();
    let mut r = relayer();
    let res = withdraw(&mut p, &mut r, &[1, 2, 3], &[4, 5, 6], ZERO, h(1), RECIPIENT, RELAYER, 10, 5);
    assert_eq!(res.err(), Some(SolanaVeilError::InvalidProof));
    assert!(!p.nullifiers.contains(&h(1)));
    let res = withdraw(&mut p, &mut r, &[1, 2, 3], &[4, 5, 6], h(77), h(1), RECIPIENT, RELAYER, 10, 5);
    assert_eq!(res.err(), Some(SolanaVeilError::InvalidMerkleRoot));
}

#[test]
fn set_relayer_creates_and_updates() {
    let mut r: Option<Relayer> = None;
    assert_eq!(set_relayer(&mut r, RELAYER, true, 501), Err(SolanaVeilError::FeeTooHigh));
    assert_eq!(r, None);
    set_relayer(&mut r, RELAYER, true, 500).unwrap();
    r.as_mut().unwrap().total_fees = 7;
    set_relayer(&mut r, RELAYER, false, 50).unwrap();
    let s = r.unwrap();
    assert!(!s.is_active);
    assert_eq!(s.fee_basis_points, 50);
    assert_eq!(s.total_fees, 7);
}
