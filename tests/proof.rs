use ark_bn254::{Bn254, Fr};
use ark_ff::PrimeField;
use ark_groth16::Groth16;
use ark_relations::r1cs::{
    ConstraintSynthesizer, ConstraintSystemRef, LinearCombination, SynthesisError, Variable,
};
use ark_serialize::CanonicalSerialize;
use ark_snark::SNARK;
use ark_std::rand::rngs::StdRng;
use ark_std::rand::SeedableRng;
use solana_veil::errors::{ErrorCode, SolanaVeilError};
use solana_veil::pool::{initialize_pool, update_pool_config};
use solana_veil::proof_gate::{build_withdrawal_inputs, u64_to_word, verify_bridge_proof};
use solana_veil::relayer::set_relayer;
use solana_veil::withdraw::withdraw;

const AUTH: [u8; 32] = [1u8; 32];
const RECIPIENT: [u8; 32] = [3u8; 32];
const RELAYER: [u8; 32] = [4u8; 32];
const ROOT: [u8; 32] = [0u8; 32];

fn nullifier() -> [u8; 32] {
    let mut n = [0u8; 32];
    n[5] = 17;
    n[31] = 3;
    n
}

/// Five public inputs; a witness must equal the second one.
struct Withdrawal {
    inputs: Vec<Fr>,
}

impl ConstraintSynthesizer<Fr> for Withdrawal {
    fn generate_constraints(self, cs: ConstraintSystemRef<Fr>) -> Result<(), SynthesisError> {
        let mut vars = Vec::new();
        for v in self.inputs.iter() {
            let v = *v;
            vars.push(cs.new_input_variable(|| Ok(v))?);
        }
        let secret = self.inputs[1];
        let w = cs.new_witness_variable(|| Ok(secret))?;
        cs.enforce_constraint(
            LinearCombination::from(w),
            LinearCombination::from(Variable::One),
            LinearCombination::from(vars[1]),
        )?;
        Ok(())
    }
}

fn to_field(words: &[[u8; 32]]) -> Vec<Fr> {
    words.iter().map(|w| Fr::from_be_bytes_mod_order(w)).collect()
}

/// A verifying key and a proof for the given public inputs, compressed.
fn prove(words: &[[u8; 32]]) -> (Vec<u8>, Vec<u8>) {
    let mut rng = StdRng::seed_from_u64(7);
    let setup = Withdrawal { inputs: to_field(words) };
    let (pk, vk) = Groth16::<Bn254>::circuit_specific_setup(setup, &mut rng).unwrap();
    let proof = Groth16::<Bn254>::prove(&pk, Withdrawal { inputs: to_field(words) }, &mut rng)
        .unwrap();
    let mut vk_bytes = Vec::new();
    vk.serialize_compressed(&mut vk_bytes).unwrap();
    let mut proof_bytes = Vec::new();
    proof.serialize_compressed(&mut proof_bytes).unwrap();
    (proof_bytes, vk_bytes)
}

#[test]
fn fee_word_is_big_endian() {
    let w = u64_to_word(0x0102030405060708);
    assert_eq!(&w[..24], &[0u8; 24]);
    assert_eq!(&w[24..], &[1, 2, 3, 4, 5, 6, 7, 8]);
}

#[test]
fn proof_gate_accepts_a_valid_proof_only_for_its_inputs() {
    let inputs = build_withdrawal_inputs(ROOT, nullifier(), RECIPIENT, RELAYER, 10);
    let (proof, vk) = prove(&inputs);
    assert_eq!(verify_bridge_proof(&proof, &vk, &inputs), Ok(()));
    let other = build_withdrawal_inputs(ROOT, nullifier(), RECIPIENT, RELAYER, 11);
    assert_eq!(verify_bridge_proof(&proof, &vk, &other), Err(ErrorCode::InvalidProof));
    assert_eq!(verify_bridge_proof(&vk, &vk, &inputs), Err(ErrorCode::InvalidProof));
    assert_eq!(verify_bridge_proof(&proof, &proof, &inputs), Err(ErrorCode::InvalidProof));
    assert_eq!(verify_bridge_proof(&proof, &vk, &inputs[..4]), Err(ErrorCode::InvalidProof));
}

#[test]
fn withdraw_with_valid_proof_pays_once() {
    let mut pool = initialize_pool(AUTH, 1000, 20, None, [2u8; 32]).unwrap();
    update_pool_config(&mut pool, &AUTH, Some(200), Some(100), None).unwrap();
    let mut relayer = None;
    set_relayer(&mut relayer, RELAYER, true, 100).unwrap();
    let inputs = build_withdrawal_inputs(ROOT, nullifier(), RECIPIENT, RELAYER, 10);
    let (proof, vk) = prove(&inputs);
    let ev = withdraw(&mut pool, &mut relayer, &proof, &vk, ROOT, nullifier(), RECIPIENT, RELAYER, 10, 1)
        .unwrap();
    assert_eq!(ev.amount, 990);
    assert_eq!(ev.fee, 10);
    assert_eq!(relayer.unwrap().total_fees, 10);
    let again = withdraw(&mut pool, &mut relayer, &proof, &vk, ROOT, nullifier(), RECIPIENT, RELAYER, 10, 2);
    assert_eq!(again.err(), Some(SolanaVeilError::NullifierAlreadySpent));
    assert_eq!(pool.total_withdrawn, 1000);
}

#[test]
fn withdraw_proof_is_bound_to_recipient() {
    let mut pool = initialize_pool(AUTH, 1000, 20, None, [2u8; 32]).unwrap();
    let mut relayer = None;
    set_relayer(&mut relayer, RELAYER, true, 100).unwrap();
    let inputs = build_withdrawal_inputs(ROOT, nullifier(), RECIPIENT, RELAYER, 10);
    let (proof, vk) = prove(&inputs);
    let stolen = withdraw(&mut pool, &mut relayer, &proof, &vk, ROOT, nullifier(), [9u8; 32], RELAYER, 10, 1);
    assert_eq!(stolen.err(), Some(SolanaVeilError::InvalidProof));
    assert!(!pool.nullifiers.contains(&nullifier()));
}

/// `a + b` over 32-byte big-endian words, dropping the final carry.
fn add_words(a: [u8; 32], b: [u8; 32]) -> [u8; 32] {
    let mut out = [0u8; 32];
    let mut carry = 0u16;
    for i in (0..32).rev() {
        let v = a[i] as u16 + b[i] as u16 + carry;
        out[i] = (v & 0xff) as u8;
        carry = v >> 8;
    }
    out
}

const MODULUS: [u8; 32] = [
    0x30, 0x64, 0x4e, 0x72, 0xe1, 0x31, 0xa0, 0x29, 0xb8, 0x50, 0x45, 0xb6, 0x81, 0x81, 0x58, 0x5d,
    0x28, 0x33, 0xe8, 0x48, 0x79, 0xb9, 0x70, 0x91, 0x43, 0xe1, 0xf5, 0x93, 0xf0, 0x00, 0x00, 0x01,
];

#[test]
fn aliased_nullifier_cannot_spend_again() {
    let mut pool = initialize_pool(AUTH, 1000, 20, None, [2u8; 32]).unwrap();
    let mut relayer = None;
    let inputs = build_withdrawal_inputs(ROOT, nullifier(), RECIPIENT, RELAYER, 10);
    let (proof, vk) = prove(&inputs);
    withdraw(&mut pool, &mut relayer, &proof, &vk, ROOT, nullifier(), RECIPIENT, RELAYER, 10, 1)
        .unwrap();
    let alias = add_words(nullifier(), MODULUS);
    assert_ne!(alias, nullifier());
    let aliased = build_withdrawal_inputs(ROOT, alias, RECIPIENT, RELAYER, 10);
    assert_eq!(verify_bridge_proof(&proof, &vk, &aliased), Err(ErrorCode::InvalidProof));
    let again = withdraw(&mut pool, &mut relayer, &proof, &vk, ROOT, alias, RECIPIENT, RELAYER, 10, 2);
    assert_eq!(again.err(), Some(SolanaVeilError::InvalidProof));
    assert_eq!(pool.total_withdrawn, 1000);
}
