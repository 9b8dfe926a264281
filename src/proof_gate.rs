//! The proof gate: Groth16 verification over BN254 with a fixed public-input
//! layout.
use vstd::prelude::*;
use ark_bn254::{Bn254, Fr};
use ark_ff::PrimeField;
use ark_groth16::{prepare_verifying_key, Groth16, Proof, VerifyingKey};
use ark_serialize::CanonicalDeserialize;
use crate::bytes::be_u64;
use crate::errors::ErrorCode;

verus! {

/// Whether the Groth16 verifier accepts the compressed proof `proof` under
/// the compressed BN254 verifying key `vk` for the public inputs `inputs`,
/// each a 32-byte big-endian field element.
pub uninterp spec fn groth16_accepts(proof: Seq<u8>, vk: Seq<u8>, inputs: Seq<Seq<u8>>) -> bool;

/// The byte strings of a list of 32-byte words.
pub open spec fn words(inputs: Seq<[u8; 32]>) -> Seq<Seq<u8>> {
    inputs.map_values(|w: [u8; 32]| w@)
}

/// Relies on ark-groth16 0.4 over ark-bn254: `VerifyingKey::deserialize_compressed`
/// and `Proof::deserialize_compressed` (ark-serialize) read the key and the
/// proof, `prepare_verifying_key` and `Groth16::verify_proof` check the
/// pairing equation; each input is read by `PrimeField::from_be_bytes_mod_order`.
/// A read failure or a verifier error counts as rejection. The verdict
/// depends on the bytes alone.
#[verifier::external_body]
fn groth16_verify(proof: &[u8], vk: &[u8], inputs: &[[u8; 32]]) -> (r: bool)
    ensures
        r == groth16_accepts(proof@, vk@, words(inputs@)),
{
    let vk = match VerifyingKey::<Bn254>::deserialize_compressed(vk) {
        Ok(vk) => vk,
        Err(_) => return false,
    };
    let proof = match Proof::<Bn254>::deserialize_compressed(proof) {
        Ok(proof) => proof,
        Err(_) => return false,
    };
    let inputs: Vec<Fr> = inputs.iter().map(|w| Fr::from_be_bytes_mod_order(w)).collect();
    Groth16::<Bn254>::verify_proof(&prepare_verifying_key(&vk), &proof, &inputs).unwrap_or(false)
}

/// The big-endian bytes of the order of the BN254 scalar field,
/// `0x30644e72e131a029b85045b68181585d2833e84879b9709143e1f593f0000001`.
pub open spec fn scalar_modulus() -> Seq<u8> {
    seq![
        0x30u8, 0x64u8, 0x4eu8, 0x72u8, 0xe1u8, 0x31u8, 0xa0u8, 0x29u8,
        0xb8u8, 0x50u8, 0x45u8, 0xb6u8, 0x81u8, 0x81u8, 0x58u8, 0x5du8,
        0x28u8, 0x33u8, 0xe8u8, 0x48u8, 0x79u8, 0xb9u8, 0x70u8, 0x91u8,
        0x43u8, 0xe1u8, 0xf5u8, 0x93u8, 0xf0u8, 0x00u8, 0x00u8, 0x01u8,
    ]
}

/// Whether the 32-byte big-endian number `a` is below `b`.
pub open spec fn be_less(a: Seq<u8>, b: Seq<u8>) -> bool {
    exists|i: int|
        0 <= i < 32 && #[trigger] a[i] < b[i] && forall|j: int| 0 <= j < i ==> a[j] == b[j]
}

/// Whether a 32-byte word is the canonical encoding of a scalar: below the
/// field's order, so that no other word stands for the same element.
pub open spec fn is_canonical(w: Seq<u8>) -> bool {
    be_less(w, scalar_modulus())
}

/// Whether every word of a list is canonical.
pub open spec fn all_canonical(inputs: Seq<[u8; 32]>) -> bool {
    forall|i: int| 0 <= i < inputs.len() ==> is_canonical(#[trigger] inputs[i]@)
}

/// Whether `w` is the canonical encoding of a scalar.
pub fn word_is_canonical(w: &[u8; 32]) -> (r: bool)
    ensures
        r == is_canonical(w@),
{
    let m: [u8; 32] = [
        0x30u8, 0x64u8, 0x4eu8, 0x72u8, 0xe1u8, 0x31u8, 0xa0u8, 0x29u8,
        0xb8u8, 0x50u8, 0x45u8, 0xb6u8, 0x81u8, 0x81u8, 0x58u8, 0x5du8,
        0x28u8, 0x33u8, 0xe8u8, 0x48u8, 0x79u8, 0xb9u8, 0x70u8, 0x91u8,
        0x43u8, 0xe1u8, 0xf5u8, 0x93u8, 0xf0u8, 0x00u8, 0x00u8, 0x01u8,
    ];
    assert(m@ =~= scalar_modulus());
    let mut i: usize = 0;
    while i < 32
        invariant
            0 <= i <= 32,
            m@ == scalar_modulus(),
            forall|j: int| 0 <= j < i ==> w@[j] == m@[j],
        decreases 32 - i,
    {
        if w[i] < m[i] {
            assert(w@[i as int] < m@[i as int]);
            return true;
        }
        if w[i] > m[i] {
            assert(!is_canonical(w@)) by {
                if is_canonical(w@) {
                    let k = choose|k: int|
                        0 <= k < 32 && #[trigger] w@[k] < scalar_modulus()[k] && forall|j: int|
                            0 <= j < k ==> w@[j] == scalar_modulus()[j];
                    if k > i {
                        assert(w@[i as int] == m@[i as int]);
                    }
                }
            }
            return false;
        }
        i += 1;
    }
    assert(!is_canonical(w@)) by {
        if is_canonical(w@) {
            let k = choose|k: int|
                0 <= k < 32 && #[trigger] w@[k] < scalar_modulus()[k] && forall|j: int|
                    0 <= j < k ==> w@[j] == scalar_modulus()[j];
            assert(w@[k] == m@[k]);
        }
    }
    false
}

/// Checks a proof against a verifying key and public inputs. A public input
/// that is not the canonical encoding of a scalar, malformed bytes and a
/// failed check are all `InvalidProof`.
pub fn verify_bridge_proof(proof_data: &[u8], vk_data: &[u8], public_inputs: &[[u8; 32]]) -> (r:
    Result<(), ErrorCode>)
    ensures
        r is Ok <==> all_canonical(public_inputs@) && groth16_accepts(
            proof_data@,
            vk_data@,
            words(public_inputs@),
        ),
        r is Err ==> r == Err::<(), ErrorCode>(ErrorCode::InvalidProof),
{
    let mut i: usize = 0;
    while i < public_inputs.len()
        invariant
            0 <= i <= public_inputs@.len(),
            forall|j: int| 0 <= j < i ==> is_canonical(#[trigger] public_inputs@[j]@),
        decreases public_inputs@.len() - i,
    {
        if !word_is_canonical(&public_inputs[i]) {
            return Err(ErrorCode::InvalidProof);
        }
        i += 1;
    }
    if groth16_verify(proof_data, vk_data, public_inputs) {
        Ok(())
    } else {
        Err(ErrorCode::InvalidProof)
    }
}

/// A `u64` as a 32-byte big-endian field element.
pub open spec fn u64_word(v: u64) -> Seq<u8> {
    Seq::new(24, |_i: int| 0u8) + be_u64(v)
}

/// The public inputs of a withdrawal proof, in circuit order.
pub open spec fn withdrawal_inputs(
    root: [u8; 32],
    nullifier_hash: [u8; 32],
    recipient: [u8; 32],
    relayer: [u8; 32],
    fee: u64,
) -> Seq<Seq<u8>> {
    seq![root@, nullifier_hash@, recipient@, relayer@, u64_word(fee)]
}

/// Writes `v` as a 32-byte big-endian word.
pub fn u64_to_word(v: u64) -> (r: [u8; 32])
    ensures
        r@ == u64_word(v),
{
    let mut w: [u8; 32] = [0u8; 32];
    w[24] = (v >> 56u64) as u8;
    w[25] = (v >> 48u64) as u8;
    w[26] = (v >> 40u64) as u8;
    w[27] = (v >> 32u64) as u8;
    w[28] = (v >> 24u64) as u8;
    w[29] = (v >> 16u64) as u8;
    w[30] = (v >> 8u64) as u8;
    w[31] = v as u8;
    assert(w@ =~= u64_word(v));
    w
}

/// A fee word is always canonical.
pub proof fn lemma_u64_word_canonical(v: u64)
    ensures
        is_canonical(u64_word(v)),
{
    assert(u64_word(v)[0] == 0u8);
    assert(scalar_modulus()[0] == 0x30u8);
    assert(u64_word(v)[0] < scalar_modulus()[0]);
}

/// Lays out the public inputs of a withdrawal proof.
pub fn build_withdrawal_inputs(
    root: [u8; 32],
    nullifier_hash: [u8; 32],
    recipient: [u8; 32],
    relayer: [u8; 32],
    fee: u64,
) -> (r: Vec<[u8; 32]>)
    ensures
        words(r@) == withdrawal_inputs(root, nullifier_hash, recipient, relayer, fee),
        r@ == seq![root, nullifier_hash, recipient, relayer, r@[4]],
        r@[4]@ == u64_word(fee),
{
    let mut v: Vec<[u8; 32]> = Vec::new();
    v.push(root);
    v.push(nullifier_hash);
    v.push(recipient);
    v.push(relayer);
    v.push(u64_to_word(fee));
    assert(words(v@) =~= withdrawal_inputs(root, nullifier_hash, recipient, relayer, fee));
    assert(v@ =~= seq![root, nullifier_hash, recipient, relayer, v@[4]]);
    v
}

} // verus!
