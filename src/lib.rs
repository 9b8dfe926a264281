//! A shielded pool with a commitment accumulator, a nullifier set that guards
//! against double spending, proof-gated withdrawals, and a replay-safe
//! cross-chain relay.

pub mod bytes;
pub mod errors;
pub mod tree;
pub mod proof_gate;
pub mod nullifier;
pub mod relayer;
pub mod pool;
pub mod withdraw;
pub mod bridge;
pub mod emitter;
pub mod relay;
