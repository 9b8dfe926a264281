use vstd::prelude::*;

verus! {

/// Errors of the pool side: pools, the accumulator, nullifiers and relayers.
#[derive(Debug, Clone, Copy, PartialEq, Eq, Structural)]
pub enum SolanaVeilError {
    InsufficientFunds,
    InvalidProof,
    NullifierAlreadySpent,
    InvalidMerkleRoot,
    InvalidDenomination,
    PoolInactive,
    InvalidFeeAmount,
    FeeTooHigh,
    InvalidRecipient,
    InvalidTreeDepth,
    WithdrawalAmountTooLow,
    PoolAlreadyExists,
    Unauthorized,
    InvalidRelayer,
    RelayerInactive,
    PoolCreationDisabled,
    InvalidTokenAccount,
    TokenAccountMintMismatch,
    InvalidMerkleTree,
    MerkleTreeFull,
    CalculationError,
    ZkProofVerificationFailed,
}

/// Errors of the bridge side: registry, outbound and inbound relay.
#[derive(Debug, Clone, Copy, PartialEq, Eq, Structural)]
pub enum ErrorCode {
    InvalidProof,
    NullifierAlreadyUsed,
    InvalidRoot,
    InvalidAmount,
    InvalidFee,
    InvalidRefund,
    InvalidTreeHeight,
    MerkleTreeFull,
    PoolPaused,
    InvalidPoolParams,
    RelayerNotRegistered,
    InsufficientStake,
    ArithmeticOverflow,
    Unauthorized,
    BridgePaused,
    ChainNotSupported,
    TokenNotSupported,
    TokenNotEnabled,
    TooManyChains,
    ChainAlreadySupported,
    TooManyTokens,
    TokenAlreadySupported,
    BridgeNotInitialized,
    InvalidExternalEmitter,
    UnsupportedChain,
    InvalidWormholeMessage,
    BridgeTransferNotFound,
    TransferAlreadyProcessed,
    InvalidCommitment,
}

} // verus!
