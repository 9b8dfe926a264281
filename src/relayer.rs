//! Relayers: third parties that submit withdrawals for a fee.
use vstd::prelude::*;
use crate::errors::SolanaVeilError;

verus! {

/// The highest fee a relayer may advertise, in basis points.
pub const MAX_RELAYER_FEE_BP: u16 = 500;

/// A relayer's registration and running statistics.
#[derive(Debug, Clone, Copy, PartialEq, Eq)]
pub struct Relayer {
    pub authority: [u8; 32],
    pub is_active: bool,
    pub fee_basis_points: u16,
    pub total_relayed: u64,
    pub total_fees: u64,
}

/// Registers a relayer, or updates the registration it already has; the
/// running statistics of an existing registration are kept.
pub fn set_relayer(
    relayer: &mut Option<Relayer>,
    authority: [u8; 32],
    is_active: bool,
    fee_basis_points: u16,
) -> (r: Result<(), SolanaVeilError>)
    ensures
        fee_basis_points > MAX_RELAYER_FEE_BP <==> r is Err,
        r is Err ==> r == Err::<(), SolanaVeilError>(SolanaVeilError::FeeTooHigh) && *final(relayer)
            == *old(relayer),
        r is Ok ==> *final(relayer) == Some(
            Relayer {
                authority,
                is_active,
                fee_basis_points,
                total_relayed: match *old(relayer) {
                    Some(o) => o.total_relayed,
                    None => 0,
                },
                total_fees: match *old(relayer) {
                    Some(o) => o.total_fees,
                    None => 0,
                },
            },
        ),
{
    if fee_basis_points > MAX_RELAYER_FEE_BP {
        return Err(SolanaVeilError::FeeTooHigh);
    }
    let (total_relayed, total_fees) = match *relayer {
        Some(o) => (o.total_relayed, o.total_fees),
        None => (0u64, 0u64),
    };
    *relayer = Some(Relayer { authority, is_active, fee_basis_points, total_relayed, total_fees });
    Ok(())
}

} // verus!
