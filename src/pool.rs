//! The pool record, the identities it names, and pool creation.
use vstd::prelude::*;

use crate::error::AmmError;

verus! {

/// An opaque 32-byte identifier: an account, an asset or a vault.
#[derive(Clone, Copy, Debug, PartialEq, Eq)]
pub struct Address {
    pub bytes: [u8; 32],
}

impl View for Address {
    type V = Seq<u8>;

    open spec fn view(&self) -> Seq<u8> {
        self.bytes@
    }
}

impl Address {
    pub fn new(bytes: [u8; 32]) -> (r: Address)
        ensures
            r@ == bytes@,
    {
        Address { bytes }
    }

    /// Whether the two identifiers are the same.
    pub fn same(&self, other: &Address) -> (r: bool)
        ensures
            r == (self@ == other@),
    {
        let mut i: usize = 0;
        while i < 32
            invariant
                0 <= i <= 32,
                self@.len() == 32,
                other@.len() == 32,
                forall|j: int| 0 <= j < i ==> self@[j] == other@[j],
            decreases 32 - i,
        {
            if self.bytes[i] != other.bytes[i] {
                return false;
            }
            i = i + 1;
        }
        assert(self@ =~= other@);
        true
    }
}

/// One trading pair and its economics. Every field is fixed at creation.
#[derive(Clone, Copy, Debug, PartialEq, Eq)]
pub struct Pool {
    pub authority: Address,
    pub token_a_mint: Address,
    pub token_b_mint: Address,
    pub vault_a: Address,
    pub vault_b: Address,
    pub lp_mint: Address,
    pub fee_numerator: u64,
    pub fee_denominator: u64,
    pub allowed_swapper: Address,
    pub bump: u8,
}

impl Pool {
    /// The fee `fee_numerator / fee_denominator` is a proper fraction.
    pub open spec fn wf(&self) -> bool {
        0 < self.fee_denominator && self.fee_numerator < self.fee_denominator
    }
}

/// What pool creation is given: the creator, the two assets, the vaults, the
/// share asset, the one identity allowed to swap, and the bump of the pool's
/// derived address.
#[derive(Clone, Copy, Debug, PartialEq, Eq)]
pub struct CreatePool {
    pub payer: Address,
    pub token_a_mint: Address,
    pub token_b_mint: Address,
    pub lp_mint: Address,
    pub vault_a: Address,
    pub vault_b: Address,
    pub allowed_swapper: Address,
    pub bump: u8,
}

/// The pool that `ctx` describes, with the given fee.
pub open spec fn pool_of(ctx: CreatePool, fee_numerator: u64, fee_denominator: u64) -> Pool {
    Pool {
        authority: ctx.payer,
        token_a_mint: ctx.token_a_mint,
        token_b_mint: ctx.token_b_mint,
        vault_a: ctx.vault_a,
        vault_b: ctx.vault_b,
        lp_mint: ctx.lp_mint,
        fee_numerator,
        fee_denominator,
        allowed_swapper: ctx.allowed_swapper,
        bump: ctx.bump,
    }
}

/// Validates the fee and builds the pool record. The share asset is then
/// initialised by the ledger with the pool as its mint authority.
pub fn create_pool(ctx: &CreatePool, fee_numerator: u64, fee_denominator: u64) -> (r: Result<
    Pool,
    AmmError,
>)
    ensures
        fee_denominator == 0 ==> r == Err::<Pool, AmmError>(AmmError::InvalidFeeDenominator),
        fee_denominator > 0 && fee_numerator >= fee_denominator ==> r == Err::<Pool, AmmError>(
            AmmError::InvalidFee,
        ),
        fee_denominator > 0 && fee_numerator < fee_denominator ==> r == Ok::<Pool, AmmError>(
            pool_of(*ctx, fee_numerator, fee_denominator),
        ),
        r matches Ok(p) ==> p.wf(),
{
    if fee_denominator == 0 {
        return Err(AmmError::InvalidFeeDenominator);
    }
    if fee_numerator >= fee_denominator {
        return Err(AmmError::InvalidFee);
    }
    Ok(Pool {
        authority: ctx.payer,
        token_a_mint: ctx.token_a_mint,
        token_b_mint: ctx.token_b_mint,
        vault_a: ctx.vault_a,
        vault_b: ctx.vault_b,
        lp_mint: ctx.lp_mint,
        fee_numerator,
        fee_denominator,
        allowed_swapper: ctx.allowed_swapper,
        bump: ctx.bump,
    })
}

} // verus!
