//! The pool's durable record and its authority proof material.
//!
//! A pool is one record per `(asset A, asset B, fee rate)` triple. Its
//! custody authority is a keyless derived address; the record stores the
//! seed material and the disambiguation bytes that regenerate that
//! address exactly, so no search is ever repeated at operation time.

use vstd::prelude::*;
use crate::error::AmmError;
use vstd::slice::slice_to_vec;

verus! {

/// Highest fee rate a pool may be created with: 100% in basis points.
pub const MAX_FEE_BPS: u16 = 10_000;

/// Namespace tag of the pool authority's seed material: the bytes of
/// the ASCII word `pool`.
pub open spec fn spec_pool_tag() -> Seq<u8> {
    seq![112u8, 111u8, 111u8, 108u8]
}

/// Namespace tag of the LP-share mint's seed material: the bytes of the
/// ASCII word `lp`.
pub open spec fn spec_lp_tag() -> Seq<u8> {
    seq![108u8, 112u8]
}

/// A fee rate as the two bytes of its little-endian encoding.
pub open spec fn spec_fee_le_bytes(fee: u16) -> Seq<u8> {
    seq![((fee as int) % 256) as u8, ((fee as int) / 256) as u8]
}

/// Durable record of one pool: the two asset identities (order matters;
/// A and B are not interchangeable once fixed), the fee rate that
/// segments markets on the same pair, and the two disambiguation bytes
/// stored at creation so the derived authorities are always regenerated
/// canonically.
#[derive(Clone, Copy, Debug)]
pub struct Pool {
    /// Opaque identity of asset A.
    pub mint_a: [u8; 32],
    /// Opaque identity of asset B.
    pub mint_b: [u8; 32],
    /// Trading fee in basis points; charged by swaps only.
    pub fee: u16,
    /// Disambiguation byte of the pool authority's derived address.
    pub bump: u8,
    /// Disambiguation byte of the LP-share mint's derived address.
    pub lp_bump: u8,
}

/// The five seeds that regenerate the pool's custody authority: the
/// namespace tag, both asset identities, the fee in little-endian bytes,
/// and the stored disambiguation byte.
pub open spec fn spec_authority_seeds(p: Pool) -> Seq<Seq<u8>> {
    seq![spec_pool_tag(), p.mint_a@, p.mint_b@, spec_fee_le_bytes(p.fee), seq![p.bump]]
}

/// The three seeds that regenerate the LP-share mint's derived address:
/// the namespace tag, the pool's own identity, and the stored
/// disambiguation byte.
pub open spec fn spec_lp_mint_seeds(pool_id: Seq<u8>, lp_bump: u8) -> Seq<Seq<u8>> {
    seq![spec_lp_tag(), pool_id, seq![lp_bump]]
}

impl Pool {
    /// Creates the record of a new, empty pool. The fee rate is bounded
    /// at creation time: above one hundred percent the request is
    /// refused, never stored.
    pub fn new(mint_a: [u8; 32], mint_b: [u8; 32], fee: u16, bump: u8, lp_bump: u8) -> (r: Result<
        Pool,
        AmmError,
    >)
        ensures
            fee <= MAX_FEE_BPS ==> r == Ok::<Pool, AmmError>(
                Pool { mint_a, mint_b, fee, bump, lp_bump },
            ),
            fee > MAX_FEE_BPS ==> r == Err::<Pool, AmmError>(AmmError::InvalidFeeRate),
    {
        if fee > MAX_FEE_BPS {
            return Err(AmmError::InvalidFeeRate);
        }
        Ok(Pool { mint_a, mint_b, fee, bump, lp_bump })
    }

    /// The authority proof material of this pool, seed by seed.
    pub fn authority_seeds(&self) -> (r: Vec<Vec<u8>>)
        ensures
            r.deep_view() == spec_authority_seeds(*self),
    {
        let mut seeds: Vec<Vec<u8>> = Vec::new();
        let mut tag: Vec<u8> = Vec::new();
        tag.push(112);
        tag.push(111);
        tag.push(111);
        tag.push(108);
        proof {
            assert(tag@ =~= spec_pool_tag());
        }
        seeds.push(tag);
        seeds.push(slice_to_vec(self.mint_a.as_slice()));
        seeds.push(slice_to_vec(self.mint_b.as_slice()));
        seeds.push(fee_le_bytes(self.fee));
        let mut bump_seed: Vec<u8> = Vec::new();
        bump_seed.push(self.bump);
        proof {
            assert(bump_seed@ =~= seq![self.bump]);
        }
        seeds.push(bump_seed);
        proof {
            assert(seeds.deep_view() =~~= spec_authority_seeds(*self));
        }
        seeds
    }

    /// The seed material of the pool's LP-share mint. The pool's own
    /// identity is itself a derived address, so it is handed in by the
    /// caller rather than recomputed here.
    pub fn lp_mint_seeds(&self, pool_id: &[u8; 32]) -> (r: Vec<Vec<u8>>)
        ensures
            r.deep_view() == spec_lp_mint_seeds(pool_id@, self.lp_bump),
    {
        let mut seeds: Vec<Vec<u8>> = Vec::new();
        let mut tag: Vec<u8> = Vec::new();
        tag.push(108);
        tag.push(112);
        proof {
            assert(tag@ =~= spec_lp_tag());
        }
        seeds.push(tag);
        seeds.push(slice_to_vec(pool_id.as_slice()));
        let mut bump_seed: Vec<u8> = Vec::new();
        bump_seed.push(self.lp_bump);
        proof {
            assert(bump_seed@ =~= seq![self.lp_bump]);
        }
        seeds.push(bump_seed);
        proof {
            assert(seeds.deep_view() =~~= spec_lp_mint_seeds(pool_id@, self.lp_bump));
        }
        seeds
    }
}

/// The little-endian byte encoding of a fee rate, low byte first.
pub fn fee_le_bytes(fee: u16) -> (r: Vec<u8>)
    ensures
        r@ == spec_fee_le_bytes(fee),
{
    let mut bytes: Vec<u8> = Vec::new();
    bytes.push((fee % 256) as u8);
    bytes.push((fee / 256) as u8);
    proof {
        assert(bytes@ =~= spec_fee_le_bytes(fee));
    }
    bytes
}

} // verus!
