//! The matching formula: a coarse integer variant of quadratic funding.

use vstd::prelude::*;

verus! {

/// The matched amount of a proposal that received `voter_count`
/// contributions adding up to `contributions`, against a pool of `pool`.
///
/// The average contribution is taken first, by truncating division, and then
/// multiplied by the square of the number of contributions; the product is
/// capped at the whole pool.
pub open spec fn matched_amount(voter_count: nat, contributions: nat, pool: nat) -> nat {
    if voter_count == 0 || contributions == 0 {
        0
    } else {
        let avg = contributions / voter_count;
        let matched = voter_count * voter_count * avg;
        if matched > pool {
            pool
        } else {
            matched
        }
    }
}

/// A product of two 64-bit factors fits in 128 bits.
proof fn lemma_square_fits(v: nat)
    requires
        v <= u64::MAX,
    ensures
        v * v <= u128::MAX,
{
    assert(v * v <= 0xffff_ffff_ffff_ffff * 0xffff_ffff_ffff_ffff) by (nonlinear_arith)
        requires
            v <= 0xffff_ffff_ffff_ffff,
    ;
}

/// Computes [`matched_amount`] without ever leaving 128 bits: a product too
/// large for the machine is larger than any pool, so the pool is the answer.
pub fn compute_matched_amount(voter_count: u64, contributions: u128, pool: u128) -> (matched: u128)
    ensures
        matched == matched_amount(voter_count as nat, contributions as nat, pool as nat),
{
    if voter_count == 0 || contributions == 0 {
        return 0;
    }
    let voters: u128 = voter_count as u128;
    let avg: u128 = contributions / voters;
    proof {
        lemma_square_fits(voter_count as nat);
    }
    let square: u128 = voters * voters;
    match square.checked_mul(avg) {
        Some(product) => {
            if product > pool {
                pool
            } else {
                product
            }
        },
        None => pool,
    }
}

} // verus!
