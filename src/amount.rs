use vstd::prelude::*;

verus! {

/// Whether `amount` may be moved: amounts are never negative.
pub fn check_nonnegative_amount(amount: i128) -> (r: bool)
    ensures
        r == (amount >= 0),
{
    amount >= 0
}

} // verus!
