//! Input-shape checks shared by the account operations. Pure
//! functions; no store access.

use vstd::prelude::*;

use crate::model::phone_ok;

verus! {

/// Decides whether a phone number has the required shape: exactly
/// eleven ASCII digits.
pub fn phone_valid(p: &str) -> (r: bool)
    ensures
        r == phone_ok(p@),
{
    let n = p.unicode_len();
    if n != 11 {
        return false;
    }
    let mut k: usize = 0;
    while k < n
        invariant
            n == p@.len(),
            k <= n,
            forall|i: int| 0 <= i < k ==> '0' <= #[trigger] p@[i] <= '9',
        decreases n - k,
    {
        let c = p.get_char(k);
        if c < '0' || c > '9' {
            return false;
        }
        k += 1;
    }
    true
}

} // verus!
