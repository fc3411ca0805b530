//! Arguments of the oriented-box diagnostics.

use crate::failure::{value_error, Failure};
use crate::text::{nat_text, usize_text};
use vstd::prelude::*;

verus! {

/// Every quad has a category id: refuse lists of different lengths.
pub fn check_ceiling(n_quads: usize, n_ids: usize) -> (r: Result<(), Failure>)
    ensures
        n_quads == n_ids ==> r is Ok,
        n_quads != n_ids ==> (r matches Err(e) && e@ == value_error(
            "quads and category_ids disagree on length: "@ + nat_text(n_quads as nat) + " vs "@
                + nat_text(n_ids as nat),
        )),
{
    if n_quads == n_ids {
        return Ok(());
    }
    let mut m = String::from_str("quads and category_ids disagree on length: ");
    m.append(usize_text(n_quads).as_str());
    m.append(" vs ");
    m.append(usize_text(n_ids).as_str());
    Err(Failure::value_error(m))
}

} // verus!
