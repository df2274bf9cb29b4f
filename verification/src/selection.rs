//! Picking discount targets out of the cart, line by line.

use vstd::prelude::*;
use crate::input::{line_variant_id, CartLine};

verus! {

/// The variant ids of the lines that `keep` accepts and that sell a product
/// variant, in cart order.
pub open spec fn selected_ids(lines: Seq<CartLine>, keep: spec_fn(CartLine) -> bool) -> Seq<Seq<char>>
    decreases lines.len(),
{
    if lines.len() == 0 {
        Seq::empty()
    } else {
        let rest = selected_ids(lines.drop_last(), keep);
        let line = lines.last();
        match line_variant_id(line) {
            Some(id) => if keep(line) { rest.push(id) } else { rest },
            None => rest,
        }
    }
}

/// Selecting from two carts joined end to end gives the two selections
/// joined end to end: each line is judged on its own.
pub proof fn lemma_selected_ids_concat(a: Seq<CartLine>, b: Seq<CartLine>, keep: spec_fn(CartLine) -> bool)
    ensures
        selected_ids(a + b, keep) == selected_ids(a, keep) + selected_ids(b, keep),
    decreases b.len(),
{
    if b.len() == 0 {
        assert(a + b =~= a);
        assert(selected_ids(a, keep) + selected_ids(b, keep) =~= selected_ids(a, keep));
    } else {
        lemma_selected_ids_concat(a, b.drop_last(), keep);
        assert((a + b).drop_last() =~= a + b.drop_last());
        assert((a + b).last() == b.last());
        let sa = selected_ids(a, keep);
        let sb = selected_ids(b.drop_last(), keep);
        match line_variant_id(b.last()) {
            Some(id) => {
                if keep(b.last()) {
                    assert((sa + sb).push(id) =~= sa + sb.push(id));
                }
            },
            None => {},
        }
    }
}

} // verus!
