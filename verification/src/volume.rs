//! A volume discount on one listed product variant: ten percent off lines
//! of that variant with a quantity of at least two.

use vstd::prelude::*;
use crate::input::{line_variant_id, CartLine, Merchandise, ResponseData};
use crate::output::{
    is_single_percentage, single_percentage, targets_are, variant_target, Decimal, DecimalModel,
    FunctionResult, Target,
};
use crate::selection::{lemma_selected_ids_concat, selected_ids};

verus! {

/// The variants that receive the volume discount.
pub open spec fn volume_variant_ids() -> Seq<Seq<char>> {
    seq!["gid://shopify/ProductVariant/43623862337751"@]
}

/// The least quantity of a line that receives the volume discount.
pub const VOLUME_MIN_QUANTITY: i64 = 2;

/// A line receives the volume discount when it has at least two items of a
/// listed variant.
pub open spec fn volume_keeps(line: CartLine) -> bool {
    &&& line.quantity >= VOLUME_MIN_QUANTITY
    &&& line_variant_id(line) matches Some(id)
    &&& volume_variant_ids().contains(id)
}

/// The variant ids that the volume discount targets, in cart order.
pub open spec fn volume_target_ids(lines: Seq<CartLine>) -> Seq<Seq<char>> {
    selected_ids(lines, |l: CartLine| volume_keeps(l))
}

/// Ten percent off every line of at least two items of the listed variant;
/// no discount when there is none.
pub fn volume_discount(input: &ResponseData) -> (r: FunctionResult)
    ensures
        is_single_percentage(r, volume_target_ids(input.cart.lines@), DecimalModel::Text("10.0"@)),
{
    let listed = "gid://shopify/ProductVariant/43623862337751".to_owned();
    assert(volume_variant_ids() == seq![listed@]);
    let lines = &input.cart.lines;
    let mut targets: Vec<Target> = Vec::new();
    let n = lines.len();
    for i in 0..n
        invariant
            n == lines@.len(),
            volume_variant_ids() == seq![listed@],
            targets_are(targets@, volume_target_ids(lines@.take(i as int))),
    {
        let line = &lines[i];
        assert(lines@.take(i + 1).drop_last() =~= lines@.take(i as int));
        assert(lines@.take(i + 1).last() == *line);
        if line.quantity >= VOLUME_MIN_QUANTITY {
            match &line.merchandise {
                Merchandise::ProductVariant(v) => {
                    if v.id == listed {
                        assert(volume_variant_ids()[0] == v.id@);
                        targets.push(variant_target(&v.id));
                    } else {
                        assert(volume_variant_ids()[0] != v.id@);
                    }
                },
                Merchandise::CustomProduct => {},
            }
        }
    }
    assert(lines@.take(n as int) =~= lines@);
    single_percentage(targets, Decimal::Text("10.0".to_owned()), Ghost(volume_target_ids(lines@)))
}

/// Which lines the volume discount targets is decided line by line: the
/// targets of two carts joined end to end are the two target lists joined.
pub proof fn lemma_volume_targets_concat(a: Seq<CartLine>, b: Seq<CartLine>)
    ensures
        volume_target_ids(a + b) == volume_target_ids(a) + volume_target_ids(b),
{
    lemma_selected_ids_concat(a, b, |l: CartLine| volume_keeps(l));
}

/// The volume discount targets nothing in an empty cart, and a line added
/// at the end of a cart is targeted, after the cart's own targets, exactly
/// when it sells the variant `gid://shopify/ProductVariant/43623862337751`
/// and has at least two items.
pub proof fn lemma_volume_targets_line_by_line(lines: Seq<CartLine>, line: CartLine)
    ensures
        volume_target_ids(Seq::empty()) == Seq::<Seq<char>>::empty(),
        volume_target_ids(lines.push(line)) == volume_target_ids(lines) + match line.merchandise {
            Merchandise::ProductVariant(v) => if line.quantity >= 2
                && v.id@ == "gid://shopify/ProductVariant/43623862337751"@ {
                seq![v.id@]
            } else {
                Seq::empty()
            },
            Merchandise::CustomProduct => Seq::empty(),
        },
{
    let all = lines.push(line);
    assert(all.drop_last() =~= lines);
    assert(all.last() == line);
    let prev = volume_target_ids(lines);
    match line.merchandise {
        Merchandise::ProductVariant(v) => {
            let listed = "gid://shopify/ProductVariant/43623862337751"@;
            if volume_variant_ids().contains(v.id@) {
                let k = choose|k: int| 0 <= k < volume_variant_ids().len() && volume_variant_ids()[k] == v.id@;
                assert(k == 0);
            }
            if v.id@ == listed {
                assert(volume_variant_ids()[0] == v.id@);
            }
            if line.quantity >= 2 && v.id@ == listed {
                assert(prev.push(v.id@) =~= prev + seq![v.id@]);
            } else {
                assert(prev =~= prev + Seq::<Seq<char>>::empty());
            }
        },
        Merchandise::CustomProduct => {
            assert(prev =~= prev + Seq::<Seq<char>>::empty());
        },
    }
}

} // verus!
