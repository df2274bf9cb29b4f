//! A volume discount on the variants that the configuration lists: ten
//! percent off lines of a listed variant with a quantity of at least five.

use vstd::prelude::*;
use crate::config::{config_lists, config_names, Nodes};
use crate::input::{line_variant_id, Cart, CartLine, Merchandise};
use crate::output::{
    is_no_discount, is_single_percentage, no_discount, single_percentage, targets_are,
    variant_target, Decimal, DecimalModel, FunctionResult, Target,
};
use crate::selection::{lemma_selected_ids_concat, selected_ids};

verus! {

/// The least quantity of a line that receives the listed-variant discount.
pub const LISTED_MIN_QUANTITY: i64 = 5;

/// A line receives the discount when it has at least five items of a
/// variant that some node of `config` lists.
pub open spec fn listed_keeps(config: Seq<Nodes>, line: CartLine) -> bool {
    &&& line.quantity >= LISTED_MIN_QUANTITY
    &&& line_variant_id(line) matches Some(id)
    &&& config_lists(config, id)
}

/// The variant ids that the listed-variant discount targets, in cart order.
pub open spec fn listed_target_ids(config: Seq<Nodes>, lines: Seq<CartLine>) -> Seq<Seq<char>> {
    selected_ids(lines, |l: CartLine| listed_keeps(config, l))
}

/// Ten percent off (written `10`) every line of at least five items of a
/// variant that the configuration lists. `config` is `None` when the
/// discount node has no metafield, and then there is no discount.
pub fn listed_volume_discount(cart: &Cart, config: &Option<Vec<Nodes>>) -> (r: FunctionResult)
    ensures
        config is None ==> is_no_discount(r),
        config matches Some(c) ==> is_single_percentage(
            r,
            listed_target_ids(c@, cart.lines@),
            DecimalModel::Text("10"@),
        ),
{
    let config = match config {
        Some(c) => c,
        None => return no_discount(),
    };
    let lines = &cart.lines;
    let mut targets: Vec<Target> = Vec::new();
    let n = lines.len();
    for i in 0..n
        invariant
            n == lines@.len(),
            targets_are(targets@, listed_target_ids(config@, lines@.take(i as int))),
    {
        let line = &lines[i];
        assert(lines@.take(i + 1).drop_last() =~= lines@.take(i as int));
        assert(lines@.take(i + 1).last() == *line);
        if line.quantity >= LISTED_MIN_QUANTITY {
            match &line.merchandise {
                Merchandise::ProductVariant(v) => {
                    if config_names(config, &v.id) {
                        targets.push(variant_target(&v.id));
                    }
                },
                Merchandise::CustomProduct => {},
            }
        }
    }
    assert(lines@.take(n as int) =~= lines@);
    single_percentage(targets, Decimal::Text("10".to_owned()), Ghost(listed_target_ids(config@, lines@)))
}

/// Which lines the listed-variant discount targets is decided line by line.
pub proof fn lemma_listed_targets_concat(config: Seq<Nodes>, a: Seq<CartLine>, b: Seq<CartLine>)
    ensures
        listed_target_ids(config, a + b) == listed_target_ids(config, a) + listed_target_ids(config, b),
{
    lemma_selected_ids_concat(a, b, |l: CartLine| listed_keeps(config, l));
}

/// The listed-variant discount targets nothing in an empty cart, and a
/// line added at the end of a cart is targeted, after the cart's own
/// targets, exactly when it sells a variant that some node lists and has at
/// least five items, whatever tiers the nodes carry.
pub proof fn lemma_listed_targets_line_by_line(config: Seq<Nodes>, lines: Seq<CartLine>, line: CartLine)
    ensures
        listed_target_ids(config, Seq::empty()) == Seq::<Seq<char>>::empty(),
        listed_target_ids(config, lines.push(line)) == listed_target_ids(config, lines) + match line.merchandise {
            Merchandise::ProductVariant(v) => if line.quantity >= 5 && exists|k: int, j: int|
                0 <= k < config.len() && 0 <= j < config[k].variants@.len() && (#[trigger] config[k].variants@[j])@ == v.id@ {
                seq![v.id@]
            } else {
                Seq::empty()
            },
            Merchandise::CustomProduct => Seq::empty(),
        },
{
    let all = lines.push(line);
    assert(all.drop_last() =~= lines);
    assert(all.last() == line);
    let prev = listed_target_ids(config, lines);
    match line.merchandise {
        Merchandise::ProductVariant(v) => {
            let listed = exists|k: int, j: int|
                0 <= k < config.len() && 0 <= j < config[k].variants@.len() && (#[trigger] config[k].variants@[j])@ == v.id@;
            if listed {
                let (k, j) = choose|k: int, j: int|
                    0 <= k < config.len() && 0 <= j < config[k].variants@.len() && (#[trigger] config[k].variants@[j])@ == v.id@;
                assert(crate::config::node_lists(config[k], v.id@));
                assert(config_lists(config, v.id@));
            } else {
                if config_lists(config, v.id@) {
                    let k = choose|k: int| 0 <= k < config.len() && crate::config::node_lists(#[trigger] config[k], v.id@);
                    let j = choose|j: int| 0 <= j < config[k].variants@.len() && (#[trigger] config[k].variants@[j])@ == v.id@;
                    assert(config[k].variants@[j]@ == v.id@);
                }
            }
            if line.quantity >= 5 && listed {
                assert(prev.push(v.id@) =~= prev + seq![v.id@]);
            } else {
                assert(prev =~= prev + Seq::<Seq<char>>::empty());
            }
        },
        Merchandise::CustomProduct => {
            assert(prev =~= prev + Seq::<Seq<char>>::empty());
        },
    }
}

} // verus!
