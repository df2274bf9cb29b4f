//! A discount configured for one variant: a percentage off lines of that
//! variant that reach a configured quantity.

use vstd::prelude::*;
use crate::input::{line_variant_id, Cart, CartLine, Merchandise};
use crate::output::{
    is_no_discount, is_single_percentage, no_discount, single_percentage, targets_are,
    variant_target, Decimal, DecimalModel, FunctionResult, Target,
};
use crate::selection::{lemma_selected_ids_concat, selected_ids};

verus! {

/// The configuration of the single-variant discount. `percentage` is a
/// 64-bit float, kept by its bit pattern.
pub struct Configuration {
    pub quantity: i64,
    pub percentage: u64,
    pub variant: String,
}

impl Configuration {
    /// The quantity of the default configuration, which few lines reach.
    pub const DEFAULT_QUANTITY: i64 = 999;
    /// The bits of the default percentage, `0.0`.
    pub const DEFAULT_PERCENTAGE: u64 = 0;
}

impl Default for Configuration {
    /// Quantity 999, percentage `0.0`, and the empty variant id.
    fn default() -> (c: Configuration)
        ensures
            c.quantity == Configuration::DEFAULT_QUANTITY,
            c.percentage == Configuration::DEFAULT_PERCENTAGE,
            c.variant@ == Seq::<char>::empty(),
    {
        Configuration {
            quantity: Self::DEFAULT_QUANTITY,
            percentage: Self::DEFAULT_PERCENTAGE,
            variant: String::new(),
        }
    }
}

/// A line receives the discount when it sells the configured variant and
/// reaches the configured quantity.
pub open spec fn single_keeps(config: Configuration, line: CartLine) -> bool {
    &&& line.quantity >= config.quantity
    &&& line_variant_id(line) == Some(config.variant@)
}

/// The variant ids that the single-variant discount targets, in cart order.
pub open spec fn single_target_ids(config: Configuration, lines: Seq<CartLine>) -> Seq<Seq<char>> {
    selected_ids(lines, |l: CartLine| single_keeps(config, l))
}

/// The configured percentage off every line of the configured variant that
/// reaches the configured quantity; no discount when there is none, or when
/// `config` is `None` because the discount node has no metafield.
pub fn single_variant_discount(cart: &Cart, config: &Option<Configuration>) -> (r: FunctionResult)
    ensures
        config is None ==> is_no_discount(r),
        config matches Some(c) ==> is_single_percentage(
            r,
            single_target_ids(*c, cart.lines@),
            DecimalModel::Float64(c.percentage),
        ),
{
    let config = match config {
        Some(c) => c,
        None => return no_discount(),
    };
    let lines = &cart.lines;
    let mut targets: Vec<Target> = Vec::new();
    let n = lines.len();
    for i in 0..n
        invariant
            n == lines@.len(),
            targets_are(targets@, single_target_ids(*config, lines@.take(i as int))),
    {
        let line = &lines[i];
        assert(lines@.take(i + 1).drop_last() =~= lines@.take(i as int));
        assert(lines@.take(i + 1).last() == *line);
        if line.quantity >= config.quantity {
            match &line.merchandise {
                Merchandise::ProductVariant(v) => {
                    if v.id == config.variant {
                        targets.push(variant_target(&v.id));
                    }
                },
                Merchandise::CustomProduct => {},
            }
        }
    }
    assert(lines@.take(n as int) =~= lines@);
    single_percentage(targets, Decimal::Float64(config.percentage), Ghost(single_target_ids(*config, lines@)))
}

/// Which lines the single-variant discount targets is decided line by line.
pub proof fn lemma_single_targets_concat(config: Configuration, a: Seq<CartLine>, b: Seq<CartLine>)
    ensures
        single_target_ids(config, a + b) == single_target_ids(config, a) + single_target_ids(config, b),
{
    lemma_selected_ids_concat(a, b, |l: CartLine| single_keeps(config, l));
}

/// The single-variant discount targets nothing in an empty cart, and a
/// line added at the end of a cart is targeted, after the cart's own
/// targets, exactly when it sells the configured variant and its quantity
/// is at least the configured quantity, with no other bound.
pub proof fn lemma_single_targets_line_by_line(config: Configuration, lines: Seq<CartLine>, line: CartLine)
    ensures
        single_target_ids(config, Seq::empty()) == Seq::<Seq<char>>::empty(),
        single_target_ids(config, lines.push(line)) == single_target_ids(config, lines) + match line.merchandise {
            Merchandise::ProductVariant(v) => if line.quantity >= config.quantity && v.id@ == config.variant@ {
                seq![v.id@]
            } else {
                Seq::empty()
            },
            Merchandise::CustomProduct => Seq::empty(),
        },
{
    let all = lines.push(line);
    assert(all.drop_last() =~= lines);
    assert(all.last() == line);
    let prev = single_target_ids(config, lines);
    match line.merchandise {
        Merchandise::ProductVariant(v) => {
            if line.quantity >= config.quantity && v.id@ == config.variant@ {
                assert(prev.push(v.id@) =~= prev + seq![v.id@]);
            } else {
                assert(prev =~= prev + Seq::<Seq<char>>::empty());
            }
        },
        Merchandise::CustomProduct => {
            assert(prev =~= prev + Seq::<Seq<char>>::empty());
        },
    }
}

} // verus!
