//! The cart and result of the order discount functions, which read the
//! line costs and write one fixed amount off the order subtotal.

use vstd::prelude::*;

verus! {

pub struct MoneyV2 {
    pub amount: String,
}

pub struct CartLineCost {
    pub subtotal_amount: MoneyV2,
}

pub struct Metafield {
    pub value: Option<String>,
}

pub struct Merchandise {
    pub id: String,
    pub metafield: Option<Metafield>,
}

pub struct CartLine {
    pub quantity: i64,
    pub cost: CartLineCost,
    pub merchandise: Option<Merchandise>,
}

pub struct Cart {
    pub lines: Option<Vec<CartLine>>,
}

pub struct DiscountNode {
    pub metafield: Option<Metafield>,
}

pub struct Input {
    pub cart: Option<Cart>,
    pub discount_node: Option<DiscountNode>,
}

/// The lines of the cart; none when the cart or its lines are missing.
pub open spec fn input_lines(input: Input) -> Seq<CartLine> {
    match input.cart {
        Some(cart) => match cart.lines {
            Some(lines) => lines@,
            None => Seq::empty(),
        },
        None => Seq::empty(),
    }
}

/// The text of the discount node's metafield, when there is one.
pub open spec fn node_metafield_value(input: Input) -> Option<Seq<char>> {
    match input.discount_node {
        Some(node) => match node.metafield {
            Some(m) => match m.value {
                Some(v) => Some(v@),
                None => None,
            },
            None => None,
        },
        None => None,
    }
}

/// The text of a line's merchandise metafield, when there is one.
pub open spec fn line_metafield_value(line: CartLine) -> Option<Seq<char>> {
    match line.merchandise {
        Some(m) => match m.metafield {
            Some(f) => match f.value {
                Some(v) => Some(v@),
                None => None,
            },
            None => None,
        },
        None => None,
    }
}

/// The lines of the cart, when there are any.
pub fn cart_lines(input: &Input) -> (r: Option<&Vec<CartLine>>)
    ensures
        r matches Some(lines) ==> lines@ == input_lines(*input),
        r is None ==> input_lines(*input).len() == 0,
{
    match &input.cart {
        Some(cart) => match &cart.lines {
            Some(lines) => Some(lines),
            None => None,
        },
        None => None,
    }
}

pub struct OrderSubtotal {
    pub excluded_variant_ids: Vec<String>,
}

pub struct Target {
    pub order_subtotal: OrderSubtotal,
}

/// An amount off; a 64-bit float kept by its bit pattern.
pub struct FixedAmount {
    pub amount: u64,
}

pub struct Value {
    pub fixed_amount: FixedAmount,
}

pub struct Discount {
    pub value: Value,
    pub targets: Vec<Target>,
    pub message: String,
}

pub struct Output {
    pub discount_application_strategy: String,
    pub discounts: Vec<Discount>,
}

/// The result of the order discount functions: `amount` off the whole order
/// subtotal, excluding no variant, with the first-discount strategy.
pub open spec fn is_order_output(r: Output, amount: u64) -> bool {
    &&& r.discount_application_strategy@ == "FIRST"@
    &&& r.discounts@.len() == 1
    &&& r.discounts@[0].value.fixed_amount.amount == amount
    &&& r.discounts@[0].message@ == "Bevy Discount Test"@
    &&& r.discounts@[0].targets@.len() == 1
    &&& r.discounts@[0].targets@[0].order_subtotal.excluded_variant_ids@.len() == 0
}

/// One discount of `amount` off the order subtotal.
pub fn order_output(amount: u64) -> (r: Output)
    ensures
        is_order_output(r, amount),
{
    let mut targets: Vec<Target> = Vec::new();
    targets.push(Target { order_subtotal: OrderSubtotal { excluded_variant_ids: Vec::new() } });
    let mut discounts: Vec<Discount> = Vec::new();
    discounts.push(Discount {
        value: Value { fixed_amount: FixedAmount { amount } },
        targets,
        message: "Bevy Discount Test".to_owned(),
    });
    Output { discount_application_strategy: "FIRST".to_owned(), discounts }
}

} // verus!
