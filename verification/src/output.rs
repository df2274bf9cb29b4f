//! The discounts that a product discount function returns.

use vstd::prelude::*;

verus! {

/// A decimal amount as it is written into the result: either a fixed text,
/// or the text of a float, kept here by its bit pattern and written out by
/// the caller.
pub enum Decimal {
    Text(String),
    Float32(u32),
    Float64(u64),
}

/// The mathematical content of a [`Decimal`].
pub enum DecimalModel {
    Text(Seq<char>),
    Float32(u32),
    Float64(u64),
}

impl View for Decimal {
    type V = DecimalModel;

    open spec fn view(&self) -> DecimalModel {
        match self {
            Decimal::Text(s) => DecimalModel::Text(s@),
            Decimal::Float32(b) => DecimalModel::Float32(*b),
            Decimal::Float64(b) => DecimalModel::Float64(*b),
        }
    }
}

pub struct Percentage {
    pub value: Decimal,
}

pub struct FixedAmount {
    pub amount: Decimal,
    pub applies_to_each_item: Option<bool>,
}

pub struct Value {
    pub fixed_amount: Option<FixedAmount>,
    pub percentage: Option<Percentage>,
}

pub struct ProductVariantTarget {
    pub id: String,
    pub quantity: Option<i64>,
}

pub struct Target {
    pub product_variant: Option<ProductVariantTarget>,
}

pub struct Discount {
    pub message: Option<String>,
    pub targets: Vec<Target>,
    pub value: Value,
}

#[derive(PartialEq, Eq, Structural)]
pub enum DiscountApplicationStrategy {
    First,
    Maximum,
}

pub struct FunctionResult {
    pub discounts: Vec<Discount>,
    pub discount_application_strategy: DiscountApplicationStrategy,
}

/// `t` targets the whole quantity of the variant `id`.
pub open spec fn is_variant_target(t: Target, id: Seq<char>) -> bool {
    &&& t.product_variant matches Some(p)
    &&& p.id@ == id
    &&& p.quantity is None
}

/// `ts` targets the variants `ids`, one each, in that order.
pub open spec fn targets_are(ts: Seq<Target>, ids: Seq<Seq<char>>) -> bool {
    &&& ts.len() == ids.len()
    &&& forall|i: int| 0 <= i < ts.len() ==> is_variant_target(#[trigger] ts[i], ids[i])
}

/// `v` is a percentage off, of `amount`.
pub open spec fn is_percentage(v: Value, amount: DecimalModel) -> bool {
    &&& v.fixed_amount is None
    &&& v.percentage matches Some(p)
    &&& p.value@ == amount
}

/// `v` is a fixed amount off each item, of `amount`.
pub open spec fn is_fixed_each(v: Value, amount: DecimalModel) -> bool {
    &&& v.percentage is None
    &&& v.fixed_amount matches Some(f)
    &&& f.amount@ == amount
    &&& f.applies_to_each_item == Some(true)
}

/// The result that gives no discount.
pub open spec fn is_no_discount(r: FunctionResult) -> bool {
    &&& r.discounts@.len() == 0
    &&& r.discount_application_strategy == DiscountApplicationStrategy::First
}

/// `r` is one percentage discount of `amount` on the variants `ids`, with
/// the first-discount strategy; or no discount when `ids` is empty.
pub open spec fn is_single_percentage(r: FunctionResult, ids: Seq<Seq<char>>, amount: DecimalModel) -> bool {
    if ids.len() == 0 {
        is_no_discount(r)
    } else {
        &&& r.discount_application_strategy == DiscountApplicationStrategy::First
        &&& r.discounts@.len() == 1
        &&& r.discounts@[0].message is None
        &&& targets_are(r.discounts@[0].targets@, ids)
        &&& is_percentage(r.discounts@[0].value, amount)
    }
}

/// The result that gives no discount.
pub fn no_discount() -> (r: FunctionResult)
    ensures
        is_no_discount(r),
{
    FunctionResult {
        discounts: Vec::new(),
        discount_application_strategy: DiscountApplicationStrategy::First,
    }
}

/// A target on the whole quantity of the variant `id`.
pub fn variant_target(id: &String) -> (t: Target)
    ensures
        is_variant_target(t, id@),
{
    Target { product_variant: Some(ProductVariantTarget { id: id.clone(), quantity: None }) }
}

/// One percentage discount over `targets` with the first-discount strategy,
/// or no discount when there is no target.
pub(crate) fn single_percentage(targets: Vec<Target>, amount: Decimal, Ghost(ids): Ghost<Seq<Seq<char>>>) -> (r: FunctionResult)
    requires
        targets_are(targets@, ids),
    ensures
        is_single_percentage(r, ids, amount@),
{
    if targets.len() == 0 {
        return no_discount();
    }
    let value = Value { fixed_amount: None, percentage: Some(Percentage { value: amount }) };
    let mut discounts: Vec<Discount> = Vec::new();
    discounts.push(Discount { message: None, targets, value });
    FunctionResult { discounts, discount_application_strategy: DiscountApplicationStrategy::First }
}

} // verus!
