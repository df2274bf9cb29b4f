//! The cart and discount node that a product discount function reads.

use vstd::prelude::*;

verus! {

/// A product variant in the cart, known by its global id.
pub struct ProductVariant {
    pub id: String,
}

/// What a cart line sells.
pub enum Merchandise {
    ProductVariant(ProductVariant),
    CustomProduct,
}

/// One line of the cart.
pub struct CartLine {
    pub quantity: i64,
    pub merchandise: Merchandise,
}

/// The cart.
pub struct Cart {
    pub lines: Vec<CartLine>,
}

/// A metafield of the discount node, holding its raw text value.
pub struct Metafield {
    pub value: String,
}

/// The discount node whose function runs.
pub struct DiscountNode {
    pub metafield: Option<Metafield>,
}

/// Everything the function is given.
pub struct ResponseData {
    pub cart: Cart,
    pub discount_node: DiscountNode,
}

/// The variant id of a line that sells a product variant.
pub open spec fn line_variant_id(line: CartLine) -> Option<Seq<char>> {
    match line.merchandise {
        Merchandise::ProductVariant(v) => Some(v.id@),
        Merchandise::CustomProduct => None,
    }
}

} // verus!
