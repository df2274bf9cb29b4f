//! The discount configuration kept in the discount node's metafield: a
//! list of nodes, each naming variants and quantity tiers.

use vstd::prelude::*;

verus! {

/// One quantity tier: from `quantity` items on, a discount of `value`,
/// a percentage when `discount_type` is `P` and a fixed amount otherwise.
/// `value` is a 32-bit float, kept by its bit pattern.
pub struct Tier {
    pub value: u32,
    pub quantity: u32,
    pub discount_type: String,
}

/// A group of variants that share their quantity tiers.
pub struct Nodes {
    pub discount: Vec<Tier>,
    pub variants: Vec<String>,
}

/// `node` names the variant `id`.
pub open spec fn node_lists(node: Nodes, id: Seq<char>) -> bool {
    exists|j: int| 0 <= j < node.variants@.len() && (#[trigger] node.variants@[j])@ == id
}

/// Some node of `config` names the variant `id`.
pub open spec fn config_lists(config: Seq<Nodes>, id: Seq<char>) -> bool {
    exists|k: int| 0 <= k < config.len() && node_lists(#[trigger] config[k], id)
}

/// Whether `node` names the variant `id`.
pub fn node_names(node: &Nodes, id: &String) -> (r: bool)
    ensures
        r == node_lists(*node, id@),
{
    let n = node.variants.len();
    for j in 0..n
        invariant
            n == node.variants@.len(),
            forall|i: int| 0 <= i < j ==> (#[trigger] node.variants@[i])@ != id@,
    {
        if node.variants[j] == *id {
            return true;
        }
    }
    false
}

/// Whether some node of `config` names the variant `id`.
pub fn config_names(config: &Vec<Nodes>, id: &String) -> (r: bool)
    ensures
        r == config_lists(config@, id@),
{
    let n = config.len();
    for k in 0..n
        invariant
            n == config@.len(),
            forall|i: int| 0 <= i < k ==> !node_lists(#[trigger] config@[i], id@),
    {
        if node_names(&config[k], id) {
            return true;
        }
    }
    false
}

} // verus!
