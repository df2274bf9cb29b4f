//! Quantity-tiered discounts from the configuration: for each node, every
//! cart line of a variant that the node lists gets the discount of the last
//! tier whose quantity it reaches.

use vstd::prelude::*;
use crate::config::{node_lists, node_names, Nodes, Tier};
use crate::input::{line_variant_id, Cart, CartLine, Merchandise};
use crate::output::{
    is_fixed_each, is_no_discount, is_percentage, is_variant_target, no_discount, targets_are,
    variant_target, Decimal, DecimalModel, Discount, DiscountApplicationStrategy, FixedAmount,
    FunctionResult, Percentage, ProductVariantTarget, Target, Value,
};

verus! {

/// The index of the last tier whose quantity is at most `q`.
pub open spec fn tier_pick(tiers: Seq<Tier>, q: u32) -> Option<int>
    decreases tiers.len(),
{
    if tiers.len() == 0 {
        None
    } else if tiers.last().quantity <= q {
        Some(tiers.len() - 1)
    } else {
        tier_pick(tiers.drop_last(), q)
    }
}

/// The tier picked for `q` is the last one whose quantity `q` reaches: it
/// reaches it, and reaches no later tier; when none is picked, `q` reaches
/// no tier at all.
pub proof fn lemma_tier_pick_is_last_reached(tiers: Seq<Tier>, q: u32)
    ensures
        tier_pick(tiers, q) matches Some(k) ==> {
            &&& 0 <= k < tiers.len()
            &&& tiers[k].quantity <= q
            &&& forall|j: int| k < j < tiers.len() ==> #[trigger] tiers[j].quantity > q
        },
        tier_pick(tiers, q) is None ==> forall|j: int| 0 <= j < tiers.len() ==> #[trigger] tiers[j].quantity > q,
    decreases tiers.len(),
{
    if tiers.len() > 0 {
        let t = tiers.drop_last();
        lemma_tier_pick_is_last_reached(t, q);
        if tiers.last().quantity > q {
            match tier_pick(t, q) {
                Some(k) => {
                    assert(tiers[k] == t[k]);
                    assert forall|j: int| k < j < tiers.len() implies #[trigger] tiers[j].quantity > q by {
                        if j < tiers.len() - 1 {
                            assert(tiers[j] == t[j]);
                        }
                    }
                },
                None => {
                    assert forall|j: int| 0 <= j < tiers.len() implies #[trigger] tiers[j].quantity > q by {
                        if j < tiers.len() - 1 {
                            assert(tiers[j] == t[j]);
                        }
                    }
                },
            }
        }
    }
}

/// A larger quantity never picks an earlier tier.
pub proof fn lemma_tier_pick_monotone(tiers: Seq<Tier>, q1: u32, q2: u32)
    requires
        q1 <= q2,
    ensures
        tier_pick(tiers, q1) matches Some(k1) ==> (tier_pick(tiers, q2) matches Some(k2) && k1 <= k2),
{
    lemma_tier_pick_is_last_reached(tiers, q1);
    lemma_tier_pick_is_last_reached(tiers, q2);
    if let Some(k1) = tier_pick(tiers, q1) {
        assert(tiers[k1].quantity <= q2);
        if let Some(k2) = tier_pick(tiers, q2) {
            if k2 < k1 {
                assert(tiers[k1].quantity > q2);
            }
        }
    }
}

/// A discount that the tiered function emits: the variants it targets, and
/// a percentage or a fixed amount off each item, of the 32-bit float whose
/// bits are `value`.
pub struct PlannedDiscount {
    pub targets: Seq<Seq<char>>,
    pub percentage: bool,
    pub value: u32,
}

/// Where the scan of the cart for one node stands: the tier quantity last
/// picked, the variants targeted so far, and the discounts emitted so far.
pub struct NodeScan {
    pub threshold: u32,
    pub targets: Seq<Seq<char>>,
    pub discounts: Seq<PlannedDiscount>,
}

/// The scan of `lines` for `node`. A line of a listed variant picks the
/// last tier it reaches (its quantity taken as a `u32`); the tier quantity
/// stays from earlier lines when it reaches none, and the discount is then
/// a fixed amount of zero. When the line's quantity reaches that tier
/// quantity, its variant joins the node's targets and a discount on all the
/// node's targets so far is emitted.
pub open spec fn node_scan(node: Nodes, lines: Seq<CartLine>) -> NodeScan
    decreases lines.len(),
{
    if lines.len() == 0 {
        NodeScan { threshold: 0, targets: Seq::empty(), discounts: Seq::empty() }
    } else {
        let prev = node_scan(node, lines.drop_last());
        let line = lines.last();
        match line_variant_id(line) {
            Some(id) => if node_lists(node, id) {
                let pick = tier_pick(node.discount@, line.quantity as u32);
                let threshold = match pick {
                    Some(k) => node.discount@[k].quantity,
                    None => prev.threshold,
                };
                let percentage = match pick {
                    Some(k) => node.discount@[k].discount_type@ == "P"@,
                    None => false,
                };
                let value = match pick {
                    Some(k) => node.discount@[k].value,
                    None => 0u32,
                };
                if line.quantity >= threshold as i64 {
                    let targets = prev.targets.push(id);
                    NodeScan {
                        threshold,
                        targets,
                        discounts: prev.discounts.push(PlannedDiscount { targets, percentage, value }),
                    }
                } else {
                    NodeScan { threshold, targets: prev.targets, discounts: prev.discounts }
                }
            } else {
                prev
            },
            None => prev,
        }
    }
}

/// For one node, each emitted discount covers every variant that the node
/// has targeted up to and including the line that emitted it: the k-th
/// discount targets the first k + 1 targets, and there is one discount per
/// target.
pub proof fn lemma_node_scan_cumulative(node: Nodes, lines: Seq<CartLine>)
    ensures
        node_scan(node, lines).discounts.len() == node_scan(node, lines).targets.len(),
        forall|k: int| 0 <= k < node_scan(node, lines).discounts.len() ==>
            (#[trigger] node_scan(node, lines).discounts[k]).targets == node_scan(node, lines).targets.take(k + 1),
    decreases lines.len(),
{
    if lines.len() > 0 {
        let prev = node_scan(node, lines.drop_last());
        lemma_node_scan_cumulative(node, lines.drop_last());
        let scan = node_scan(node, lines);
        if scan.targets.len() > prev.targets.len() {
            assert forall|k: int| 0 <= k < scan.discounts.len() implies
                (#[trigger] scan.discounts[k]).targets == scan.targets.take(k + 1) by {
                if k < prev.discounts.len() {
                    assert(scan.discounts[k] == prev.discounts[k]);
                    assert(scan.targets.take(k + 1) =~= prev.targets.take(k + 1));
                } else {
                    assert(scan.targets.take(k + 1) =~= scan.targets);
                }
            }
        }
    }
}

/// What one more cart line does to the scan of a node. A line that sells no
/// variant the node lists changes nothing. For a listed line, whose
/// quantity read as a `u32` is `q`:
/// - when tier `k` is the last tier whose quantity `q` reaches, the tier
///   quantity becomes tier `k`'s; if the line's quantity reaches it, the line
///   joins the targets and a discount of tier `k`'s value is emitted on all
///   targets so far, a percentage exactly when tier `k`'s type is `P`, and
///   otherwise nothing is emitted;
/// - when `q` reaches no tier, the tier quantity stays; if the line's
///   quantity reaches it, the line joins the targets and a fixed amount of
///   zero is emitted on all targets so far, and otherwise nothing is.
pub proof fn lemma_node_scan_line(node: Nodes, lines: Seq<CartLine>, line: CartLine)
    ensures
        ({
            let prev = node_scan(node, lines);
            let scan = node_scan(node, lines.push(line));
            let tiers = node.discount@;
            let q = line.quantity as u32;
            match line.merchandise {
                Merchandise::ProductVariant(v) => if exists|j: int|
                    0 <= j < node.variants@.len() && (#[trigger] node.variants@[j])@ == v.id@ {
                    &&& forall|k: int| 0 <= k < tiers.len() && tiers[k].quantity <= q
                        && (forall|j: int| k < j < tiers.len() ==> #[trigger] tiers[j].quantity > q) ==> {
                        &&& scan.threshold == (#[trigger] tiers[k]).quantity
                        &&& line.quantity >= tiers[k].quantity ==> {
                            &&& scan.targets == prev.targets.push(v.id@)
                            &&& scan.discounts == prev.discounts.push(PlannedDiscount {
                                targets: prev.targets.push(v.id@),
                                percentage: tiers[k].discount_type@ == "P"@,
                                value: tiers[k].value,
                            })
                        }
                        &&& line.quantity < tiers[k].quantity ==> {
                            &&& scan.targets == prev.targets
                            &&& scan.discounts == prev.discounts
                        }
                    }
                    &&& (forall|j: int| 0 <= j < tiers.len() ==> #[trigger] tiers[j].quantity > q) ==> {
                        &&& scan.threshold == prev.threshold
                        &&& line.quantity >= prev.threshold ==> {
                            &&& scan.targets == prev.targets.push(v.id@)
                            &&& scan.discounts == prev.discounts.push(PlannedDiscount {
                                targets: prev.targets.push(v.id@),
                                percentage: false,
                                value: 0,
                            })
                        }
                        &&& line.quantity < prev.threshold ==> {
                            &&& scan.targets == prev.targets
                            &&& scan.discounts == prev.discounts
                        }
                    }
                } else {
                    scan == prev
                },
                Merchandise::CustomProduct => scan == prev,
            }
        }),
{
    let all = lines.push(line);
    assert(all.drop_last() =~= lines);
    assert(all.last() == line);
    let tiers = node.discount@;
    let q = line.quantity as u32;
    lemma_tier_pick_is_last_reached(tiers, q);
    match tier_pick(tiers, q) {
        Some(p) => {
            assert forall|k: int| 0 <= k < tiers.len() && tiers[k].quantity <= q
                && (forall|j: int| k < j < tiers.len() ==> #[trigger] tiers[j].quantity > q) implies k == p by {
                if k < p {
                    assert(tiers[p].quantity > q);
                } else if k > p {
                    assert(tiers[k].quantity > q);
                }
            }
            assert(!(forall|j: int| 0 <= j < tiers.len() ==> #[trigger] tiers[j].quantity > q)) by {
                assert(tiers[p].quantity <= q);
            }
        },
        None => {
            assert forall|k: int| !(0 <= k < tiers.len() && #[trigger] tiers[k].quantity <= q) by {}
        },
    }
}

/// The discounts of all nodes, node after node.
pub open spec fn tiered_plan(config: Seq<Nodes>, lines: Seq<CartLine>) -> Seq<PlannedDiscount>
    decreases config.len(),
{
    if config.len() == 0 {
        Seq::empty()
    } else {
        tiered_plan(config.drop_last(), lines) + node_scan(config.last(), lines).discounts
    }
}

/// The discounts of no node are none, and a node added at the end of the
/// configuration adds its own discounts after those of the nodes before it.
pub proof fn lemma_tiered_plan_node_by_node(config: Seq<Nodes>, node: Nodes, lines: Seq<CartLine>)
    ensures
        tiered_plan(Seq::empty(), lines) == Seq::<PlannedDiscount>::empty(),
        tiered_plan(config.push(node), lines) == tiered_plan(config, lines) + node_scan(node, lines).discounts,
{
    assert(config.push(node).drop_last() =~= config);
}

/// `d` is the discount that `p` plans.
pub open spec fn realizes(d: Discount, p: PlannedDiscount) -> bool {
    &&& d.message is None
    &&& targets_are(d.targets@, p.targets)
    &&& if p.percentage {
        is_percentage(d.value, DecimalModel::Float32(p.value))
    } else {
        is_fixed_each(d.value, DecimalModel::Float32(p.value))
    }
}

/// `ds` are the discounts that `plan` plans, in order.
pub open spec fn realizes_all(ds: Seq<Discount>, plan: Seq<PlannedDiscount>) -> bool {
    &&& ds.len() == plan.len()
    &&& forall|i: int| 0 <= i < ds.len() ==> realizes(#[trigger] ds[i], plan[i])
}

/// The index of the last of `tiers` whose quantity is at most `q`.
pub fn last_tier_reached(tiers: &Vec<Tier>, q: u32) -> (r: Option<usize>)
    ensures
        r matches Some(k) ==> tier_pick(tiers@, q) == Some(k as int) && k < tiers@.len(),
        r is None ==> tier_pick(tiers@, q) is None,
{
    proof {
        lemma_tier_pick_is_last_reached(tiers@, q);
    }
    let mut pick: Option<usize> = None;
    let m = tiers.len();
    for j in 0..m
        invariant
            m == tiers@.len(),
            pick matches Some(k) ==> tier_pick(tiers@.take(j as int), q) == Some(k as int),
            pick is None ==> tier_pick(tiers@.take(j as int), q) is None,
    {
        assert(tiers@.take(j + 1).drop_last() =~= tiers@.take(j as int));
        if tiers[j].quantity <= q {
            pick = Some(j);
        }
    }
    assert(tiers@.take(m as int) =~= tiers@);
    pick
}

/// A copy of `ts`.
fn copy_targets(ts: &Vec<Target>) -> (c: Vec<Target>)
    ensures
        c@ == ts@,
{
    let mut c: Vec<Target> = Vec::new();
    let n = ts.len();
    for i in 0..n
        invariant
            n == ts@.len(),
            c@ == ts@.take(i as int),
    {
        let t = &ts[i];
        let copy = match &t.product_variant {
            Some(p) => Target {
                product_variant: Some(ProductVariantTarget { id: p.id.clone(), quantity: p.quantity }),
            },
            None => Target { product_variant: None },
        };
        c.push(copy);
        assert(ts@.take(i + 1) =~= ts@.take(i as int).push(*t));
    }
    assert(ts@.take(n as int) =~= ts@);
    c
}

/// The discount value of a picked tier, or a fixed zero when none is picked.
fn tier_value(tiers: &Vec<Tier>, pick: Option<usize>, Ghost(percentage): Ghost<bool>, Ghost(value): Ghost<u32>) -> (v: Value)
    requires
        pick matches Some(k) ==> k < tiers@.len() && percentage == (tiers@[k as int].discount_type@ == "P"@)
            && value == tiers@[k as int].value,
        pick is None ==> !percentage && value == 0,
    ensures
        percentage ==> is_percentage(v, DecimalModel::Float32(value)),
        !percentage ==> is_fixed_each(v, DecimalModel::Float32(value)),
{
    let (is_percentage_tier, bits) = match pick {
        Some(k) => {
            let p = "P".to_owned();
            (tiers[k].discount_type == p, tiers[k].value)
        },
        None => (false, 0u32),
    };
    if is_percentage_tier {
        Value { fixed_amount: None, percentage: Some(Percentage { value: Decimal::Float32(bits) }) }
    } else {
        Value {
            fixed_amount: Some(FixedAmount { amount: Decimal::Float32(bits), applies_to_each_item: Some(true) }),
            percentage: None,
        }
    }
}

/// For every node and every cart line of a variant that the node lists, the
/// discount of the last tier that the line's quantity reaches, on all the
/// node's targets so far (see [`node_scan`]); no discount when none is
/// emitted. `config` is `None` when the discount node has no metafield.
pub fn tiered_discount(cart: &Cart, config: &Option<Vec<Nodes>>) -> (r: FunctionResult)
    ensures
        config is None ==> is_no_discount(r),
        config matches Some(c) ==> {
            &&& r.discount_application_strategy == DiscountApplicationStrategy::First
            &&& realizes_all(r.discounts@, tiered_plan(c@, cart.lines@))
        },
{
    let config = match config {
        Some(c) => c,
        None => return no_discount(),
    };
    let lines = &cart.lines;
    let n = lines.len();
    let nodes = config.len();
    let mut dis: Vec<Discount> = Vec::new();
    for k in 0..nodes
        invariant
            nodes == config@.len(),
            n == lines@.len(),
            k <= nodes,
            realizes_all(dis@, tiered_plan(config@.take(k as int), lines@)),
    {
        let node = &config[k];
        let ghost before = dis@;
        let ghost plan_before = tiered_plan(config@.take(k as int), lines@);
        let mut targets: Vec<Target> = Vec::new();
        let mut d_quantity: u32 = 0;
        for i in 0..n
            invariant
                n == lines@.len(),
                *node == config@[k as int],
                realizes_all(before, plan_before),
                d_quantity == node_scan(*node, lines@.take(i as int)).threshold,
                targets_are(targets@, node_scan(*node, lines@.take(i as int)).targets),
                dis@.len() == before.len() + node_scan(*node, lines@.take(i as int)).discounts.len(),
                dis@.take(before.len() as int) == before,
                realizes_all(dis@.skip(before.len() as int), node_scan(*node, lines@.take(i as int)).discounts),
        {
            let line = &lines[i];
            let ghost prefix = lines@.take(i + 1);
            assert(prefix.drop_last() =~= lines@.take(i as int));
            assert(prefix.last() == *line);
            match &line.merchandise {
                Merchandise::ProductVariant(v) => {
                    if node_names(node, &v.id) {
                        let q = line.quantity as u32;
                        let pick = last_tier_reached(&node.discount, q);
                        let ghost percentage = match pick {
                            Some(j) => node.discount@[j as int].discount_type@ == "P"@,
                            None => false,
                        };
                        let ghost value = match pick {
                            Some(j) => node.discount@[j as int].value,
                            None => 0u32,
                        };
                        match pick {
                            Some(j) => {
                                d_quantity = node.discount[j].quantity;
                            },
                            None => {},
                        }
                        if line.quantity >= d_quantity as i64 {
                            let ghost old_dis = dis@;
                            targets.push(variant_target(&v.id));
                            let value_now = tier_value(&node.discount, pick, Ghost(percentage), Ghost(value));
                            let copied = copy_targets(&targets);
                            let d = Discount { message: None, targets: copied, value: value_now };
                            dis.push(d);
                            proof {
                                let scan = node_scan(*node, prefix);
                                assert(dis@.take(before.len() as int) =~= old_dis.take(before.len() as int));
                                assert(dis@.skip(before.len() as int) =~= old_dis.skip(before.len() as int).push(d));
                                assert(realizes(d, scan.discounts.last()));
                            }
                        }
                    }
                },
                Merchandise::CustomProduct => {},
            }
        }
        proof {
            assert(lines@.take(n as int) =~= lines@);
            let taken = config@.take(k + 1);
            assert(taken.drop_last() =~= config@.take(k as int));
            assert(taken.last() == *node);
            let plan = tiered_plan(taken, lines@);
            let scan = node_scan(*node, lines@);
            assert(plan == plan_before + scan.discounts);
            assert(dis@ =~= before + dis@.skip(before.len() as int));
            assert forall|i: int| 0 <= i < dis@.len() implies realizes(#[trigger] dis@[i], plan[i]) by {
                if i < before.len() {
                    assert(dis@[i] == before[i]);
                } else {
                    assert(dis@[i] == dis@.skip(before.len() as int)[i - before.len()]);
                }
            }
        }
    }
    assert(config@.take(nodes as int) =~= config@);
    if dis.len() == 0 {
        return no_discount();
    }
    FunctionResult { discounts: dis, discount_application_strategy: DiscountApplicationStrategy::First }
}

} // verus!
