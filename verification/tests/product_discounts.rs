use product_discount::config::{Nodes, Tier};
use product_discount::input::{Cart, CartLine, Merchandise, ProductVariant};
use product_discount::listed::listed_volume_discount;
use product_discount::output::{Decimal, DiscountApplicationStrategy, FunctionResult, Value};
use product_discount::single::{single_variant_discount, Configuration};
use product_discount::tiered::tiered_discount;
use product_discount::volume::volume_discount;
use product_discount::input::{DiscountNode, ResponseData};

const LISTED: &str = "gid://shopify/ProductVariant/43623862337751";

fn variant_line(id: &str, quantity: i64) -> CartLine {
    CartLine { quantity, merchandise: Merchandise::ProductVariant(ProductVariant { id: id.to_string() }) }
}

fn custom_line(quantity: i64) -> CartLine {
    CartLine { quantity, merchandise: Merchandise::CustomProduct }
}

fn response(lines: Vec<CartLine>) -> ResponseData {
    ResponseData { cart: Cart { lines }, discount_node: DiscountNode { metafield: None } }
}

fn target_ids(r: &FunctionResult, k: usize) -> Vec<String> {
    r.discounts[k]
        .targets
        .iter()
        .map(|t| {
            let p = t.product_variant.as_ref().unwrap();
            assert!(p.quantity.is_none());
            p.id.clone()
        })
        .collect()
}

fn percentage_text(v: &Value) -> String {
    assert!(v.fixed_amount.is_none());
    match &v.percentage.as_ref().unwrap().value {
        Decimal::Text(s) => s.clone(),
        _ => panic!("not a text percentage"),
    }
}

fn tier(value: f32, quantity: u32, kind: &str) -> Tier {
    Tier { value: value.to_bits(), quantity, discount_type: kind.to_string() }
}

fn node(tiers: Vec<Tier>, variants: &[&str]) -> Nodes {
    Nodes { discount: tiers, variants: variants.iter().map(|s| s.to_string()).collect() }
}

#[test]
fn volume_discount_targets_listed_lines_of_two_or_more() {
    let input = response(vec![
        variant_line(LISTED, 1),
        variant_line(LISTED, 2),
        variant_line("gid://shopify/ProductVariant/1", 5),
        custom_line(9),
        variant_line(LISTED, 7),
    ]);
    let r = volume_discount(&input);
    assert!(r.discount_application_strategy == DiscountApplicationStrategy::First);
    assert_eq!(r.discounts.len(), 1);
    assert!(r.discounts[0].message.is_none());
    assert_eq!(target_ids(&r, 0), vec![LISTED.to_string(), LISTED.to_string()]);
    assert_eq!(percentage_text(&r.discounts[0].value), "10.0");
}

#[test]
fn volume_discount_without_qualifying_line_gives_none() {
    let input = response(vec![variant_line(LISTED, 1), custom_line(3), variant_line("other", 10)]);
    let r = volume_discount(&input);
    assert!(r.discounts.is_empty());
    assert!(r.discount_application_strategy == DiscountApplicationStrategy::First);
    assert!(volume_discount(&response(vec![])).discounts.is_empty());
}

#[test]
fn volume_targets_of_joined_carts_are_joined() {
    let a = vec![variant_line(LISTED, 3), variant_line("other", 3)];
    let b = vec![custom_line(4), variant_line(LISTED, 2)];
    let mut ab = Vec::new();
    ab.push(variant_line(LISTED, 3));
    ab.push(variant_line("other", 3));
    ab.push(custom_line(4));
    ab.push(variant_line(LISTED, 2));
    let ra = volume_discount(&response(a));
    let rb = volume_discount(&response(b));
    let rab = volume_discount(&response(ab));
    let mut joined = target_ids(&ra, 0);
    joined.extend(target_ids(&rb, 0));
    assert_eq!(target_ids(&rab, 0), joined);
}

#[test]
fn listed_discount_needs_a_metafield() {
    let cart = Cart { lines: vec![variant_line("a", 10)] };
    let r = listed_volume_discount(&cart, &None);
    assert!(r.discounts.is_empty());
    assert!(r.discount_application_strategy == DiscountApplicationStrategy::First);
}

#[test]
fn listed_discount_targets_listed_lines_of_five_or_more() {
    let cart = Cart {
        lines: vec![
            variant_line("a", 4),
            variant_line("a", 5),
            variant_line("b", 6),
            variant_line("c", 50),
            custom_line(8),
        ],
    };
    let config = vec![node(vec![], &["x", "a"]), node(vec![], &["b"])];
    let r = listed_volume_discount(&cart, &Some(config));
    assert_eq!(r.discounts.len(), 1);
    assert_eq!(target_ids(&r, 0), vec!["a".to_string(), "b".to_string()]);
    assert_eq!(percentage_text(&r.discounts[0].value), "10");
    let none = listed_volume_discount(&cart, &Some(vec![node(vec![], &["z"])]));
    assert!(none.discounts.is_empty());
}

#[test]
fn single_variant_default_configuration() {
    let c = Configuration::default();
    assert_eq!(c.quantity, 999);
    assert_eq!(f64::from_bits(c.percentage), 0.0);
    assert_eq!(c.variant, "");
}

#[test]
fn single_variant_discount_uses_configured_quantity_and_percentage() {
    let cart = Cart { lines: vec![variant_line("v", 2), variant_line("v", 3), variant_line("w", 3)] };
    let config = Configuration { quantity: 3, percentage: 12.5f64.to_bits(), variant: "v".to_string() };
    let r = single_variant_discount(&cart, &Some(config));
    assert_eq!(r.discounts.len(), 1);
    assert_eq!(target_ids(&r, 0), vec!["v".to_string()]);
    match &r.discounts[0].value.percentage.as_ref().unwrap().value {
        Decimal::Float64(bits) => assert_eq!(f64::from_bits(*bits), 12.5),
        _ => panic!("expected a float percentage"),
    }
    assert!(single_variant_discount(&cart, &None).discounts.is_empty());
    let high = Configuration { quantity: 4, percentage: 0, variant: "v".to_string() };
    assert!(single_variant_discount(&cart, &Some(high)).discounts.is_empty());
}

#[test]
fn tiered_discount_picks_last_reached_tier() {
    let cart = Cart { lines: vec![variant_line("a", 3), variant_line("b", 12)] };
    let config = vec![node(vec![tier(5.0, 2, "P"), tier(10.0, 10, "P"), tier(7.5, 3, "F")], &["a", "b"])];
    let r = tiered_discount(&cart, &Some(config));
    assert!(r.discount_application_strategy == DiscountApplicationStrategy::First);
    assert_eq!(r.discounts.len(), 2);
    // Line "a" (3 items) reaches tiers 2 and 3; the last one reached is the fixed 7.5.
    assert_eq!(target_ids(&r, 0), vec!["a".to_string()]);
    let v0 = &r.discounts[0].value;
    assert!(v0.percentage.is_none());
    let fixed = v0.fixed_amount.as_ref().unwrap();
    assert_eq!(fixed.applies_to_each_item, Some(true));
    match fixed.amount {
        Decimal::Float32(bits) => assert_eq!(f32::from_bits(bits), 7.5),
        _ => panic!("expected a float amount"),
    }
    // Line "b" (12 items) reaches all three; the last is again the fixed 7.5,
    // and the discount covers both targets so far.
    assert_eq!(target_ids(&r, 1), vec!["a".to_string(), "b".to_string()]);
}

#[test]
fn tiered_discount_percentage_tier() {
    let cart = Cart { lines: vec![variant_line("a", 10)] };
    let config = vec![node(vec![tier(5.0, 2, "F"), tier(10.0, 10, "P")], &["a"])];
    let r = tiered_discount(&cart, &Some(config));
    assert_eq!(r.discounts.len(), 1);
    let p = r.discounts[0].value.percentage.as_ref().unwrap();
    assert!(r.discounts[0].value.fixed_amount.is_none());
    match p.value {
        Decimal::Float32(bits) => assert_eq!(f32::from_bits(bits), 10.0),
        _ => panic!("expected a float percentage"),
    }
}

#[test]
fn tiered_discount_without_reached_tier_keeps_threshold_and_gives_zero() {
    // The first line sets the tier quantity to 5; the second line reaches no
    // tier, keeps that quantity, and (having 6 items) gets a fixed zero.
    let cart = Cart { lines: vec![variant_line("a", 5), variant_line("b", 6), variant_line("a", 4)] };
    let config = vec![node(vec![tier(5.0, 5, "P"), tier(1.0, 100, "P")], &["a"]), node(vec![tier(2.0, 7, "P")], &["b"])];
    let r = tiered_discount(&cart, &Some(config));
    // Node 1: line "a" (5) picks tier 5 -> 5% ; line "a" (4) reaches none, threshold 5 stays, 4 < 5: nothing.
    // Node 2: line "b" (6) reaches no tier; threshold 0, 6 >= 0: fixed zero.
    assert_eq!(r.discounts.len(), 2);
    assert_eq!(target_ids(&r, 0), vec!["a".to_string()]);
    assert_eq!(target_ids(&r, 1), vec!["b".to_string()]);
    let zero = r.discounts[1].value.fixed_amount.as_ref().unwrap();
    match zero.amount {
        Decimal::Float32(bits) => assert_eq!(f32::from_bits(bits), 0.0),
        _ => panic!("expected a float amount"),
    }
}

#[test]
fn tiered_discount_none_when_nothing_emitted() {
    let cart = Cart { lines: vec![variant_line("a", 1), custom_line(9)] };
    let config = vec![node(vec![tier(5.0, 2, "P")], &["a"]), node(vec![], &["z"])];
    let r = tiered_discount(&cart, &Some(config));
    // Line "a" reaches no tier, threshold 0, so it still gets a fixed zero.
    assert_eq!(r.discounts.len(), 1);
    let empty = tiered_discount(&cart, &Some(vec![node(vec![], &["z"])]));
    assert!(empty.discounts.is_empty());
    assert!(tiered_discount(&cart, &None).discounts.is_empty());
}

#[test]
fn tiered_discount_reads_quantity_as_u32() {
    // A negative quantity reads as a huge u32, which reaches the tier, but the
    // line still falls short of the tier quantity as an i64.
    let cart = Cart { lines: vec![variant_line("a", -1)] };
    let config = vec![node(vec![tier(3.0, 4, "P")], &["a"])];
    let r = tiered_discount(&cart, &Some(config));
    assert!(r.discounts.is_empty());
}

#[test]
fn listed_and_single_targets_of_joined_carts_are_joined() {
    let config = || vec![node(vec![], &["a", "b"])];
    let a = vec![variant_line("a", 5), variant_line("c", 9)];
    let b = vec![variant_line("b", 6), variant_line("a", 1)];
    let ab: Vec<CartLine> = vec![variant_line("a", 5), variant_line("c", 9), variant_line("b", 6), variant_line("a", 1)];
    let ids = |lines: Vec<CartLine>| {
        let r = listed_volume_discount(&Cart { lines }, &Some(config()));
        if r.discounts.is_empty() { vec![] } else { target_ids(&r, 0) }
    };
    let mut joined = ids(a);
    joined.extend(ids(b));
    assert_eq!(ids(ab), joined);

    let single = |lines: Vec<CartLine>| {
        let c = Configuration { quantity: 2, percentage: 0, variant: "a".to_string() };
        let r = single_variant_discount(&Cart { lines }, &Some(c));
        if r.discounts.is_empty() { vec![] } else { target_ids(&r, 0) }
    };
    let a = vec![variant_line("a", 2), variant_line("b", 9)];
    let b = vec![variant_line("a", 1), variant_line("a", 3)];
    let ab: Vec<CartLine> = vec![variant_line("a", 2), variant_line("b", 9), variant_line("a", 1), variant_line("a", 3)];
    let mut joined = single(a);
    joined.extend(single(b));
    assert_eq!(single(ab), joined);
}

#[test]
fn tiered_larger_quantity_never_picks_earlier_tier() {
    // Tier values are their positions, so the picked value names the tier.
    let tiers = || vec![tier(0.0, 2, "P"), tier(1.0, 5, "P"), tier(2.0, 3, "P"), tier(3.0, 8, "P")];
    let mut last_pick = -1.0f32;
    for q in 2..12 {
        let cart = Cart { lines: vec![variant_line("a", q)] };
        let r = tiered_discount(&cart, &Some(vec![node(tiers(), &["a"])]));
        let pick = match r.discounts[0].value.percentage.as_ref().unwrap().value {
            Decimal::Float32(bits) => f32::from_bits(bits),
            _ => panic!("expected a float percentage"),
        };
        assert!(pick >= last_pick);
        last_pick = pick;
    }
    assert_eq!(last_pick, 3.0);
}
