use product_discount::conditions::{condition_discounts, ChosenCondition, Condition, LineDiscount};
use product_discount::gid::id_number;
use product_discount::json::{get, Json, JsonNumber};
use product_discount::order::{
    order_output, Cart, CartLine, CartLineCost, DiscountNode, Input, Merchandise, Metafield, MoneyV2,
};
use product_discount::rules::{rule_effects, rules_would_fail, MetafieldJson, RuleEffect, RulesError};

fn line(id: Option<&str>, quantity: i64, metafield: Option<&str>) -> CartLine {
    CartLine {
        quantity,
        cost: CartLineCost { subtotal_amount: MoneyV2 { amount: "10.0".to_string() } },
        merchandise: id.map(|id| Merchandise {
            id: id.to_string(),
            metafield: Some(Metafield { value: metafield.map(|m| m.to_string()) }),
        }),
    }
}

fn input(lines: Vec<CartLine>, node_value: Option<&str>) -> Input {
    Input {
        cart: Some(Cart { lines: Some(lines) }),
        discount_node: Some(DiscountNode { metafield: Some(Metafield { value: node_value.map(|v| v.to_string()) }) }),
    }
}

fn s(text: &str) -> Json {
    Json::Str(text.to_string())
}

fn num(n: i64) -> Json {
    if n >= 0 { Json::Number(JsonNumber::PosInt(n as u64)) } else { Json::Number(JsonNumber::NegInt(n)) }
}

fn obj(entries: Vec<(&str, Json)>) -> Json {
    Json::Object(entries.into_iter().map(|(k, v)| (k.to_string(), v)).collect())
}

fn rule(condition: &str, qty: i64, ids: Vec<i64>, kind: &str, amount: Json) -> Json {
    obj(vec![
        ("condition", s(condition)),
        ("qty", num(qty)),
        ("variant_ids", Json::Array(ids.into_iter().map(num).collect())),
        ("discount", obj(vec![("amount", amount), ("type", s(kind))])),
    ])
}

fn doc(rules: Vec<Json>) -> MetafieldJson {
    MetafieldJson::Parsed(obj(vec![("rules", Json::Array(rules))]))
}

#[test]
fn id_number_reads_the_last_segment() {
    assert_eq!(id_number("gid://shopify/ProductVariant/43623862337751"), Some(43623862337751));
    assert_eq!(id_number("42"), Some(42));
    assert_eq!(id_number("a/b/+12"), Some(12));
    assert_eq!(id_number("a/-0"), Some(0));
    assert_eq!(id_number("a/007"), Some(7));
    assert_eq!(id_number("a/9223372036854775807"), Some(i64::MAX));
    assert_eq!(id_number("a/-9223372036854775808"), Some(i64::MIN));
    assert_eq!(id_number("a/9223372036854775808"), None);
    assert_eq!(id_number("a/-9223372036854775809"), None);
    assert_eq!(id_number("a/99999999999999999999999"), None);
    assert_eq!(id_number("a/"), None);
    assert_eq!(id_number(""), None);
    assert_eq!(id_number("a/-"), None);
    assert_eq!(id_number("a/+"), None);
    assert_eq!(id_number("a/1 2"), None);
    assert_eq!(id_number("12/x"), None);
    assert_eq!(id_number("a/٣"), None);
}

#[test]
fn id_number_agrees_with_std() {
    let samples = [
        "gid://shopify/ProductVariant/1", "x/-17", "x/+0", "x/--1", "x/+-1", "x/1/2/3", "//", "/5",
        "5/", "x/18446744073709551616", "x/00000000000000000000000000042", "x/-00000000000000000000009223372036854775808",
        "x/1e3", "x/ 1", "x/١",
    ];
    for text in samples.iter() {
        let expected = text.split("/").last().unwrap().parse::<i64>().ok();
        assert_eq!(id_number(text), expected, "{}", text);
    }
}

#[test]
fn id_number_round_trips_decimal_text() {
    for n in [0i64, 1, -1, 9, 10, -10, 12345, i64::MAX, i64::MIN] {
        let id = format!("gid://shopify/ProductVariant/{}", n);
        assert_eq!(id_number(&id), Some(n));
    }
}

#[test]
fn json_get_reads_object_members() {
    let v = obj(vec![("a", num(1)), ("b", s("x"))]);
    assert!(matches!(get(&v, "a"), Some(Json::Number(JsonNumber::PosInt(1)))));
    assert!(get(&v, "c").is_none());
    assert!(get(&Json::Array(vec![v]), "a").is_none());
}

#[test]
fn order_output_is_one_subtotal_discount() {
    let r = order_output(2.5f64.to_bits());
    assert_eq!(r.discount_application_strategy, "FIRST");
    assert_eq!(r.discounts.len(), 1);
    assert_eq!(f64::from_bits(r.discounts[0].value.fixed_amount.amount), 2.5);
    assert_eq!(r.discounts[0].message, "Bevy Discount Test");
    assert_eq!(r.discounts[0].targets.len(), 1);
    assert!(r.discounts[0].targets[0].order_subtotal.excluded_variant_ids.is_empty());
}

fn cond(quantity: i64, value: f64, kind: &str) -> Condition {
    Condition { quantity, discount_value: value.to_bits(), discount_type: kind.to_string() }
}

#[test]
fn condition_discounts_pick_last_reached_condition() {
    let inp = input(
        vec![line(Some("a"), 5, Some("[]")), line(None, 3, None), line(Some("b"), 1, None), line(Some("c"), 2, Some("[]"))],
        None,
    );
    let parsed = vec![
        Some(vec![cond(1, 3.0, "F"), cond(10, 50.0, "P"), cond(4, 20.0, "P")]),
        None,
        None,
        Some(vec![cond(3, 1.0, "F")]),
    ];
    let r = condition_discounts(&inp, &parsed);
    assert_eq!(r.len(), 2);
    assert!(r[0] == LineDiscount { line: 0, chosen: Some(ChosenCondition { flat: false, value: 20.0f64.to_bits() }) });
    assert!(r[1] == LineDiscount { line: 3, chosen: None });
}

#[test]
fn condition_discounts_flat_type_is_f() {
    let inp = input(vec![line(Some("a"), 2, Some("[]"))], None);
    let parsed = vec![Some(vec![cond(2, 4.0, "F"), cond(2, 6.0, "f")])];
    let r = condition_discounts(&inp, &parsed);
    assert!(r[0].chosen == Some(ChosenCondition { flat: false, value: 6.0f64.to_bits() }));
    let parsed = vec![Some(vec![cond(2, 6.0, "F")])];
    let r = condition_discounts(&inp, &parsed);
    assert!(r[0].chosen == Some(ChosenCondition { flat: true, value: 6.0f64.to_bits() }));
}

#[test]
fn condition_discounts_without_cart() {
    let inp = Input { cart: None, discount_node: None };
    assert!(condition_discounts(&inp, &vec![]).is_empty());
    let inp = Input { cart: Some(Cart { lines: None }), discount_node: None };
    assert!(condition_discounts(&inp, &vec![]).is_empty());
}

#[test]
fn rules_give_discount_on_last_applicable_line() {
    let inp = input(
        vec![
            line(Some("gid://shopify/ProductVariant/7"), 3, None),
            line(None, 100, None),
            line(Some("gid://shopify/ProductVariant/8"), 5, None),
            line(Some("gid://shopify/ProductVariant/7"), 4, None),
        ],
        Some("{}"),
    );
    let rules = doc(vec![
        rule("gte", 3, vec![7, 8], "percent", num(10)),
        rule("eq", 5, vec![8], "flat", Json::Number(JsonNumber::Float(2.5f64.to_bits()))),
        rule("lte", 3, vec![7], "flat", num(1)),
        rule("gt", 1, vec![7], "flat", num(1)),
        rule("gte", 1, vec![7], "other", num(1)),
        obj(vec![("qty", num(1))]),
    ]);
    assert!(!rules_would_fail(&inp, &rules));
    let r = rule_effects(&inp, &rules).ok().unwrap();
    assert_eq!(r.len(), 6);
    assert!(r[0] == Some(RuleEffect { line: 3, percent: true, amount: JsonNumber::PosInt(10) }));
    assert!(r[1] == Some(RuleEffect { line: 2, percent: false, amount: JsonNumber::Float(2.5f64.to_bits()) }));
    assert!(r[2] == Some(RuleEffect { line: 0, percent: false, amount: JsonNumber::PosInt(1) }));
    assert!(r[3].is_none());
    assert!(r[4].is_none());
    assert!(r[5].is_none());
}

#[test]
fn rules_missing_or_not_an_array() {
    let inp = input(vec![line(Some("a/1"), 3, None)], None);
    assert!(rule_effects(&inp, &MetafieldJson::Missing).ok().unwrap().is_empty());
    let inp = input(vec![line(Some("a/1"), 3, None)], Some("{}"));
    let no_rules = MetafieldJson::Parsed(obj(vec![("other", num(1))]));
    assert!(rule_effects(&inp, &no_rules).ok().unwrap().is_empty());
    let not_array = MetafieldJson::Parsed(obj(vec![("rules", num(1))]));
    assert!(rule_effects(&inp, &not_array).ok().unwrap().is_empty());
    let not_object = MetafieldJson::Parsed(Json::Array(vec![]));
    assert!(rule_effects(&inp, &not_object).ok().unwrap().is_empty());
}

#[test]
fn rules_errors() {
    let bad = input(vec![line(Some("a/1"), 3, None), line(Some("gid://x/abc"), 1, None)], Some("{"));
    assert!(rule_effects(&bad, &MetafieldJson::Malformed).err() == Some(RulesError::InvalidVariantId));
    let good = input(vec![line(Some("a/1"), 3, None)], Some("{"));
    assert!(rule_effects(&good, &MetafieldJson::Malformed).err() == Some(RulesError::InvalidMetafield));
}

#[test]
fn rules_that_fail_to_read() {
    let inp = input(vec![line(Some("a/7"), 3, None)], Some("{}"));
    let ids_not_array = doc(vec![obj(vec![("condition", s("gte")), ("qty", num(1)), ("variant_ids", num(7))])]);
    assert!(rules_would_fail(&inp, &ids_not_array));
    let id_not_int = doc(vec![obj(vec![
        ("condition", s("gte")),
        ("qty", num(1)),
        ("variant_ids", Json::Array(vec![num(7), s("8")])),
    ])]);
    assert!(rules_would_fail(&inp, &id_not_int));
    let qty_not_int = doc(vec![obj(vec![
        ("condition", s("eq")),
        ("qty", s("3")),
        ("variant_ids", Json::Array(vec![num(7)])),
    ])]);
    assert!(rules_would_fail(&inp, &qty_not_int));
    let qty_not_int_unlisted = doc(vec![obj(vec![
        ("condition", s("eq")),
        ("qty", s("3")),
        ("variant_ids", Json::Array(vec![num(9)])),
    ])]);
    assert!(!rules_would_fail(&inp, &qty_not_int_unlisted));
    let amount_not_number = doc(vec![rule("gte", 1, vec![7], "flat", s("5"))]);
    assert!(rules_would_fail(&inp, &amount_not_number));
    let amount_not_number_unused = doc(vec![rule("gte", 5, vec![7], "flat", s("5"))]);
    assert!(!rules_would_fail(&inp, &amount_not_number_unused));
    let no_condition = doc(vec![obj(vec![("qty", num(1)), ("variant_ids", num(7))])]);
    assert!(!rules_would_fail(&inp, &no_condition));
    // A bad merchandise id is reported before any rule is read.
    let bad = input(vec![line(Some("a/x"), 3, None)], Some("{}"));
    assert!(!rules_would_fail(&bad, &ids_not_array));
}
