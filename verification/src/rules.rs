//! Discount rules kept as JSON in the discount node's metafield. Each rule
//! names variants, a quantity condition (`gte`, `eq` or `lte` against `qty`)
//! and a discount (`percent` of the line cost, or a `flat` amount); the
//! order discount adds up what each rule gives.

use vstd::prelude::*;
use crate::gid::{id_number, spec_id_number};
use crate::json::{
    as_array, as_i64, as_number, as_str, get, spec_as_array, spec_as_i64, spec_as_number,
    spec_as_str, spec_get, Json, JsonNumber,
};
use crate::order::{cart_lines, input_lines, node_metafield_value, CartLine, Input};

verus! {

/// The metafield of the discount node, read as JSON.
pub enum MetafieldJson {
    /// The discount node, its metafield or its value is missing.
    Missing,
    /// The value is not JSON text.
    Malformed,
    /// The value, read as JSON.
    Parsed(Json),
}

/// Why no discount can be computed.
#[derive(PartialEq, Eq, Structural, Clone, Copy)]
pub enum RulesError {
    /// A line's merchandise id does not end in a number that fits in `i64`.
    InvalidVariantId,
    /// The metafield value is not JSON text.
    InvalidMetafield,
}

/// What one rule gives: the discount of the cart line at index `line`, a
/// percentage of its cost (`percent`) or a flat amount, of `amount`.
#[derive(PartialEq, Eq, Structural, Clone, Copy)]
pub struct RuleEffect {
    pub line: usize,
    pub percent: bool,
    pub amount: JsonNumber,
}

/// The number that a line's merchandise id ends in; nothing for a line
/// without merchandise or whose id does not end in a number.
pub open spec fn line_number(line: CartLine) -> Option<i64> {
    match line.merchandise {
        Some(m) => spec_id_number(m.id@),
        None => None,
    }
}

/// Every line with merchandise has an id that ends in a number.
pub open spec fn ids_ok(lines: Seq<CartLine>) -> bool {
    forall|i: int| 0 <= i < lines.len() ==>
        ((#[trigger] lines[i]).merchandise is Some ==> line_number(lines[i]) is Some)
}

/// The rules of the metafield: the array under `rules`.
pub open spec fn rules_of(doc: Json) -> Option<Seq<Json>> {
    match spec_get(doc, "rules"@) {
        Some(r) => spec_as_array(r),
        None => None,
    }
}

/// The rule's condition, when it is a string.
pub open spec fn rule_condition(rule: Json) -> Option<Seq<char>> {
    match spec_get(rule, "condition"@) {
        Some(c) => spec_as_str(c),
        None => None,
    }
}

/// Every item of `items` is an integer that fits in `i64`.
pub open spec fn all_i64(items: Seq<Json>) -> bool {
    forall|i: int| 0 <= i < items.len() ==> (#[trigger] spec_as_i64(items[i])) is Some
}

/// The rule's `variant_ids` is missing, or is an array of `i64` integers.
pub open spec fn rule_ids_ok(rule: Json) -> bool {
    match spec_get(rule, "variant_ids"@) {
        Some(v) => match spec_as_array(v) {
            Some(items) => all_i64(items),
            None => false,
        },
        None => true,
    }
}

/// The rule's `variant_ids` holds `n`.
pub open spec fn rule_lists(rule: Json, n: i64) -> bool {
    match spec_get(rule, "variant_ids"@) {
        Some(v) => match spec_as_array(v) {
            Some(items) => exists|i: int| 0 <= i < items.len() && spec_as_i64(#[trigger] items[i]) == Some(n),
            None => false,
        },
        None => false,
    }
}

/// The rule's `variant_ids` holds the number of `line`.
pub open spec fn line_listed(rule: Json, line: CartLine) -> bool {
    &&& line_number(line) matches Some(n)
    &&& rule_lists(rule, n)
}

/// `c` is one of the conditions that compare quantities.
pub open spec fn is_comparison(c: Seq<char>) -> bool {
    c == "gte"@ || c == "eq"@ || c == "lte"@
}

/// A line of quantity `lq` meets the condition `c` against `q`.
pub open spec fn quantity_meets(c: Seq<char>, lq: i64, q: i64) -> bool {
    ||| c == "gte"@ && lq >= q
    ||| c == "eq"@ && lq == q
    ||| c == "lte"@ && lq <= q
}

/// The rule applies to `line`: the rule has a string condition and a
/// `qty`, lists the line's number, and the line's quantity meets it.
pub open spec fn line_applies(rule: Json, line: CartLine) -> bool {
    &&& rule_condition(rule) matches Some(c)
    &&& spec_get(rule, "qty"@) matches Some(q)
    &&& line_number(line) matches Some(n)
    &&& rule_lists(rule, n)
    &&& spec_as_i64(q) matches Some(qi)
    &&& quantity_meets(c, line.quantity, qi)
}

/// The rule's discount: whether it is `percent` (else `flat`), and its
/// amount; nothing when the discount, its amount or a type of `percent` or
/// `flat` is missing.
pub open spec fn rule_setting(rule: Json) -> Option<(bool, Json)> {
    match spec_get(rule, "discount"@) {
        Some(d) => match spec_get(d, "amount"@) {
            Some(a) => match spec_get(d, "type"@) {
                Some(t) => match spec_as_str(t) {
                    Some(s) => if s == "percent"@ {
                        Some((true, a))
                    } else if s == "flat"@ {
                        Some((false, a))
                    } else {
                        None
                    },
                    None => None,
                },
                None => None,
            },
            None => None,
        },
        None => None,
    }
}

/// What the rule gives over `lines`: its discount, on the last line it
/// applies to; nothing when it applies to none or has no discount.
pub open spec fn rule_effect(rule: Json, lines: Seq<CartLine>) -> Option<RuleEffect>
    decreases lines.len(),
{
    if lines.len() == 0 {
        None
    } else if line_applies(rule, lines.last()) && rule_setting(rule) is Some {
        let (percent, amount) = rule_setting(rule)->0;
        Some(RuleEffect {
            line: (lines.len() - 1) as usize,
            percent,
            amount: spec_as_number(amount)->0,
        })
    } else {
        rule_effect(rule, lines.drop_last())
    }
}

/// A rule gives its discount on the last line it applies to: that line is
/// one it applies to, no later line is, and the rule has a discount; it
/// gives nothing exactly when it has no discount or applies to no line.
pub proof fn lemma_rule_effect_is_last_applicable(rule: Json, lines: Seq<CartLine>)
    requires
        lines.len() <= usize::MAX,
    ensures
        rule_effect(rule, lines) matches Some(e) ==> {
            &&& 0 <= e.line < lines.len()
            &&& line_applies(rule, lines[e.line as int])
            &&& rule_setting(rule) matches Some((p, a))
            &&& e.percent == p
            &&& spec_as_number(a) is Some ==> Some(e.amount) == spec_as_number(a)
            &&& forall|j: int| e.line < j < lines.len() ==> !line_applies(rule, #[trigger] lines[j])
        },
        rule_effect(rule, lines) is None ==> rule_setting(rule) is None
            || forall|j: int| 0 <= j < lines.len() ==> !line_applies(rule, #[trigger] lines[j]),
    decreases lines.len(),
{
    if lines.len() > 0 {
        let t = lines.drop_last();
        lemma_rule_effect_is_last_applicable(rule, t);
        if !(line_applies(rule, lines.last()) && rule_setting(rule) is Some) {
            match rule_effect(rule, t) {
                Some(e) => {
                    assert(lines[e.line as int] == t[e.line as int]);
                    assert forall|j: int| e.line < j < lines.len() implies !line_applies(rule, #[trigger] lines[j]) by {
                        if j < t.len() {
                            assert(lines[j] == t[j]);
                        }
                    }
                },
                None => {
                    if rule_setting(rule) is Some {
                        assert forall|j: int| 0 <= j < lines.len() implies !line_applies(rule, #[trigger] lines[j]) by {
                            if j < t.len() {
                                assert(lines[j] == t[j]);
                            }
                        }
                    }
                },
            }
        }
    }
}

/// What one more cart line does to what a rule gives. Take a rule whose
/// `condition` is the string `cond`, whose `qty` is the integer `qty`,
/// whose `variant_ids` holds the number `n` that the line's merchandise id
/// ends in, and whose discount has a numeric `amount` and a `type` of
/// `percent` or `flat`. The rule then gives its discount on the new line
/// exactly when the line's quantity is at least `qty` for `gte`, equal to
/// it for `eq`, or at most it for `lte` (a line whose quantity equals `qty`
/// is discounted under all three); otherwise it gives what it gave before.
pub proof fn lemma_rule_effect_line(
    rule: Json,
    lines: Seq<CartLine>,
    line: CartLine,
    cond: Seq<char>,
    qty: i64,
    n: i64,
    items: Seq<Json>,
    discount: Json,
    kind: Seq<char>,
    amount: JsonNumber,
)
    requires
        lines.len() < usize::MAX,
        spec_get(rule, "condition"@) matches Some(c) && spec_as_str(c) == Some(cond),
        spec_get(rule, "qty"@) matches Some(q) && spec_as_i64(q) == Some(qty),
        line.merchandise matches Some(m) && spec_id_number(m.id@) == Some(n),
        spec_get(rule, "variant_ids"@) matches Some(vs) && spec_as_array(vs) == Some(items),
        exists|x: int| 0 <= x < items.len() && spec_as_i64(#[trigger] items[x]) == Some(n),
        spec_get(rule, "discount"@) == Some(discount),
        spec_get(discount, "amount"@) matches Some(a) && spec_as_number(a) == Some(amount),
        spec_get(discount, "type"@) matches Some(t) && spec_as_str(t) == Some(kind),
        kind == "percent"@ || kind == "flat"@,
    ensures
        rule_effect(rule, lines.push(line)) == if (cond == "gte"@ && line.quantity >= qty)
            || (cond == "eq"@ && line.quantity == qty) || (cond == "lte"@ && line.quantity <= qty) {
            Some(RuleEffect { line: lines.len() as usize, percent: kind == "percent"@, amount })
        } else {
            rule_effect(rule, lines)
        },
{
    reveal_strlit("percent");
    reveal_strlit("flat");
    assert("percent"@.len() != "flat"@.len());
    let all = lines.push(line);
    assert(all.drop_last() =~= lines);
    assert(all.last() == line);
    assert(rule_lists(rule, n));
    assert(line_number(line) == Some(n));
    assert(rule_setting(rule) matches Some((p, a)) && p == (kind == "percent"@) && spec_as_number(a) == Some(amount));
}

/// A line without merchandise changes nothing in what a rule gives.
pub proof fn lemma_rule_effect_line_without_merchandise(rule: Json, lines: Seq<CartLine>, line: CartLine)
    requires
        line.merchandise is None,
    ensures
        rule_effect(rule, lines.push(line)) == rule_effect(rule, lines),
{
    let all = lines.push(line);
    assert(all.drop_last() =~= lines);
    assert(all.last() == line);
}

/// A rule without a discount, or without `variant_ids`, gives nothing.
pub proof fn lemma_rule_effect_needs_discount_and_ids(rule: Json, lines: Seq<CartLine>)
    requires
        spec_get(rule, "discount"@) is None || spec_get(rule, "variant_ids"@) is None,
    ensures
        rule_effect(rule, lines) is None,
    decreases lines.len(),
{
    if lines.len() > 0 {
        lemma_rule_effect_needs_discount_and_ids(rule, lines.drop_last());
    }
}

/// Reading the rule over `lines` fails: its `variant_ids` is not an array
/// of `i64` integers, or its `qty` is not one while a listed line is
/// compared with it, or its discount amount is not a number while the rule
/// applies to some line.
pub open spec fn rule_panics(rule: Json, lines: Seq<CartLine>) -> bool {
    &&& rule_condition(rule) matches Some(c)
    &&& spec_get(rule, "qty"@) matches Some(q)
    &&& {
        ||| !rule_ids_ok(rule)
        ||| (is_comparison(c) && spec_as_i64(q) is None && exists|i: int|
            0 <= i < lines.len() && line_listed(rule, #[trigger] lines[i]))
        ||| (rule_setting(rule) matches Some((_, a)) && spec_as_number(a) is None && exists|i: int|
            0 <= i < lines.len() && line_applies(rule, #[trigger] lines[i]))
    }
}

/// Some rule of the metafield fails to read over the cart's lines (the
/// merchandise ids being fine and the metafield being JSON).
pub open spec fn rules_panic(input: Input, doc: MetafieldJson) -> bool {
    &&& ids_ok(input_lines(input))
    &&& doc matches MetafieldJson::Parsed(j)
    &&& rules_of(j) matches Some(rs)
    &&& exists|k: int| 0 <= k < rs.len() && rule_panics(#[trigger] rs[k], input_lines(input))
}

/// The effects of `rules`, one per rule, in order.
pub open spec fn rule_effects_of(rules: Seq<Json>, lines: Seq<CartLine>) -> Seq<Option<RuleEffect>> {
    Seq::new(rules.len(), |k: int| rule_effect(rules[k], lines))
}

/// The number each line's merchandise id ends in; `None` when some line's
/// id does not end in one.
fn line_numbers(lines: &Vec<CartLine>) -> (r: Option<Vec<Option<i64>>>)
    ensures
        r is None <==> !ids_ok(lines@),
        r matches Some(ns) ==> ns@.len() == lines@.len() && forall|i: int| 0 <= i < ns@.len() ==>
            #[trigger] ns@[i] == line_number(lines@[i]),
{
    let mut ns: Vec<Option<i64>> = Vec::new();
    let n = lines.len();
    for i in 0..n
        invariant
            n == lines@.len(),
            ns@.len() == i,
            forall|j: int| 0 <= j < i ==> #[trigger] ns@[j] == line_number(lines@[j]),
            forall|j: int| 0 <= j < i ==>
                ((#[trigger] lines@[j]).merchandise is Some ==> line_number(lines@[j]) is Some),
    {
        match &lines[i].merchandise {
            Some(m) => {
                match id_number(m.id.as_str()) {
                    Some(v) => ns.push(Some(v)),
                    None => {
                        assert(lines@[i as int].merchandise is Some && line_number(lines@[i as int]) is None);
                        return None;
                    },
                }
            },
            None => ns.push(None),
        }
    }
    Some(ns)
}

/// Whether `s` is the text `t`.
fn text_is(s: &String, t: &str) -> (r: bool)
    ensures
        r == (s@ == t@),
{
    let owned = t.to_owned();
    *s == owned
}

/// The numbers of a rule's `variant_ids`; none when it is missing.
fn rule_ids(rule: &Json) -> (r: Vec<i64>)
    requires
        rule_ids_ok(*rule),
    ensures
        forall|n: i64| rule_lists(*rule, n) <==> r@.contains(n),
{
    let mut ids: Vec<i64> = Vec::new();
    match get(rule, "variant_ids") {
        Some(v) => {
            let items = as_array(v).unwrap();
            let m = items.len();
            for i in 0..m
                invariant
                    m == items@.len(),
                    all_i64(items@),
                    ids@.len() == i,
                    forall|j: int| 0 <= j < i ==> Some(#[trigger] ids@[j]) == spec_as_i64(items@[j]),
            {
                assert(spec_as_i64(items@[i as int]) is Some);
                ids.push(as_i64(&items[i]).unwrap());
            }
            assert forall|n: i64| rule_lists(*rule, n) <==> ids@.contains(n) by {
                if rule_lists(*rule, n) {
                    let i = choose|i: int| 0 <= i < items@.len() && spec_as_i64(#[trigger] items@[i]) == Some(n);
                    assert(ids@[i] == n);
                }
                if ids@.contains(n) {
                    let j = choose|j: int| 0 <= j < ids@.len() && ids@[j] == n;
                    assert(spec_as_i64(items@[j]) == Some(n));
                }
            }
        },
        None => {},
    }
    ids
}

/// Whether `ids` holds `n`.
fn holds(ids: &Vec<i64>, n: i64) -> (r: bool)
    ensures
        r == ids@.contains(n),
{
    let m = ids.len();
    for i in 0..m
        invariant
            m == ids@.len(),
            forall|j: int| 0 <= j < i ==> ids@[j] != n,
    {
        if ids[i] == n {
            return true;
        }
    }
    false
}

/// The rule's discount (see [`rule_setting`]), with its amount as a number.
fn setting(rule: &Json) -> (r: Option<(bool, Option<JsonNumber>)>)
    ensures
        r matches Some((p, a)) ==> rule_setting(*rule) matches Some((sp, sa)) && p == sp && a == spec_as_number(sa),
        r is None ==> rule_setting(*rule) is None,
{
    let d = match get(rule, "discount") {
        Some(d) => d,
        None => return None,
    };
    let a = match get(d, "amount") {
        Some(a) => a,
        None => return None,
    };
    let t = match get(d, "type") {
        Some(t) => t,
        None => return None,
    };
    let s = match as_str(t) {
        Some(s) => s,
        None => return None,
    };
    if text_is(s, "percent") {
        Some((true, as_number(a)))
    } else if text_is(s, "flat") {
        Some((false, as_number(a)))
    } else {
        None
    }
}

/// Whether a rule with condition `c`, quantity `q` and listed numbers
/// `ids` applies to `line`, whose id number is `number`.
fn applies_to(rule: &Json, c: &String, q: &Json, ids: &Vec<i64>, number: Option<i64>, lq: i64, Ghost(line): Ghost<CartLine>) -> (r: bool)
    requires
        rule_condition(*rule) == Some(c@),
        spec_get(*rule, "qty"@) == Some(*q),
        forall|m: i64| rule_lists(*rule, m) <==> ids@.contains(m),
        number == line_number(line),
        lq == line.quantity,
    ensures
        r == line_applies(*rule, line),
{
    let n = match number {
        Some(n) => n,
        None => return false,
    };
    if !holds(ids, n) {
        return false;
    }
    let qi = match as_i64(q) {
        Some(qi) => qi,
        None => return false,
    };
    proof {
        reveal_strlit("gte");
        reveal_strlit("eq");
        reveal_strlit("lte");
        assert("gte"@.len() == 3);
        assert("eq"@.len() == 2);
        assert("gte"@ != "eq"@);
        assert("gte"@[0] == 'g');
        assert("lte"@[0] == 'l');
        assert("gte"@ != "lte"@);
        assert("eq"@ != "lte"@);
    }
    if text_is(c, "gte") {
        lq >= qi
    } else if text_is(c, "eq") {
        lq == qi
    } else if text_is(c, "lte") {
        lq <= qi
    } else {
        false
    }
}

/// What one rule gives over the cart lines, whose id numbers are `numbers`.
fn apply_rule(rule: &Json, lines: &Vec<CartLine>, numbers: &Vec<Option<i64>>) -> (r: Option<RuleEffect>)
    requires
        numbers@.len() == lines@.len(),
        forall|i: int| 0 <= i < numbers@.len() ==> #[trigger] numbers@[i] == line_number(lines@[i]),
        !rule_panics(*rule, lines@),
    ensures
        r == rule_effect(*rule, lines@),
{
    let c = match get(rule, "condition") {
        Some(c) => match as_str(c) {
            Some(s) => s,
            None => {
                proof { lemma_rule_effect_none(*rule, lines@); }
                return None;
            },
        },
        None => {
            proof { lemma_rule_effect_none(*rule, lines@); }
            return None;
        },
    };
    let q = match get(rule, "qty") {
        Some(q) => q,
        None => {
            proof { lemma_rule_effect_none(*rule, lines@); }
            return None;
        },
    };
    let ids = rule_ids(rule);
    let set = setting(rule);
    let mut effect: Option<RuleEffect> = None;
    let n = lines.len();
    for i in 0..n
        invariant
            n == lines@.len(),
            numbers@.len() == n,
            forall|j: int| 0 <= j < numbers@.len() ==> #[trigger] numbers@[j] == line_number(lines@[j]),
            !rule_panics(*rule, lines@),
            rule_condition(*rule) == Some(c@),
            spec_get(*rule, "qty"@) == Some(*q),
            forall|m: i64| rule_lists(*rule, m) <==> ids@.contains(m),
            set matches Some((p, a)) ==> rule_setting(*rule) matches Some((sp, sa)) && p == sp && a == spec_as_number(sa),
            set is None ==> rule_setting(*rule) is None,
            effect == rule_effect(*rule, lines@.take(i as int)),
    {
        let ghost prefix = lines@.take(i + 1);
        assert(prefix.drop_last() =~= lines@.take(i as int));
        assert(prefix.last() == lines@[i as int]);
        if applies_to(rule, c, q, &ids, numbers[i], lines[i].quantity, Ghost(lines@[i as int])) {
            match set {
                Some((percent, amount)) => {
                    let amount = amount.unwrap();
                    effect = Some(RuleEffect { line: i, percent, amount });
                },
                None => {},
            }
        }
    }
    assert(lines@.take(n as int) =~= lines@);
    effect
}

/// Whether the rule's `variant_ids` is missing or an array of `i64` integers.
fn ids_readable(rule: &Json) -> (r: bool)
    ensures
        r == rule_ids_ok(*rule),
{
    let v = match get(rule, "variant_ids") {
        Some(v) => v,
        None => return true,
    };
    let items = match as_array(v) {
        Some(items) => items,
        None => return false,
    };
    let m = items.len();
    for i in 0..m
        invariant
            m == items@.len(),
            spec_get(*rule, "variant_ids"@) == Some(*v),
            spec_as_array(*v) == Some(items@),
            forall|j: int| 0 <= j < i ==> (#[trigger] spec_as_i64(items@[j])) is Some,
    {
        if as_i64(&items[i]).is_none() {
            assert(spec_as_i64(items@[i as int]) is None);
            return false;
        }
    }
    true
}

/// Whether reading the rule over the cart lines fails (see [`rule_panics`]).
fn rule_fails(rule: &Json, lines: &Vec<CartLine>, numbers: &Vec<Option<i64>>) -> (r: bool)
    requires
        numbers@.len() == lines@.len(),
        forall|i: int| 0 <= i < numbers@.len() ==> #[trigger] numbers@[i] == line_number(lines@[i]),
    ensures
        r == rule_panics(*rule, lines@),
{
    let c = match get(rule, "condition") {
        Some(c) => match as_str(c) {
            Some(s) => s,
            None => return false,
        },
        None => return false,
    };
    let q = match get(rule, "qty") {
        Some(q) => q,
        None => return false,
    };
    if !ids_readable(rule) {
        return true;
    }
    let ids = rule_ids(rule);
    let comparison = text_is(c, "gte") || text_is(c, "eq") || text_is(c, "lte");
    let q_readable = as_i64(q).is_some();
    let set = setting(rule);
    let amount_unreadable = match set {
        Some((_, a)) => a.is_none(),
        None => false,
    };
    let n = lines.len();
    let mut listed = false;
    let mut applied = false;
    for i in 0..n
        invariant
            n == lines@.len(),
            numbers@.len() == n,
            forall|j: int| 0 <= j < numbers@.len() ==> #[trigger] numbers@[j] == line_number(lines@[j]),
            rule_condition(*rule) == Some(c@),
            spec_get(*rule, "qty"@) == Some(*q),
            forall|m: i64| rule_lists(*rule, m) <==> ids@.contains(m),
            listed == exists|j: int| 0 <= j < i && line_listed(*rule, #[trigger] lines@[j]),
            applied == exists|j: int| 0 <= j < i && line_applies(*rule, #[trigger] lines@[j]),
    {
        let listed_here = match numbers[i] {
            Some(number) => holds(&ids, number),
            None => false,
        };
        assert(listed_here == line_listed(*rule, lines@[i as int]));
        let applies_here = applies_to(rule, c, q, &ids, numbers[i], lines[i].quantity, Ghost(lines@[i as int]));
        listed = listed || listed_here;
        applied = applied || applies_here;
    }
    (comparison && !q_readable && listed) || (amount_unreadable && applied)
}

/// Whether some rule of the metafield fails to read over the cart's lines,
/// the merchandise ids being fine and the metafield being JSON (see
/// [`rules_panic`]).
pub fn rules_would_fail(input: &Input, doc: &MetafieldJson) -> (r: bool)
    ensures
        r == rules_panic(*input, *doc),
{
    let empty: Vec<CartLine> = Vec::new();
    let lines = match cart_lines(input) {
        Some(lines) => lines,
        None => &empty,
    };
    assert(lines@ =~= input_lines(*input));
    let numbers = match line_numbers(lines) {
        Some(ns) => ns,
        None => return false,
    };
    let j = match doc {
        MetafieldJson::Parsed(j) => j,
        _ => return false,
    };
    let rules = match get(j, "rules") {
        Some(v) => match as_array(v) {
            Some(items) => items,
            None => return false,
        },
        None => return false,
    };
    let m = rules.len();
    for k in 0..m
        invariant
            m == rules@.len(),
            lines@ == input_lines(*input),
            rules_of(*j) == Some(rules@),
            *doc == MetafieldJson::Parsed(*j),
            ids_ok(input_lines(*input)),
            numbers@.len() == lines@.len(),
            forall|i: int| 0 <= i < numbers@.len() ==> #[trigger] numbers@[i] == line_number(lines@[i]),
            forall|i: int| 0 <= i < k ==> !rule_panics(#[trigger] rules@[i], lines@),
    {
        if rule_fails(&rules[k], lines, &numbers) {
            proof {
                let rs = rules_of(*j)->0;
                assert(rs == rules@);
                assert(rule_panics(rs[k as int], input_lines(*input)));
            }
            return true;
        }
    }
    false
}

/// What each rule of the metafield gives over the cart's lines, one entry
/// per rule, in order; none when the metafield is missing or has no
/// `rules` array. Fails when a line's merchandise id does not end in a
/// number, and otherwise when the metafield is not JSON. Callers first
/// check [`rules_would_fail`], on whose inputs reading the rules fails.
pub fn rule_effects(input: &Input, doc: &MetafieldJson) -> (r: Result<Vec<Option<RuleEffect>>, RulesError>)
    requires
        (*doc is Missing) <==> node_metafield_value(*input) is None,
        !rules_panic(*input, *doc),
    ensures
        !ids_ok(input_lines(*input)) ==> r == Err::<Vec<Option<RuleEffect>>, RulesError>(RulesError::InvalidVariantId),
        ids_ok(input_lines(*input)) ==> match *doc {
            MetafieldJson::Missing => r matches Ok(v) && v@.len() == 0,
            MetafieldJson::Malformed => r == Err::<Vec<Option<RuleEffect>>, RulesError>(RulesError::InvalidMetafield),
            MetafieldJson::Parsed(j) => r matches Ok(v) && v@ == match rules_of(j) {
                Some(rs) => rule_effects_of(rs, input_lines(*input)),
                None => Seq::empty(),
            },
        },
{
    let empty: Vec<CartLine> = Vec::new();
    let lines = match cart_lines(input) {
        Some(lines) => lines,
        None => &empty,
    };
    assert(lines@ =~= input_lines(*input));
    let numbers = match line_numbers(lines) {
        Some(ns) => ns,
        None => return Err(RulesError::InvalidVariantId),
    };
    let mut effects: Vec<Option<RuleEffect>> = Vec::new();
    let j = match doc {
        MetafieldJson::Missing => return Ok(effects),
        MetafieldJson::Malformed => return Err(RulesError::InvalidMetafield),
        MetafieldJson::Parsed(j) => j,
    };
    let rules = match get(j, "rules") {
        Some(v) => match as_array(v) {
            Some(items) => items,
            None => return Ok(effects),
        },
        None => return Ok(effects),
    };
    let m = rules.len();
    for k in 0..m
        invariant
            m == rules@.len(),
            rules_of(*j) == Some(rules@),
            *doc == MetafieldJson::Parsed(*j),
            !rules_panic(*input, *doc),
            ids_ok(input_lines(*input)),
            lines@ == input_lines(*input),
            numbers@.len() == lines@.len(),
            forall|i: int| 0 <= i < numbers@.len() ==> #[trigger] numbers@[i] == line_number(lines@[i]),
            effects@ == rule_effects_of(rules@, lines@).take(k as int),
    {
        assert(!rule_panics(rules@[k as int], lines@)) by {
            if rule_panics(rules@[k as int], lines@) {
                let rs = rules_of(*j)->0;
                assert(rs == rules@);
                assert(rule_panics(rs[k as int], input_lines(*input)));
                assert(rules_panic(*input, *doc));
            }
        }
        let e = apply_rule(&rules[k], lines, &numbers);
        effects.push(e);
        assert(effects@ =~= rule_effects_of(rules@, lines@).take(k + 1));
    }
    assert(effects@ =~= rule_effects_of(rules@, lines@));
    Ok(effects)
}

/// A rule without a string condition or without `qty` gives nothing.
proof fn lemma_rule_effect_none(rule: Json, lines: Seq<CartLine>)
    requires
        rule_condition(rule) is None || spec_get(rule, "qty"@) is None,
    ensures
        rule_effect(rule, lines) is None,
    decreases lines.len(),
{
    if lines.len() > 0 {
        lemma_rule_effect_none(rule, lines.drop_last());
    }
}

} // verus!
