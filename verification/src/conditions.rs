//! Quantity conditions kept on each product: a line whose product carries
//! conditions gets the discount of the last condition its quantity reaches.

use vstd::prelude::*;
use crate::order::{cart_lines, input_lines, line_metafield_value, CartLine, Input};

verus! {

/// From `quantity` items on, `discount_value` off: a fixed amount when
/// `discount_type` is `F`, a percentage of the line cost otherwise. The
/// value is a 64-bit float, kept by its bit pattern.
pub struct Condition {
    pub quantity: i64,
    pub discount_value: u64,
    pub discount_type: String,
}

/// The condition that applies to a line: a fixed amount (`flat`) or a
/// percentage of the line cost, of the float whose bits are `value`.
#[derive(PartialEq, Eq, Structural, Clone, Copy)]
pub struct ChosenCondition {
    pub flat: bool,
    pub value: u64,
}

/// The outcome for the line at index `line` of the cart, which carries
/// conditions: the condition that applies to it, if any.
#[derive(PartialEq, Eq, Structural, Clone, Copy)]
pub struct LineDiscount {
    pub line: usize,
    pub chosen: Option<ChosenCondition>,
}

/// The index of the last condition whose quantity is at most `q`.
pub open spec fn condition_pick(conditions: Seq<Condition>, q: i64) -> Option<int>
    decreases conditions.len(),
{
    if conditions.len() == 0 {
        None
    } else if conditions.last().quantity <= q {
        Some(conditions.len() - 1)
    } else {
        condition_pick(conditions.drop_last(), q)
    }
}

/// The condition picked for `q` is the last one whose quantity `q`
/// reaches: it reaches it, and reaches no later condition; when none is
/// picked, `q` reaches no condition at all.
pub proof fn lemma_condition_pick_is_last_reached(conditions: Seq<Condition>, q: i64)
    ensures
        condition_pick(conditions, q) matches Some(k) ==> {
            &&& 0 <= k < conditions.len()
            &&& conditions[k].quantity <= q
            &&& forall|j: int| k < j < conditions.len() ==> #[trigger] conditions[j].quantity > q
        },
        condition_pick(conditions, q) is None ==> forall|j: int| 0 <= j < conditions.len() ==> #[trigger] conditions[j].quantity > q,
    decreases conditions.len(),
{
    if conditions.len() > 0 {
        let t = conditions.drop_last();
        lemma_condition_pick_is_last_reached(t, q);
        if conditions.last().quantity > q {
            match condition_pick(t, q) {
                Some(k) => {
                    assert(conditions[k] == t[k]);
                    assert forall|j: int| k < j < conditions.len() implies #[trigger] conditions[j].quantity > q by {
                        if j < conditions.len() - 1 {
                            assert(conditions[j] == t[j]);
                        }
                    }
                },
                None => {
                    assert forall|j: int| 0 <= j < conditions.len() implies #[trigger] conditions[j].quantity > q by {
                        if j < conditions.len() - 1 {
                            assert(conditions[j] == t[j]);
                        }
                    }
                },
            }
        }
    }
}

/// The condition that applies to a line of quantity `q`.
pub open spec fn chosen_condition(conditions: Seq<Condition>, q: i64) -> Option<ChosenCondition> {
    match condition_pick(conditions, q) {
        Some(k) => Some(ChosenCondition {
            flat: conditions[k].discount_type@ == "F"@,
            value: conditions[k].discount_value,
        }),
        None => None,
    }
}

/// A line of quantity `q` gets the condition of the last one whose quantity
/// `q` reaches: its value is that condition's `discount_value`, flat exactly
/// when its type is `F`, and every later condition lies beyond `q`; it gets
/// none exactly when `q` reaches no condition.
pub proof fn lemma_chosen_condition_is_last_reached(conditions: Seq<Condition>, q: i64)
    ensures
        chosen_condition(conditions, q) matches Some(ch) ==> exists|k: int| {
            &&& 0 <= k < conditions.len()
            &&& #[trigger] conditions[k].quantity <= q
            &&& ch.value == conditions[k].discount_value
            &&& ch.flat == (conditions[k].discount_type@ == "F"@)
            &&& forall|j: int| k < j < conditions.len() ==> #[trigger] conditions[j].quantity > q
        },
        chosen_condition(conditions, q) is None <==> forall|j: int| 0 <= j < conditions.len() ==> #[trigger] conditions[j].quantity > q,
{
    lemma_condition_pick_is_last_reached(conditions, q);
    match condition_pick(conditions, q) {
        Some(k) => {
            assert(conditions[k].quantity <= q);
        },
        None => {},
    }
}

/// The outcomes for the first `n` lines, one for each line that carries
/// conditions, in cart order.
pub open spec fn condition_plan(lines: Seq<CartLine>, parsed: Seq<Option<Vec<Condition>>>, n: nat) -> Seq<LineDiscount>
    decreases n,
{
    if n == 0 {
        Seq::empty()
    } else {
        let prev = condition_plan(lines, parsed, (n - 1) as nat);
        match parsed[n - 1] {
            Some(cs) => prev.push(LineDiscount {
                line: (n - 1) as usize,
                chosen: chosen_condition(cs@, lines[n - 1].quantity),
            }),
            None => prev,
        }
    }
}

/// The condition that applies to a line of quantity `q`.
pub fn choose_condition(conditions: &Vec<Condition>, q: i64) -> (r: Option<ChosenCondition>)
    ensures
        r == chosen_condition(conditions@, q),
{
    let mut pick: Option<usize> = None;
    let m = conditions.len();
    for j in 0..m
        invariant
            m == conditions@.len(),
            pick matches Some(k) ==> condition_pick(conditions@.take(j as int), q) == Some(k as int) && k < j,
            pick is None ==> condition_pick(conditions@.take(j as int), q) is None,
    {
        assert(conditions@.take(j + 1).drop_last() =~= conditions@.take(j as int));
        if conditions[j].quantity <= q {
            pick = Some(j);
        }
    }
    assert(conditions@.take(m as int) =~= conditions@);
    match pick {
        Some(k) => {
            let f = "F".to_owned();
            Some(ChosenCondition { flat: conditions[k].discount_type == f, value: conditions[k].discount_value })
        },
        None => None,
    }
}

/// For each cart line that carries conditions, the condition that applies
/// to it. `parsed` holds, for each line, the conditions read from its
/// product's metafield, and nothing for a line without one.
pub fn condition_discounts(input: &Input, parsed: &Vec<Option<Vec<Condition>>>) -> (r: Vec<LineDiscount>)
    requires
        parsed@.len() == input_lines(*input).len(),
        forall|i: int| 0 <= i < parsed@.len() ==>
            ((#[trigger] parsed@[i]) is Some <==> line_metafield_value(input_lines(*input)[i]) is Some),
    ensures
        r@ == condition_plan(input_lines(*input), parsed@, parsed@.len()),
{
    let mut out: Vec<LineDiscount> = Vec::new();
    let lines = match cart_lines(input) {
        Some(lines) => lines,
        None => {
            return out;
        },
    };
    let n = lines.len();
    for i in 0..n
        invariant
            n == lines@.len(),
            lines@ == input_lines(*input),
            parsed@.len() == n,
            out@ == condition_plan(lines@, parsed@, i as nat),
    {
        match &parsed[i] {
            Some(conditions) => {
                let chosen = choose_condition(conditions, lines[i].quantity);
                out.push(LineDiscount { line: i, chosen });
            },
            None => {},
        }
    }
    out
}

} // verus!
