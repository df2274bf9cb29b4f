//! The numeric tail of a Shopify global id such as
//! `gid://shopify/ProductVariant/43623862337751`.

use vstd::prelude::*;
use crate::number::{
    all_digits, digit_value, digits_value, is_digit, parse_i64, spec_parse_i64, unsigned_part,
};
use crate::text::chars_of;

verus! {

/// The part of `s` after its last `/`, or all of `s` when it has none
/// (the last item that `split("/")` yields).
pub open spec fn last_segment(s: Seq<char>) -> Seq<char>
    decreases s.len(),
{
    if s.len() == 0 {
        s
    } else if s.last() == '/' {
        Seq::empty()
    } else {
        last_segment(s.drop_last()).push(s.last())
    }
}

/// The number that an id carries in its last segment, when that segment
/// reads as an `i64`.
pub open spec fn spec_id_number(id: Seq<char>) -> Option<i64> {
    spec_parse_i64(last_segment(id))
}

/// Reads the last `/`-separated segment of `id` as an `i64`.
pub fn id_number(id: &str) -> (r: Option<i64>)
    ensures
        r == spec_id_number(id@),
{
    let chars = chars_of(id);
    let mut segment: Vec<char> = Vec::new();
    let n = chars.len();
    let mut i: usize = 0;
    while i < n
        invariant
            n == chars@.len(),
            chars@ == id@,
            i <= n,
            segment@ == last_segment(chars@.take(i as int)),
        decreases n - i,
    {
        let c = chars[i];
        assert(chars@.take(i + 1).drop_last() =~= chars@.take(i as int));
        if c == '/' {
            segment = Vec::new();
        } else {
            segment.push(c);
        }
        i = i + 1;
    }
    assert(chars@.take(n as int) =~= chars@);
    parse_i64(&segment)
}

/// The ASCII digit for a value below ten.
pub open spec fn digit_char(d: int) -> char {
    if d == 0 { '0' }
    else if d == 1 { '1' }
    else if d == 2 { '2' }
    else if d == 3 { '3' }
    else if d == 4 { '4' }
    else if d == 5 { '5' }
    else if d == 6 { '6' }
    else if d == 7 { '7' }
    else if d == 8 { '8' }
    else { '9' }
}

/// The base-ten digits of `m`, without leading zeros.
pub open spec fn decimal_digits(m: nat) -> Seq<char>
    decreases m,
{
    if m < 10 {
        seq![digit_char(m as int)]
    } else {
        decimal_digits(m / 10).push(digit_char((m % 10) as int))
    }
}

/// The usual base-ten text of `n`, with `-` in front when it is negative.
pub open spec fn decimal_text(n: i64) -> Seq<char> {
    if n < 0 {
        seq!['-'] + decimal_digits((-n) as nat)
    } else {
        decimal_digits(n as nat)
    }
}

proof fn lemma_digit_char(d: int)
    requires
        0 <= d < 10,
    ensures
        is_digit(digit_char(d)),
        digit_value(digit_char(d)) == d,
{
}

proof fn lemma_decimal_digits(m: nat)
    ensures
        decimal_digits(m).len() > 0,
        all_digits(decimal_digits(m)),
        digits_value(decimal_digits(m)) == m,
    decreases m,
{
    let s = decimal_digits(m);
    if m < 10 {
        lemma_digit_char(m as int);
        assert(s.drop_last() =~= Seq::<char>::empty());
        assert(digits_value(s) == digits_value(s.drop_last()) * 10 + digit_value(s.last()));
    } else {
        lemma_digit_char((m % 10) as int);
        lemma_decimal_digits(m / 10);
        let t = decimal_digits(m / 10);
        assert(s.drop_last() =~= t);
        assert(s.last() == digit_char((m % 10) as int));
        assert(digits_value(s) == digits_value(t) * 10 + digit_value(s.last()));
        assert(m == (m / 10) * 10 + m % 10);
        assert forall|i: int| 0 <= i < s.len() implies is_digit(#[trigger] s[i]) by {
            if i < t.len() {
                assert(s[i] == t[i]);
            }
        }
    }
}

proof fn lemma_last_segment_after_slash(prefix: Seq<char>, tail: Seq<char>)
    requires
        forall|i: int| 0 <= i < tail.len() ==> #[trigger] tail[i] != '/',
    ensures
        last_segment(prefix + seq!['/'] + tail) == tail,
    decreases tail.len(),
{
    let s = prefix + seq!['/'] + tail;
    if tail.len() == 0 {
        assert(s.last() == '/');
    } else {
        let t = tail.drop_last();
        assert forall|i: int| 0 <= i < t.len() implies #[trigger] t[i] != '/' by {
            assert(t[i] == tail[i]);
        }
        lemma_last_segment_after_slash(prefix, t);
        assert(s.drop_last() =~= prefix + seq!['/'] + t);
        assert(s.last() == tail.last());
        assert(t.push(tail.last()) =~= tail);
    }
}

/// An id whose last segment is the decimal text of a number carries that
/// number, whatever comes before the last `/`.
pub proof fn lemma_id_number_of_decimal(prefix: Seq<char>, n: i64)
    ensures
        spec_id_number(prefix + seq!['/'] + decimal_text(n)) == Some(n),
{
    let m: nat = if n < 0 { (-n) as nat } else { n as nat };
    lemma_decimal_digits(m);
    let digits = decimal_digits(m);
    let text = decimal_text(n);
    assert forall|i: int| 0 <= i < text.len() implies #[trigger] text[i] != '/' by {
        if n < 0 {
            if i > 0 {
                assert(text[i] == digits[i - 1]);
                assert(is_digit(digits[i - 1]));
            }
        } else {
            assert(is_digit(digits[i]));
        }
    }
    lemma_last_segment_after_slash(prefix, text);
    if n < 0 {
        assert(unsigned_part(text) =~= digits);
    } else {
        assert(is_digit(text[0]));
        assert(unsigned_part(text) == digits);
    }
}

} // verus!
