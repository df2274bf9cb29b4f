//! Decimal integer text, read the way `i64::from_str` reads it.

use vstd::prelude::*;

verus! {

/// `c` is one of the ASCII digits `0` to `9`.
pub open spec fn is_digit(c: char) -> bool {
    '0' <= c && c <= '9'
}

/// The value of an ASCII digit.
pub open spec fn digit_value(c: char) -> int {
    c as int - '0' as int
}

/// Every character of `s` is an ASCII digit.
pub open spec fn all_digits(s: Seq<char>) -> bool {
    forall|i: int| 0 <= i < s.len() ==> is_digit(#[trigger] s[i])
}

/// The number that the digits `s` spell in base ten (most significant first).
pub open spec fn digits_value(s: Seq<char>) -> int
    decreases s.len(),
{
    if s.len() == 0 {
        0
    } else {
        digits_value(s.drop_last()) * 10 + digit_value(s.last())
    }
}

/// The digits of `s` after an optional leading `+` or `-`.
pub open spec fn unsigned_part(s: Seq<char>) -> Seq<char> {
    if s.len() > 0 && (s[0] == '+' || s[0] == '-') {
        s.drop_first()
    } else {
        s
    }
}

/// What `i64::from_str` gives for the text `s`: an optional sign, then at
/// least one ASCII digit and nothing else, with a value that fits in `i64`.
pub open spec fn spec_parse_i64(s: Seq<char>) -> Option<i64> {
    let body = unsigned_part(s);
    let magnitude = digits_value(body);
    let value = if s.len() > 0 && s[0] == '-' { -magnitude } else { magnitude };
    if body.len() == 0 || !all_digits(body) {
        None
    } else if i64::MIN <= value <= i64::MAX {
        Some(value as i64)
    } else {
        None
    }
}

/// A prefix of a digit string never spells a larger number than the whole.
pub proof fn lemma_digits_value_prefix(s: Seq<char>, j: int)
    requires
        all_digits(s),
        0 <= j <= s.len(),
    ensures
        0 <= digits_value(s.take(j)) <= digits_value(s),
    decreases s.len(),
{
    if j < s.len() {
        let t = s.drop_last();
        assert(all_digits(t)) by {
            assert forall|i: int| 0 <= i < t.len() implies is_digit(#[trigger] t[i]) by {
                assert(t[i] == s[i]);
            }
        }
        lemma_digits_value_prefix(t, j);
        assert(t.take(j) =~= s.take(j));
        lemma_digits_value_prefix(t, t.len() as int);
        assert(t.take(t.len() as int) =~= t);
        assert(is_digit(s[s.len() - 1]));
    } else {
        assert(s.take(j) =~= s);
        if s.len() > 0 {
            let t = s.drop_last();
            assert(all_digits(t)) by {
                assert forall|i: int| 0 <= i < t.len() implies is_digit(#[trigger] t[i]) by {
                    assert(t[i] == s[i]);
                }
            }
            lemma_digits_value_prefix(t, t.len() as int);
            assert(t.take(t.len() as int) =~= t);
            assert(is_digit(s[s.len() - 1]));
        }
    }
}

/// Text that is empty, a lone sign, or has anything but an ASCII digit
/// after its optional leading sign is no `i64`; a text of digits alone
/// whose value fits reads as that value, and a minus sign negates it.
pub proof fn lemma_parse_i64_reads_sign_and_digits(s: Seq<char>, digits: Seq<char>)
    ensures
        spec_parse_i64(Seq::empty()) is None,
        spec_parse_i64(seq!['+']) is None,
        spec_parse_i64(seq!['-']) is None,
        (exists|i: int| 0 < i < s.len() && !is_digit(#[trigger] s[i])) ==> spec_parse_i64(s) is None,
        s.len() > 0 && !is_digit(s[0]) && s[0] != '+' && s[0] != '-' ==> spec_parse_i64(s) is None,
        digits.len() > 0 && all_digits(digits) && digits_value(digits) <= i64::MAX ==> {
            &&& spec_parse_i64(digits) == Some(digits_value(digits) as i64)
            &&& spec_parse_i64(seq!['+'] + digits) == Some(digits_value(digits) as i64)
            &&& spec_parse_i64(seq!['-'] + digits) == Some(-digits_value(digits) as i64)
        },
{
    assert(seq!['+'].drop_first() =~= Seq::<char>::empty());
    assert(seq!['-'].drop_first() =~= Seq::<char>::empty());
    if exists|i: int| 0 < i < s.len() && !is_digit(#[trigger] s[i]) {
        let i = choose|i: int| 0 < i < s.len() && !is_digit(#[trigger] s[i]);
        let body = unsigned_part(s);
        if s[0] == '+' || s[0] == '-' {
            assert(body[i - 1] == s[i]);
        } else {
            assert(body[i] == s[i]);
        }
    }
    if s.len() > 0 && !is_digit(s[0]) && s[0] != '+' && s[0] != '-' {
        assert(unsigned_part(s)[0] == s[0]);
    }
    if digits.len() > 0 && all_digits(digits) && digits_value(digits) <= i64::MAX {
        assert(is_digit(digits[0]));
        assert((seq!['+'] + digits).drop_first() =~= digits);
        assert((seq!['-'] + digits).drop_first() =~= digits);
        lemma_digits_value_prefix(digits, 0);
    }
}

/// Reads the whole of `s` as an `i64`, exactly as `i64::from_str` does.
pub fn parse_i64(s: &Vec<char>) -> (r: Option<i64>)
    ensures
        r == spec_parse_i64(s@),
{
    let n = s.len();
    if n == 0 {
        return None;
    }
    let negative = s[0] == '-';
    let start: usize = if s[0] == '+' || s[0] == '-' { 1 } else { 0 };
    let ghost body = unsigned_part(s@);
    assert(body =~= s@.subrange(start as int, n as int));
    if start == n {
        return None;
    }
    let mut i: usize = start;
    let mut magnitude: u64 = 0;
    while i < n
        invariant
            start <= i <= n,
            n == s@.len(),
            body == s@.subrange(start as int, n as int),
            body == unsigned_part(s@),
            negative == (s@[0] == '-'),
            all_digits(body.take(i - start)),
            magnitude == digits_value(body.take(i - start)),
        decreases n - i,
    {
        let c = s[i];
        let ghost k: int = i - start;
        if !('0' <= c && c <= '9') {
            assert(body[k] == c);
            assert(!is_digit(body[k]));
            assert(!all_digits(body));
            return None;
        }
        let ghost prev = body.take(k);
        let ghost next = body.take(k + 1);
        assert(next.drop_last() =~= prev);
        assert(next.last() == c);
        assert(all_digits(next)) by {
            assert forall|j: int| 0 <= j < next.len() implies is_digit(#[trigger] next[j]) by {
                if j < k {
                    assert(next[j] == prev[j]);
                }
            }
        }
        let d: u64 = (c as u32 - '0' as u32) as u64;
        let scaled = magnitude.checked_mul(10);
        let sum = match scaled {
            Some(m) => m.checked_add(d),
            None => None,
        };
        match sum {
            Some(v) => {
                magnitude = v;
            },
            None => {
                proof {
                    assert(digits_value(next) >= 0x1_0000_0000_0000_0000);
                    if all_digits(body) {
                        lemma_digits_value_prefix(body, k + 1);
                    }
                }
                return None;
            },
        }
        i = i + 1;
    }
    assert(body.take(n - start) =~= body);
    if negative {
        if magnitude <= 0x8000_0000_0000_0000 {
            if magnitude == 0x8000_0000_0000_0000 {
                Some(i64::MIN)
            } else {
                Some(-(magnitude as i64))
            }
        } else {
            None
        }
    } else {
        if magnitude <= 0x7fff_ffff_ffff_ffff {
            Some(magnitude as i64)
        } else {
            None
        }
    }
}

} // verus!
