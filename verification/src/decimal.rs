//! Decimal writing and reading of identifiers.

use vstd::prelude::*;
use crate::text::concat;
use vstd::string::*;

verus! {

/// The character of a decimal digit.
pub open spec fn digit_char(d: int) -> char {
    if d == 0 { '0' } else if d == 1 { '1' } else if d == 2 { '2' } else if d == 3 { '3' } else if d == 4 {
        '4'
    } else if d == 5 { '5' } else if d == 6 { '6' } else if d == 7 { '7' } else if d == 8 { '8' } else { '9' }
}

/// Whether a character is a decimal digit.
pub open spec fn is_digit(c: char) -> bool {
    '0' <= c && c <= '9'
}

/// The value of a decimal digit character.
pub open spec fn digit_value(c: char) -> int {
    (c as int) - ('0' as int)
}

/// The decimal digits of a natural number, most significant first, without
/// leading zeros.
pub open spec fn digits_of(n: nat) -> Seq<char>
    decreases n,
{
    if n < 10 {
        seq![digit_char(n as int)]
    } else {
        digits_of(n / 10).push(digit_char((n % 10) as int))
    }
}

/// The decimal writing of an integer: a `-` before the digits of a negative one.
pub open spec fn decimal(x: int) -> Seq<char> {
    if x < 0 {
        seq!['-'] + digits_of((-x) as nat)
    } else {
        digits_of(x as nat)
    }
}

/// The value of a sequence of decimal digits.
pub open spec fn digits_value(s: Seq<char>) -> int
    decreases s.len(),
{
    if s.len() == 0 {
        0
    } else {
        digits_value(s.drop_last()) * 10 + digit_value(s.last())
    }
}

/// Whether every character is a decimal digit.
pub open spec fn all_digits(s: Seq<char>) -> bool {
    forall|i: int| 0 <= i < s.len() ==> is_digit(#[trigger] s[i])
}

/// The integer a string reads as: an optional sign, then at least one
/// decimal digit, the value fitting in 32 signed bits.
pub open spec fn spec_parse_i32(s: Seq<char>) -> Option<i32> {
    let negative = s.len() > 0 && s[0] == '-';
    let signed = s.len() > 0 && (s[0] == '-' || s[0] == '+');
    let body = if signed { s.drop_first() } else { s };
    if body.len() == 0 || !all_digits(body) {
        None
    } else {
        let v = if negative { -digits_value(body) } else { digits_value(body) };
        if i32::MIN <= v <= i32::MAX {
            Some(v as i32)
        } else {
            None
        }
    }
}

fn digit_str(d: u64) -> (r: &'static str)
    requires
        d < 10,
    ensures
        r@ == seq![digit_char(d as int)],
{
    proof {
        reveal_strlit("0");
        reveal_strlit("1");
        reveal_strlit("2");
        reveal_strlit("3");
        reveal_strlit("4");
        reveal_strlit("5");
        reveal_strlit("6");
        reveal_strlit("7");
        reveal_strlit("8");
        reveal_strlit("9");
    }
    let r = if d == 0 {
        "0"
    } else if d == 1 {
        "1"
    } else if d == 2 {
        "2"
    } else if d == 3 {
        "3"
    } else if d == 4 {
        "4"
    } else if d == 5 {
        "5"
    } else if d == 6 {
        "6"
    } else if d == 7 {
        "7"
    } else if d == 8 {
        "8"
    } else {
        "9"
    };
    assert(r@ =~= seq![digit_char(d as int)]);
    r
}

/// The decimal digits of a natural number.
pub fn format_u64(n: u64) -> (r: String)
    ensures
        r@ == digits_of(n as nat),
    decreases n,
{
    if n < 10 {
        digit_str(n).to_owned()
    } else {
        let prefix = format_u64(n / 10);
        let r = concat(prefix.as_str(), digit_str(n % 10));
        r
    }
}

/// The decimal writing of an integer.
pub fn format_i32(x: i32) -> (r: String)
    ensures
        r@ == decimal(x as int),
{
    if x < 0 {
        let magnitude = (-(x as i64)) as u64;
        let digits = format_u64(magnitude);
        proof {
            reveal_strlit("-");
        }
        let r = concat("-", digits.as_str());
        assert(r@ =~= seq!['-'] + digits_of((-x) as nat));
        r
    } else {
        format_u64(x as u64)
    }
}

proof fn lemma_digits_value_grows(s: Seq<char>, c: char)
    requires
        all_digits(s.push(c)),
    ensures
        digits_value(s.push(c)) >= digits_value(s) >= 0,
    decreases s.len(),
{
    assert(s.push(c).drop_last() =~= s);
    if s.len() > 0 {
        assert(all_digits(s.drop_last().push(s.last()))) by {
            assert(s.drop_last().push(s.last()) =~= s);
            assert forall|i: int| 0 <= i < s.len() implies is_digit(#[trigger] s[i]) by {
                assert(s[i] == s.push(c)[i]);
            }
        }
        lemma_digits_value_grows(s.drop_last(), s.last());
        assert(s.drop_last().push(s.last()) =~= s);
    }
    assert(is_digit(s.push(c)[s.len() as int]));
}

/// Reads an integer from its decimal writing: see [`spec_parse_i32`].
#[verifier::loop_isolation(false)]
pub fn parse_i32(s: &str) -> (r: Option<i32>)
    ensures
        r == spec_parse_i32(s@),
{
    let n = s.unicode_len();
    let negative = n > 0 && s.get_char(0) == '-';
    let signed = n > 0 && (s.get_char(0) == '-' || s.get_char(0) == '+');
    let start: usize = if signed { 1 } else { 0 };
    let ghost body = if signed { s@.drop_first() } else { s@ };
    assert(body =~= s@.skip(start as int));
    if start == n {
        return None;
    }
    let mut value: i64 = 0;
    let mut i: usize = start;
    while i < n
        invariant
            n == s@.len(),
            start <= i <= n,
            body == s@.skip(start as int),
            all_digits(s@.subrange(start as int, i as int)),
            value == digits_value(s@.subrange(start as int, i as int)),
            0 <= value <= 0x8000_0000,
        decreases n - i,
    {
        let c = s.get_char(i);
        if !('0' <= c && c <= '9') {
            proof {
                assert(body[i - start] == c);
                assert(!is_digit(body[i - start]));
                assert(!all_digits(body));
            }
            return None;
        }
        let d = (c as u32 - '0' as u32) as i64;
        let ghost prefix = s@.subrange(start as int, i as int);
        assert(s@.subrange(start as int, i + 1) =~= prefix.push(c));
        assert(s@.subrange(start as int, i + 1).drop_last() =~= prefix);
        assert(all_digits(prefix.push(c))) by {
            assert forall|k: int| 0 <= k < prefix.push(c).len() implies is_digit(#[trigger] prefix.push(c)[k]) by {
                if k < prefix.len() {
                    assert(prefix.push(c)[k] == prefix[k]);
                }
            }
        }
        let next = value * 10 + d;
        if next > 0x8000_0000 {
            // Any further digit can only make the value larger.
            proof {
                assert(digit_value(c) == d);
                assert(digits_value(prefix.push(c)) == value * 10 + d);
                lemma_digits_value_tail(body, i - start + 1);
                assert(body.take(i - start + 1) =~= prefix.push(c));
                if all_digits(body) {
                    assert(body.take(body.len() as int) =~= body);
                    assert(digits_value(body.take(body.len() as int)) >= digits_value(body.take(i - start + 1)));
                    assert(digits_value(body) > 0x8000_0000);
                }
            }
            return None;
        }
        proof {
            assert(digit_value(c) == d);
        }
        value = next;
        i = i + 1;
    }
    assert(s@.subrange(start as int, n as int) =~= body);
    if negative {
        if value <= 0x8000_0000 {
            Some((-value) as i32)
        } else {
            None
        }
    } else {
        if value <= 0x7fff_ffff {
            Some(value as i32)
        } else {
            None
        }
    }
}

/// Once a prefix of a digit sequence is worth more than the bound, so is every
/// longer prefix.
proof fn lemma_digits_value_tail(s: Seq<char>, k: int)
    requires
        0 < k <= s.len(),
    ensures
        all_digits(s) ==> forall|j: int| k <= j <= s.len() ==> #[trigger] digits_value(s.take(j)) >= digits_value(
            s.take(k),
        ),
    decreases s.len() - k,
{
    if k < s.len() && all_digits(s) {
        lemma_digits_value_tail(s, k + 1);
        assert(s.take(k + 1) =~= s.take(k).push(s[k]));
        assert(all_digits(s.take(k).push(s[k]))) by {
            assert forall|i: int| 0 <= i < s.take(k).push(s[k]).len() implies is_digit(
                #[trigger] s.take(k).push(s[k])[i],
            ) by {
                assert(s.take(k).push(s[k])[i] == s[i]);
            }
        }
        lemma_digits_value_grows(s.take(k), s[k]);
    }
}


proof fn lemma_digit_char(d: int)
    requires
        0 <= d < 10,
    ensures
        is_digit(digit_char(d)),
        digit_value(digit_char(d)) == d,
{
}

proof fn lemma_digits_of(n: nat)
    ensures
        digits_of(n).len() > 0,
        all_digits(digits_of(n)),
        digits_value(digits_of(n)) == n,
    decreases n,
{
    if n < 10 {
        lemma_digit_char(n as int);
        let s = digits_of(n);
        assert(s.drop_last() =~= Seq::<char>::empty());
        assert(digits_value(s.drop_last()) == 0);
        assert(s.last() == digit_char(n as int));
        assert(digits_value(s) == digits_value(s.drop_last()) * 10 + digit_value(s.last()));
    } else {
        lemma_digits_of(n / 10);
        lemma_digit_char((n % 10) as int);
        let s = digits_of(n);
        assert(s.drop_last() =~= digits_of(n / 10));
        assert(s.last() == digit_char((n % 10) as int));
        assert(digits_value(s) == digits_value(digits_of(n / 10)) * 10 + (n % 10) as int);
        assert(n == (n / 10) * 10 + n % 10);
        assert forall|i: int| 0 <= i < s.len() implies is_digit(#[trigger] s[i]) by {
            if i < s.len() - 1 {
                assert(s[i] == digits_of(n / 10)[i]);
            }
        }
    }
}

/// Reading back the decimal writing of an integer gives that integer.
pub proof fn law_parse_reads_back_format(x: i32)
    ensures
        spec_parse_i32(decimal(x as int)) == Some(x),
{
    if x < 0 {
        let m = (-x) as nat;
        lemma_digits_of(m);
        let s = decimal(x as int);
        assert(s.drop_first() =~= digits_of(m));
        assert(s[0] == '-');
    } else {
        lemma_digits_of(x as nat);
        let s = decimal(x as int);
        assert(is_digit(s[0]));
    }
}

/// The decimal writing of an integer is made of digits, with a `-` first for a
/// negative one, and ends with a digit.
pub proof fn lemma_decimal_shape(x: i32)
    ensures
        decimal(x as int).len() > 0,
        is_digit(decimal(x as int).last()),
        forall|j: int| 0 <= j < decimal(x as int).len() ==> (#[trigger] decimal(x as int)[j] == '-' || is_digit(
            decimal(x as int)[j],
        )),
{
    if x < 0 {
        lemma_digits_of((-x) as nat);
        let d = digits_of((-x) as nat);
        assert forall|j: int| 0 <= j < decimal(x as int).len() implies (#[trigger] decimal(x as int)[j] == '-'
            || is_digit(decimal(x as int)[j])) by {
            if j > 0 {
                assert(decimal(x as int)[j] == d[j - 1]);
            }
        }
        assert(decimal(x as int).last() == d.last());
    } else {
        lemma_digits_of(x as nat);
    }
}
} // verus!
