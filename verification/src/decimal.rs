//! Numbers as decimal text.

use vstd::prelude::*;
use vstd::string::*;

verus! {

/// The character of a digit.
pub open spec fn digit_char(d: nat) -> char {
    ('0' as u32 + d) as char
}

/// Whether a character is a decimal digit.
pub open spec fn is_digit(c: char) -> bool {
    '0' <= c && c <= '9'
}

/// The value of a digit.
pub open spec fn digit_value(c: char) -> nat {
    (c as u32 - '0' as u32) as nat
}

/// A number in decimal, without leading zeros.
pub open spec fn decimal(n: nat) -> Seq<char>
    decreases n,
{
    if n < 10 {
        seq![digit_char(n)]
    } else {
        decimal(n / 10).push(digit_char(n % 10))
    }
}

/// Whether all characters are digits.
pub open spec fn all_digits(s: Seq<char>) -> bool {
    forall|i: int| 0 <= i < s.len() ==> is_digit(#[trigger] s[i])
}

/// The number that a sequence of digits stands for.
pub open spec fn value_of(s: Seq<char>) -> nat
    decreases s.len(),
{
    if s.len() == 0 {
        0
    } else {
        10 * value_of(s.drop_last()) + digit_value(s.last())
    }
}

/// The digits of a number's text: what follows a leading plus sign.
pub open spec fn unsigned_part(s: Seq<char>) -> Seq<char> {
    if s.len() > 0 && s[0] == '+' {
        s.skip(1)
    } else {
        s
    }
}

/// The number that a text stands for: one or more digits, with at most one plus
/// sign before them, and no more than `max`.
pub open spec fn parsed(s: Seq<char>, max: nat) -> Option<nat> {
    let digits = unsigned_part(s);
    if digits.len() > 0 && all_digits(digits) && value_of(digits) <= max {
        Some(value_of(digits))
    } else {
        None
    }
}

/// Appends a number in decimal.
pub fn push_decimal(out: &mut String, n: u64)
    ensures
        final(out)@ == old(out)@ + decimal(n as nat),
    decreases n,
{
    if n >= 10 {
        push_decimal(out, n / 10);
    }
    let digits = "0123456789";
    proof {
        reveal_strlit("0123456789");
        assert(digits@ =~= seq!['0', '1', '2', '3', '4', '5', '6', '7', '8', '9']);
    }
    let d: usize = (n % 10) as usize;
    out.append(digits.substring_char(d, d + 1));
    assert(digits@.subrange(d as int, d + 1) =~= seq![digit_char(d as nat)]);
    assert(out@ =~= old(out)@ + decimal(n as nat));
}

/// A number in decimal.
pub fn to_decimal(n: u64) -> (s: String)
    ensures
        s@ == decimal(n as nat),
{
    let mut s = String::new();
    push_decimal(&mut s, n);
    assert(s@ =~= decimal(n as nat));
    s
}

/// The digits of a text grow with it.
proof fn lemma_unsigned_part_grows(s: Seq<char>, k: int)
    requires
        0 <= k < s.len(),
    ensures
        k == 0 && s[0] == '+' ==> unsigned_part(s.take(k + 1)) =~= Seq::<char>::empty(),
        !(k == 0 && s[0] == '+') ==> unsigned_part(s.take(k + 1)) =~= unsigned_part(
            s.take(k),
        ).push(s[k]),
        unsigned_part(s.take(k + 1)) == unsigned_part(s).take(
            unsigned_part(s.take(k + 1)).len() as int,
        ),
        unsigned_part(s.take(k + 1)).len() <= unsigned_part(s).len(),
{
    let digits = unsigned_part(s);
    let now = unsigned_part(s.take(k + 1));
    assert(now =~= digits.take(now.len() as int));
}

/// No part of a number's digits, from the front, is worth more than the number.
proof fn lemma_prefix_value(s: Seq<char>, k: int)
    requires
        0 <= k <= s.len(),
    ensures
        value_of(s.take(k)) <= value_of(s),
    decreases s.len() - k,
{
    if k < s.len() {
        assert(s.take(k + 1).drop_last() =~= s.take(k));
        lemma_prefix_value(s, k + 1);
    } else {
        assert(s.take(k) =~= s);
    }
}

/// Reads a number of at most `max` from decimal text; a plus sign may stand
/// before the digits.
pub fn parse_decimal(s: &str, max: u64) -> (r: Option<u64>)
    ensures
        r is Some <==> parsed(s@, max as nat) is Some,
        r matches Some(n) ==> parsed(s@, max as nat) == Some(n as nat),
{
    let mut value: u64 = 0;
    let mut at_start: bool = true;
    let mut any_digit: bool = false;
    assert(unsigned_part(s@.take(0)) =~= Seq::<char>::empty());
    for c in it: s.chars()
        invariant
            it.seq() == s@,
            at_start == (it.index() == 0),
            any_digit == (unsigned_part(s@.take(it.index() as int)).len() > 0),
            all_digits(unsigned_part(s@.take(it.index() as int))),
            value == value_of(unsigned_part(s@.take(it.index() as int))),
            value <= max,
    {
        let ghost k = it.index() as int;
        let ghost digits = unsigned_part(s@);
        let ghost seen = unsigned_part(s@.take(k));
        let ghost now = unsigned_part(s@.take(k + 1));
        proof {
            lemma_unsigned_part_grows(s@, k);
        }
        if !(at_start && c == '+') {
            assert(now == seen.push(c));
            assert(now.drop_last() =~= seen);
            assert(now.last() == c && digits[now.len() - 1] == c);
            if c < '0' || c > '9' {
                assert(!is_digit(digits[now.len() - 1]));
                return None;
            }
            let d: u64 = (c as u32 - '0' as u32) as u64;
            assert(value_of(now) == 10 * value_of(seen) + d);
            if d > max || value > (max - d) / 10 {
                proof {
                    lemma_prefix_value(digits, now.len() as int);
                }
                return None;
            }
            value = value * 10 + d;
            any_digit = true;
            assert forall|i: int| 0 <= i < now.len() implies is_digit(#[trigger] now[i]) by {
                if i < seen.len() {
                    assert(now[i] == seen[i]);
                }
            }
        }
        at_start = false;
    }
    assert(s@.take(s@.len() as int) =~= s@);
    if any_digit {
        Some(value)
    } else {
        None
    }
}

/// The decimal text of a number consists of digits that are worth it.
proof fn lemma_decimal_digits(n: nat)
    ensures
        decimal(n).len() > 0,
        all_digits(decimal(n)),
        value_of(decimal(n)) == n,
    decreases n,
{
    let s = decimal(n);
    if n < 10 {
        assert(s.drop_last() =~= Seq::<char>::empty());
        assert(value_of(s.drop_last()) == 0);
    } else {
        lemma_decimal_digits(n / 10);
        assert(s.drop_last() =~= decimal(n / 10));
        assert forall|i: int| 0 <= i < s.len() implies is_digit(#[trigger] s[i]) by {
            if i < s.len() - 1 {
                assert(s[i] == decimal(n / 10)[i]);
            }
        }
    }
}

/// A number is read back from its own text, wherever it is in range.
pub proof fn law_decimal_round_trip(n: nat, max: nat)
    ensures
        parsed(decimal(n), max) == (if n <= max {
            Some(n)
        } else {
            None
        }),
{
    lemma_decimal_digits(n);
    assert(is_digit(decimal(n)[0]));
}

/// A further digit makes a number ten times as large and adds what it is worth;
/// no digits are worth nothing.
pub proof fn law_value_of_digits(s: Seq<char>, c: char)
    requires
        '0' <= c <= '9',
    ensures
        value_of(Seq::<char>::empty()) == 0,
        value_of(s.push(c)) == 10 * value_of(s) + (c as u32 - 48),
{
    assert(s.push(c).drop_last() =~= s);
}

/// The decimal text of a number is made of digits, is worth the number and has
/// no zero in front of other digits.
pub proof fn law_decimal_is_canonical(n: nat)
    ensures
        decimal(n).len() > 0,
        forall|i: int| 0 <= i < decimal(n).len() ==> '0' <= #[trigger] decimal(n)[i] <= '9',
        value_of(decimal(n)) == n,
        decimal(n).len() > 1 ==> decimal(n)[0] != '0',
    decreases n,
{
    lemma_decimal_digits(n);
    assert forall|i: int| 0 <= i < decimal(n).len() implies '0' <= #[trigger] decimal(n)[i]
        <= '9' by {
        assert(is_digit(decimal(n)[i]));
    }
    if n >= 10 {
        law_decimal_is_canonical(n / 10);
        assert(decimal(n)[0] == decimal(n / 10)[0]);
        if decimal(n / 10).len() == 1 {
            assert(decimal(n / 10).drop_last() =~= Seq::<char>::empty());
            assert(value_of(decimal(n / 10).drop_last()) == 0);
        }
    }
}

/// There is no other such text: digits without a zero in front are the decimal
/// text of what they are worth.
pub proof fn law_decimal_is_unique(s: Seq<char>)
    requires
        s.len() > 0,
        forall|i: int| 0 <= i < s.len() ==> '0' <= #[trigger] s[i] <= '9',
        s.len() > 1 ==> s[0] != '0',
    ensures
        decimal(value_of(s)) == s,
    decreases s.len(),
{
    let front = s.drop_last();
    assert(s.last() == s[s.len() - 1]);
    if s.len() == 1 {
        assert(front =~= Seq::<char>::empty());
        assert(value_of(front) == 0);
        assert(decimal(value_of(s)) =~= s);
    } else {
        assert(front[0] == s[0]);
        assert forall|i: int| 0 <= i < front.len() implies '0' <= #[trigger] front[i] <= '9' by {
            assert(front[i] == s[i]);
        }
        law_decimal_is_unique(front);
        if value_of(front) == 0 {
            assert(front[0] == '0');
        }
        assert(value_of(s) / 10 == value_of(front));
        assert(decimal(value_of(s)) =~= s);
    }
}

/// Digits are read as what they are worth, with or without a plus sign in front,
/// up to the largest number allowed and no further.
pub proof fn law_digits_are_read(s: Seq<char>, max: nat)
    requires
        s.len() > 0,
        forall|i: int| 0 <= i < s.len() ==> '0' <= #[trigger] s[i] <= '9',
    ensures
        value_of(s) <= max ==> parsed(s, max) == Some(value_of(s)),
        value_of(s) <= max ==> parsed(seq!['+'] + s, max) == Some(value_of(s)),
        value_of(s) > max ==> parsed(s, max) is None,
        value_of(s) > max ==> parsed(seq!['+'] + s, max) is None,
{
    assert(s[0] != '+');
    assert((seq!['+'] + s).skip(1) =~= s);
    assert(all_digits(s)) by {
        assert forall|i: int| 0 <= i < s.len() implies is_digit(#[trigger] s[i]) by {
            assert('0' <= s[i] <= '9');
        }
    }
}

/// Nothing else is read: not an empty text, not a plus sign alone, and no text
/// with any other character.
pub proof fn law_other_text_is_not_read(s: Seq<char>, max: nat, i: int)
    requires
        s.len() == 0 || s == seq!['+'] || {
            &&& 0 <= i < s.len()
            &&& !('0' <= s[i] <= '9')
            &&& i > 0 || s[0] != '+'
        },
    ensures
        parsed(s, max) is None,
{
    if s == seq!['+'] {
        assert(s.skip(1).len() == 0);
    } else if s.len() > 0 {
        let digits = unsigned_part(s);
        let j = if s[0] == '+' {
            i - 1
        } else {
            i
        };
        assert(digits[j] == s[i]);
        assert(!is_digit(digits[j]));
    }
}

} // verus!
