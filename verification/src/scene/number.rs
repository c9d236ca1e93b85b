//! Numbers as a script writes them: repeat counts, and quantities that are
//! either one value or a range to draw from.

use crate::scene::lexer::{find, until, Token};
use vstd::prelude::*;
use vstd::slice::{slice_subrange, slice_to_vec};

verus! {

/// A numeric field of a script. The field's text is kept as written; a range
/// `lo_hi` asks for a value drawn between its two bounds each time the
/// statement is executed.
#[derive(Debug, PartialEq, Eq)]
pub enum Quantity<T> {
    /// A single value.
    Exact(T),
    /// A lower and an upper bound.
    Between(T, T),
}

impl View for Quantity<Token> {
    type V = Quantity<Seq<char>>;

    open spec fn view(&self) -> Quantity<Seq<char>> {
        match self {
            Quantity::Exact(v) => Quantity::Exact(v@),
            Quantity::Between(lo, hi) => Quantity::Between(lo@, hi@),
        }
    }
}

/// How a field reads as a quantity: without an underscore it is one value,
/// with one underscore it is the range between the texts on either side, and
/// with more it is nothing.
pub open spec fn quantity_of(s: Seq<char>) -> Option<Quantity<Seq<char>>> {
    let k = until(s, '_') as int;
    if k >= s.len() {
        Some(Quantity::Exact(s))
    } else {
        let hi = s.skip(k + 1);
        if until(hi, '_') >= hi.len() {
            Some(Quantity::Between(s.take(k), hi))
        } else {
            None
        }
    }
}

/// Tells whether `c` is one of the ten decimal digits.
pub open spec fn is_digit(c: char) -> bool {
    0x30 <= c as u32 <= 0x39
}

/// The value of a decimal digit.
pub open spec fn digit_value(c: char) -> nat {
    if is_digit(c) {
        (c as u32 - 0x30) as nat
    } else {
        0
    }
}

/// Tells whether `s` holds decimal digits only.
pub open spec fn all_digits(s: Seq<char>) -> bool {
    forall|i: int| 0 <= i < s.len() ==> is_digit(#[trigger] s[i])
}

/// The number that a string of decimal digits denotes.
pub open spec fn decimal(s: Seq<char>) -> nat
    decreases s.len(),
{
    if s.len() == 0 {
        0
    } else {
        decimal(s.drop_last()) * 10 + digit_value(s.last())
    }
}

/// A count's text without its optional leading plus sign.
pub open spec fn unsigned(s: Seq<char>) -> Seq<char> {
    if s.len() > 0 && s[0] == '+' {
        s.drop_first()
    } else {
        s
    }
}

/// How a field reads as a count: an optional plus sign followed by one or more
/// decimal digits whose value fits the machine word.
pub open spec fn count_of(s: Seq<char>) -> Option<usize> {
    let d = unsigned(s);
    if d.len() > 0 && all_digits(d) && decimal(d) <= usize::MAX {
        Some(decimal(d) as usize)
    } else {
        None
    }
}

/// A prefix of a digit string never denotes more than the whole string.
pub proof fn lemma_decimal_prefix(s: Seq<char>, k: int)
    requires
        0 <= k <= s.len(),
    ensures
        decimal(s.take(k)) <= decimal(s),
    decreases s.len() - k,
{
    if k == s.len() {
        assert(s.take(k) == s);
    } else {
        lemma_decimal_prefix(s.drop_last(), k);
        assert(s.drop_last().take(k) == s.take(k));
    }
}

/// The character of a decimal digit.
pub open spec fn digit_char(d: nat) -> char
    recommends
        d < 10,
{
    (0x30 + d) as char
}

/// A number written in decimal digits, without leading zeros.
pub open spec fn digits_of(n: nat) -> Seq<char>
    decreases n,
{
    if n < 10 {
        seq![digit_char(n)]
    } else {
        digits_of(n / 10).push(digit_char(n % 10))
    }
}

/// A number written in decimal digits reads as that number.
pub proof fn lemma_decimal_of_digits(n: nat)
    ensures
        digits_of(n).len() > 0,
        all_digits(digits_of(n)),
        decimal(digits_of(n)) == n,
    decreases n,
{
    if n < 10 {
        let s = digits_of(n);
        assert(s.drop_last().len() == 0);
        assert(decimal(s.drop_last()) == 0);
        assert(s.last() == digit_char(n));
    } else {
        lemma_decimal_of_digits(n / 10);
        let s = digits_of(n);
        let shorter = digits_of(n / 10);
        assert(s.drop_last() == shorter);
        assert(s.last() == digit_char(n % 10));
        assert forall|i: int| 0 <= i < s.len() implies is_digit(#[trigger] s[i]) by {
            if i < shorter.len() {
                assert(s[i] == shorter[i]);
            }
        }
    }
}

/// Every count has a text that reads as it: its decimal digits.
pub proof fn lemma_count_of_digits(n: usize)
    ensures
        count_of(digits_of(n as nat)) == Some(n),
{
    lemma_decimal_of_digits(n as nat);
    let s = digits_of(n as nat);
    assert(is_digit(s[0]));
}

/// Tells whether `stop` occurs in `s`.
pub open spec fn occurs(s: Seq<char>, stop: char) -> bool {
    exists|i: int| 0 <= i < s.len() && s[i] == stop
}

/// What comes before the first `stop` is free of it, and `stop` stands right
/// behind it unless the text ends there.
pub proof fn lemma_until(s: Seq<char>, stop: char)
    ensures
        until(s, stop) <= s.len(),
        !occurs(s.take(until(s, stop) as int), stop),
        until(s, stop) < s.len() ==> s[until(s, stop) as int] == stop,
        until(s, stop) == s.len() <==> !occurs(s, stop),
    decreases s.len(),
{
    if s.len() == 0 || s[0] == stop {
        assert(s.take(0).len() == 0);
        if s.len() > 0 {
            assert(s[0] == stop);
        }
    } else {
        let rest = s.drop_first();
        let n = until(rest, stop) as int;
        lemma_until(rest, stop);
        let head = s.take(n + 1);
        assert forall|i: int| 0 <= i < head.len() implies head[i] != stop by {
            if i > 0 {
                assert(head[i] == rest.take(n)[i - 1]);
            }
        }
        if occurs(s, stop) {
            let i = choose|i: int| 0 <= i < s.len() && s[i] == stop;
            assert(rest[i - 1] == stop);
        }
        if occurs(rest, stop) {
            let i = choose|i: int| 0 <= i < rest.len() && rest[i] == stop;
            assert(s[i + 1] == stop);
        }
    }
}

/// A quantity is the whole field: one value is the field as it stands, the
/// two bounds of a range are what stands on either side of the field's only
/// underscore, and a field is no quantity exactly if it has more than one.
pub proof fn lemma_quantity_reads_whole_field(s: Seq<char>)
    ensures
        match quantity_of(s) {
            Some(Quantity::Exact(v)) => v == s && !occurs(s, '_'),
            Some(Quantity::Between(lo, hi)) => s == lo + seq!['_'] + hi && !occurs(lo, '_')
                && !occurs(hi, '_'),
            None => exists|i: int, j: int| 0 <= i < j < s.len() && s[i] == '_' && s[j] == '_',
        },
{
    lemma_until(s, '_');
    let k = until(s, '_') as int;
    if k < s.len() {
        let hi = s.skip(k + 1);
        lemma_until(hi, '_');
        if until(hi, '_') >= hi.len() {
            assert(s =~= s.take(k) + seq!['_'] + hi);
        } else {
            let j = k + 1 + until(hi, '_');
            assert(s[j] == hi[until(hi, '_') as int]);
            assert(0 <= k < j < s.len() && s[k] == '_' && s[j] == '_');
        }
    }
}

/// Reads a field as a quantity.
pub fn quantity(field: &[char]) -> (q: Option<Quantity<Token>>)
    ensures
        match q {
            Some(v) => quantity_of(field@) == Some(v@),
            None => quantity_of(field@) is None,
        },
{
    let n = field.len();
    let k = find(field, '_');
    if k >= n {
        proof {
            assert(field@.subrange(0, n as int) == field@);
        }
        Some(Quantity::Exact(slice_to_vec(field)))
    } else {
        let low = slice_subrange(field, 0, k);
        let high = slice_subrange(field, k + 1, n);
        proof {
            assert(field@.skip(k + 1) == field@.subrange(k + 1, n as int));
            assert(field@.take(k as int) == field@.subrange(0, k as int));
        }
        if find(high, '_') >= high.len() {
            Some(Quantity::Between(slice_to_vec(low), slice_to_vec(high)))
        } else {
            None
        }
    }
}

/// Reads a field as a count.
pub fn parse_count(field: &[char]) -> (count: Option<usize>)
    ensures
        count == count_of(field@),
{
    let n = field.len();
    let start: usize = if n > 0 && field[0] == '+' {
        1
    } else {
        0
    };
    let ghost digits = unsigned(field@);
    proof {
        assert(digits == field@.skip(start as int));
        assert(digits.take(0) == Seq::<char>::empty());
    }
    if start >= n {
        return None;
    }
    let mut value: usize = 0;
    let mut i: usize = start;
    while i < n
        invariant
            start <= i <= n == field.len(),
            digits == field@.skip(start as int),
            digits == unsigned(field@),
            all_digits(digits.take(i - start)),
            value == decimal(digits.take(i - start)),
        decreases n - i,
    {
        let digit: char = field[i];
        let c: u32 = digit as u32;
        proof {
            assert(digits[i - start] == digit);
        }
        if c < 0x30 || c > 0x39 {
            proof {
                assert(!is_digit(digits[i - start]));
            }
            return None;
        }
        let d: usize = (c - 0x30) as usize;
        proof {
            let longer = digits.take(i + 1 - start);
            assert(longer.drop_last() == digits.take(i - start));
            assert(longer.last() == digit);
            assert(digit_value(digit) == d);
            assert forall|j: int| 0 <= j < longer.len() implies is_digit(#[trigger] longer[j]) by {
                if j < i - start {
                    assert(longer[j] == digits.take(i - start)[j]);
                }
            }
            assert(decimal(longer) == value * 10 + d);
            lemma_decimal_prefix(digits, i + 1 - start);
        }
        if value > (usize::MAX - d) / 10 {
            return None;
        }
        value = value * 10 + d;
        i = i + 1;
    }
    proof {
        assert(digits.take(n - start) == digits);
    }
    Some(value)
}

} // verus!
