//! Integers in decimal notation.

use crate::text::chars_of;
use crate::text::string_of;
use vstd::prelude::*;

verus! {

/// The digit with value `d`.
pub open spec fn digit(d: int) -> char {
    (d + 48) as char
}

/// `c` is one of the ten ASCII digits.
pub open spec fn is_digit(c: char) -> bool {
    '0' <= c <= '9'
}

/// The value of a digit.
pub open spec fn digit_value(c: char) -> int {
    c as int - 48
}

/// A natural number in decimal notation, without leading zeros.
pub open spec fn natural(n: nat) -> Seq<char>
    decreases n,
{
    if n < 10 {
        seq![digit(n as int)]
    } else {
        natural(n / 10).push(digit((n % 10) as int))
    }
}

/// An integer in decimal notation: a minus sign where it is negative, then its
/// absolute value.
pub open spec fn integer(n: int) -> Seq<char> {
    if n < 0 {
        seq!['-'] + natural((-n) as nat)
    } else {
        natural(n as nat)
    }
}

/// All of `s` are digits.
pub open spec fn all_digits(s: Seq<char>) -> bool {
    forall|i: int| 0 <= i < s.len() ==> is_digit(#[trigger] s[i])
}

/// The number that a sequence of digits denotes.
pub open spec fn digits_value(s: Seq<char>) -> int
    decreases s.len(),
{
    if s.len() == 0 {
        0
    } else {
        digits_value(s.drop_last()) * 10 + digit_value(s.last())
    }
}

/// `s` without the plus sign that it may start with.
pub open spec fn without_plus(s: Seq<char>) -> Seq<char> {
    if s.len() > 0 && s[0] == '+' {
        s.drop_first()
    } else {
        s
    }
}

/// The number no greater than `max` that `s` denotes: an optional plus sign,
/// then one digit or more, and nothing else.
pub open spec fn unsigned(s: Seq<char>, max: int) -> Option<int> {
    let d = without_plus(s);
    if d.len() > 0 && all_digits(d) && digits_value(d) <= max {
        Some(digits_value(d))
    } else {
        None
    }
}

proof fn lemma_digits_value_bounds(s: Seq<char>)
    requires
        all_digits(s),
    ensures
        digits_value(s) >= 0,
    decreases s.len(),
{
    if s.len() > 0 {
        assert(all_digits(s.drop_last()));
        assert(is_digit(s[s.len() - 1]));
        lemma_digits_value_bounds(s.drop_last());
    }
}

/// A longer sequence of digits denotes no smaller number.
proof fn lemma_digits_value_grows(s: Seq<char>, i: int)
    requires
        all_digits(s),
        0 <= i <= s.len(),
    ensures
        0 <= digits_value(s.take(i)) <= digits_value(s),
    decreases s.len(),
{
    assert(all_digits(s.take(i)));
    lemma_digits_value_bounds(s.take(i));
    lemma_digits_value_bounds(s);
    if i == s.len() {
        assert(s.take(i) =~= s);
    } else {
        let t = s.drop_last();
        assert(all_digits(t));
        assert(is_digit(s[s.len() - 1]));
        lemma_digits_value_grows(t, i);
        assert(t.take(i) =~= s.take(i));
        lemma_digits_value_bounds(t);
    }
}

/// Decimal notation is read back: what a natural number is written as consists
/// of digits and denotes that number.
pub proof fn natural_reads_back(n: nat)
    ensures
        natural(n).len() > 0,
        all_digits(natural(n)),
        digits_value(natural(n)) == n,
    decreases n,
{
    if n < 10 {
        let s = natural(n);
        assert(s.drop_last() =~= Seq::<char>::empty());
        assert(digits_value(s.drop_last()) == 0);
    } else {
        natural_reads_back(n / 10);
        let s = natural(n);
        assert(s.drop_last() =~= natural(n / 10));
        assert(s.last() == digit((n % 10) as int));
    }
}

/// A number that is written and then read with a limit that it meets comes
/// back.
pub proof fn unsigned_reads_natural(n: nat, max: int)
    requires
        n <= max,
    ensures
        unsigned(natural(n), max) == Some(n as int),
{
    natural_reads_back(n);
    assert(is_digit(natural(n)[0]));
    assert(without_plus(natural(n)) == natural(n));
}

/// Two integers written alike are the same integer.
pub proof fn integer_is_injective(a: int, b: int)
    requires
        integer(a) == integer(b),
    ensures
        a == b,
{
    let x = integer(a);
    if a < 0 {
        natural_reads_back((-a) as nat);
        assert(x[0] == '-');
        assert(x.drop_first() =~= natural((-a) as nat));
    } else {
        natural_reads_back(a as nat);
        assert(is_digit(x[0]));
    }
    if b < 0 {
        natural_reads_back((-b) as nat);
        assert(x[0] == '-');
        assert(x.drop_first() =~= natural((-b) as nat));
    } else {
        natural_reads_back(b as nat);
        assert(is_digit(x[0]));
    }
}

fn natural_chars(n: u64) -> (r: Vec<char>)
    ensures
        r@ == natural(n as nat),
    decreases n,
{
    let mut r: Vec<char> = if n < 10 {
        Vec::new()
    } else {
        natural_chars(n / 10)
    };
    let d: u8 = (n % 10) as u8;
    let c: char = (d + 48) as char;
    r.push(c);
    assert(r@ =~= natural(n as nat));
    r
}

/// Writes an integer in decimal notation.
pub fn integer_text(n: i64) -> (r: String)
    ensures
        r@ == integer(n as int),
{
    if n < 0 {
        let magnitude: u64 = (-(n + 1)) as u64 + 1;
        let mut r: Vec<char> = vec!['-'];
        let digits = natural_chars(magnitude);
        r.extend_from_slice(digits.as_slice());
        assert(r@ =~= integer(n as int));
        string_of(r.as_slice())
    } else {
        string_of(natural_chars(n as u64).as_slice())
    }
}

/// Writes a natural number in decimal notation.
pub fn natural_text(n: u64) -> (r: String)
    ensures
        r@ == natural(n as nat),
{
    string_of(natural_chars(n).as_slice())
}

/// Reads a number no greater than `max`.
pub fn parse_unsigned(s: &str, max: u64) -> (r: Option<u64>)
    ensures
        match r {
            Some(n) => unsigned(s@, max as int) == Some(n as int),
            None => unsigned(s@, max as int) is None,
        },
{
    let c = chars_of(s);
    let n: usize = c.len();
    let start: usize = if n > 0 && c[0] == '+' {
        1
    } else {
        0
    };
    let ghost d = without_plus(s@);
    assert(d =~= c@.skip(start as int));
    if start == n {
        return None;
    }
    let mut value: u64 = 0;
    let mut i: usize = start;
    assert(d.take(0) =~= Seq::<char>::empty());
    while i < n
        invariant
            start <= i <= n,
            n == c@.len(),
            d == c@.skip(start as int),
            d == without_plus(s@),
            all_digits(d.take(i - start)),
            value == digits_value(d.take(i - start)),
            value <= max,
        decreases n - i,
    {
        let x: char = c[i];
        let ghost k = i - start;
        assert(d[k] == x);
        if x < '0' || '9' < x {
            assert(!is_digit(d[k]));
            return None;
        }
        let v: u64 = (x as u32 - 48) as u64;
        assert(d.take(k + 1).drop_last() =~= d.take(k));
        assert(d.take(k + 1).last() == x);
        assert(all_digits(d.take(k + 1)));
        assert(digits_value(d.take(k + 1)) == value * 10 + v);
        proof {
            if all_digits(d) {
                lemma_digits_value_grows(d, k + 1);
            }
        }
        if value > max / 10 || v > max - value * 10 {
            assert(value * 10 + v > max);
            return None;
        }
        value = value * 10 + v;
        i += 1;
    }
    assert(d.take(n - start) =~= d);
    Some(value)
}

// ------------------------------------------------------------------------ laws

/// A number is written without leading zeros.
pub proof fn numbers_have_no_leading_zeros(n: nat)
    ensures
        natural(n).first() == '0' <==> n == 0,
        n == 0 ==> natural(n) == seq!['0'],
    decreases n,
{
    if n >= 10 {
        natural_reads_back(n / 10);
        numbers_have_no_leading_zeros(n / 10);
        assert(natural(n).first() == natural(n / 10).first());
    }
}

/// The decimal notation of a tenfold number and a digit is that of the number and
/// the digit.
pub proof fn numbers_are_written_digit_by_digit(n: nat, d: nat)
    requires
        n > 0,
        d < 10,
    ensures
        natural(n * 10 + d) == natural(n).push((d + 48) as char),
        natural(d) == seq![(d + 48) as char],
{
    assert((n * 10 + d) / 10 == n);
    assert((n * 10 + d) % 10 == d);
}

/// A negative integer is written as a minus sign and its absolute value, each
/// other as a natural number.
pub proof fn integers_are_written_with_their_sign(n: nat)
    ensures
        integer(n as int) == natural(n),
        n > 0 ==> integer(-(n as int)) == seq!['-'] + natural(n),
{
}

proof fn lemma_leading_zeros(zeros: Seq<char>, s: Seq<char>)
    requires
        forall|i: int| 0 <= i < zeros.len() ==> #[trigger] zeros[i] == '0',
        all_digits(s),
    ensures
        all_digits(zeros + s),
        digits_value(zeros + s) == digits_value(s),
    decreases s.len(), zeros.len(),
{
    let all = zeros + s;
    assert forall|i: int| 0 <= i < all.len() implies is_digit(#[trigger] all[i]) by {
        if i < zeros.len() {
            assert(zeros[i] == '0');
        } else {
            assert(s[i - zeros.len()] == all[i]);
        }
    }
    if s.len() > 0 {
        let t = s.drop_last();
        assert(all_digits(t)) by {
            assert forall|i: int| 0 <= i < t.len() implies is_digit(#[trigger] t[i]) by {
                assert(t[i] == s[i]);
            }
        }
        lemma_leading_zeros(zeros, t);
        assert(all.drop_last() =~= zeros + t);
        assert(all.last() == s.last());
    } else if zeros.len() > 0 {
        let z = zeros.drop_last();
        lemma_leading_zeros(z, s);
        assert(all.drop_last() =~= z + s);
        assert(all.last() == zeros[zeros.len() - 1]);
    }
}

/// A number is read however many zeros stand in front of it, and with a plus sign
/// or without one, exactly where it meets the limit.
pub proof fn numbers_are_read(zeros: Seq<char>, n: nat, max: int)
    requires
        forall|i: int| 0 <= i < zeros.len() ==> #[trigger] zeros[i] == '0',
    ensures
        unsigned(zeros + natural(n), max) == if n <= max {
            Some(n as int)
        } else {
            None
        },
        unsigned(seq!['+'] + zeros + natural(n), max) == if n <= max {
            Some(n as int)
        } else {
            None
        },
{
    natural_reads_back(n);
    lemma_leading_zeros(zeros, natural(n));
    let s = zeros + natural(n);
    assert(is_digit(s[0]));
    assert(without_plus(s) == s);
    let p = seq!['+'] + zeros + natural(n);
    assert(p[0] == '+');
    assert(p.drop_first() =~= s);
}

/// Nothing but digits is read, behind at most one plus sign, and not without one
/// digit.
pub proof fn nothing_else_is_read_as_a_number(s: Seq<char>, i: int, max: int)
    ensures
        0 <= i < s.len() && !('0' <= s[i] <= '9') && !(i == 0 && s[i] == '+') ==> unsigned(
            s,
            max,
        ) is None,
        s.len() == 0 ==> unsigned(s, max) is None,
        s.len() == 1 && s[0] == '+' ==> unsigned(s, max) is None,
{
    let d = without_plus(s);
    if 0 <= i < s.len() && !('0' <= s[i] <= '9') && !(i == 0 && s[i] == '+') {
        if s[0] == '+' {
            assert(d[i - 1] == s[i]);
            assert(!is_digit(d[i - 1]));
        } else {
            assert(!is_digit(d[i]));
        }
    }
}

} // verus!
