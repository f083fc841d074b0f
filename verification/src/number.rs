//! Unsigned decimal numbers: writing them and reading them.

use vstd::arithmetic::power::{lemma_pow0, pow};
use vstd::prelude::*;

verus! {

/// The ASCII digit for `d`.
pub open spec fn digit_char(d: nat) -> char
    recommends
        d < 10,
{
    (d + '0' as nat) as char
}

/// The decimal text of `n`, without leading zeros.
pub open spec fn decimal(n: nat) -> Seq<char>
    decreases n,
{
    if n < 10 {
        seq![digit_char(n)]
    } else {
        decimal(n / 10).push(digit_char(n % 10))
    }
}

/// Whether every character of `s` is an ASCII digit.
pub open spec fn all_digits(s: Seq<char>) -> bool {
    forall|i: int| 0 <= i < s.len() ==> '0' <= #[trigger] s[i] <= '9'
}

/// The number that the digits of `s` stand for, the most significant first.
pub open spec fn digits_value(s: Seq<char>) -> nat
    decreases s.len(),
{
    if s.len() == 0 {
        0
    } else {
        10 * digits_value(s.drop_last()) + (s.last() as nat - '0' as nat) as nat
    }
}

/// The digits of a number: what follows an optional plus sign.
pub open spec fn without_plus(s: Seq<char>) -> Seq<char> {
    if s.len() > 0 && s[0] == '+' {
        s.skip(1)
    } else {
        s
    }
}

/// The number up to `max` that `s` writes: an optional plus sign and one or more digits.
pub open spec fn unsigned_value(s: Seq<char>, max: nat) -> Option<nat> {
    let digits = without_plus(s);
    if digits.len() > 0 && all_digits(digits) && digits_value(digits) <= max {
        Some(digits_value(digits))
    } else {
        None
    }
}

/// What `decimal` writes are digits of the value that it was given, with no leading zero.
pub proof fn lemma_decimal(n: nat)
    ensures
        decimal(n).len() > 0,
        all_digits(decimal(n)),
        digits_value(decimal(n)) == n,
        decimal(n)[0] == '0' ==> n == 0,
        n < 10 ==> decimal(n).len() == 1,
        n < 100 ==> decimal(n).len() <= 2,
        n < 1000 ==> decimal(n).len() <= 3,
    decreases n,
{
    if n < 10 {
        assert(decimal(n).drop_last() == Seq::<char>::empty());
        assert(digits_value(Seq::<char>::empty()) == 0);
        assert(decimal(n).last() == digit_char(n));
    } else {
        lemma_decimal(n / 10);
        assert(decimal(n).drop_last() == decimal(n / 10));
        assert(decimal(n)[0] == decimal(n / 10)[0]);
        assert(decimal(n).last() == digit_char(n % 10));
    }
}

/// Digits without a leading zero are the decimal text of their value.
pub proof fn lemma_digits_are_decimal(s: Seq<char>)
    requires
        s.len() > 0,
        all_digits(s),
        s[0] != '0' || s.len() == 1,
    ensures
        decimal(digits_value(s)) == s,
        s[0] != '0' ==> digits_value(s) > 0,
    decreases s.len(),
{
    let head = s.drop_last();
    if s.len() == 1 {
        assert(digits_value(head) == 0);
        assert(decimal(digits_value(s)) == s);
    } else {
        assert(head[0] == s[0]);
        assert forall|i: int| 0 <= i < head.len() implies '0' <= #[trigger] head[i] <= '9' by {
            assert(head[i] == s[i]);
        }
        lemma_digits_are_decimal(head);
        assert('0' <= s[s.len() - 1] <= '9');
        assert(digits_value(s) / 10 == digits_value(head));
        assert(s == head.push(s.last()));
    }
}

/// Reading a written number gives it back, as long as it is in range.
pub proof fn law_written_number_reads_back(n: nat, max: nat)
    requires
        n <= max,
    ensures
        unsigned_value(decimal(n), max) == Some(n),
{
    lemma_decimal(n);
    assert(decimal(n)[0] != '+');
}

/// A longer run of digits stands for no smaller number.
proof fn lemma_digits_value_grows(s: Seq<char>, i: int)
    requires
        0 <= i <= s.len(),
        all_digits(s),
    ensures
        digits_value(s.take(i)) <= digits_value(s),
    decreases s.len(),
{
    if i < s.len() {
        assert(s.drop_last().take(i) == s.take(i));
        lemma_digits_value_grows(s.drop_last(), i);
    } else {
        assert(s.take(i) == s);
    }
}

/// One digit as text.
fn digit_text(d: usize) -> (text: &'static str)
    requires
        d < 10,
    ensures
        text@ == seq![digit_char(d as nat)],
{
    proof {
        reveal_strlit("0");
        reveal_strlit("1");
        reveal_strlit("2");
        reveal_strlit("3");
        reveal_strlit("4");
        reveal_strlit("5");
        reveal_strlit("6");
        reveal_strlit("7");
        reveal_strlit("8");
        reveal_strlit("9");
    }
    match d {
        0 => "0",
        1 => "1",
        2 => "2",
        3 => "3",
        4 => "4",
        5 => "5",
        6 => "6",
        7 => "7",
        8 => "8",
        _ => "9",
    }
}

/// The decimal text of `n`.
pub fn decimal_text(n: usize) -> (text: String)
    ensures
        text@ == decimal(n as nat),
    decreases n,
{
    if n < 10 {
        digit_text(n).to_owned()
    } else {
        let mut text = decimal_text(n / 10);
        text.append(digit_text(n % 10));
        text
    }
}

/// Reads a number of at most `max`.
pub fn parse_unsigned(chars: &Vec<char>, max: usize) -> (value: Option<usize>)
    ensures
        match value {
            Some(n) => unsigned_value(chars@, max as nat) == Some(n as nat),
            None => unsigned_value(chars@, max as nat) is None,
        },
{
    let start: usize = if chars.len() > 0 && chars[0] == '+' {
        1
    } else {
        0
    };
    let ghost digits = without_plus(chars@);
    assert(digits == chars@.skip(start as int));
    if start == chars.len() {
        return None;
    }
    let mut value: u128 = 0;
    let mut i: usize = start;
    assert(digits.take(0) == Seq::<char>::empty());
    while i < chars.len()
        invariant
            start <= i <= chars@.len(),
            digits == chars@.skip(start as int),
            digits == without_plus(chars@),
            all_digits(digits.take(i - start)),
            value == digits_value(digits.take(i - start)),
            value <= max,
        decreases chars@.len() - i,
    {
        let c = chars[i];
        let ghost read = digits.take(i - start);
        let ghost more = digits.take(i + 1 - start);
        assert(digits[i - start] == c);
        if c < '0' || '9' < c {
            return None;
        }
        assert(more.drop_last() == read);
        assert forall|j: int| 0 <= j < more.len() implies '0' <= #[trigger] more[j] <= '9' by {
            if j < read.len() {
                assert(more[j] == read[j]);
            }
        }
        value = value * 10 + ((c as u32) - ('0' as u32)) as u128;
        assert(value == digits_value(more));
        if value > max as u128 {
            proof {
                if all_digits(digits) {
                    lemma_digits_value_grows(digits, i + 1 - start);
                }
            }
            return None;
        }
        i = i + 1;
    }
    assert(digits.take(i - start) == digits);
    Some(value as usize)
}

/// Digits count by their position: those in front of `b` count ten times for each digit of `b`.
pub proof fn law_digits_count_by_position(a: Seq<char>, b: Seq<char>, c: char)
    requires
        '0' <= c <= '9',
    ensures
        digits_value(Seq::<char>::empty()) == 0,
        digits_value(seq![c]) == c as int - '0' as int,
        digits_value(a + b) == digits_value(a) * pow(10, b.len()) + digits_value(b),
    decreases b.len(),
{
    assert(seq![c].drop_last() == Seq::<char>::empty());
    assert(seq![c].last() == c);
    assert(digits_value(Seq::<char>::empty()) == 0);
    lemma_pow0(10);
    if b.len() == 0 {
        assert(a + b == a);
        assert(digits_value(a) * 1 == digits_value(a));
    } else {
        let init = b.drop_last();
        law_digits_count_by_position(a, init, c);
        assert((a + b).drop_last() == a + init);
        assert((a + b).last() == b.last());
        let v = digits_value(a) as int;
        let p = pow(10, init.len());
        assert(pow(10, b.len()) == 10 * p) by {
            reveal(pow);
        }
        assert(10 * (v * p) == v * (10 * p)) by (nonlinear_arith);
    }
}

/// A number is one or more ASCII digits, perhaps with one plus sign in front of them, whose value
/// is in range; nothing else is one.
pub proof fn law_number_is_digits_in_range(s: Seq<char>, max: nat, n: nat)
    ensures
        unsigned_value(s, max) == Some(n) <==> {
            &&& n <= max
            &&& {
                ||| {
                    &&& s.len() > 0
                    &&& forall|i: int| 0 <= i < s.len() ==> '0' <= #[trigger] s[i] <= '9'
                    &&& digits_value(s) == n
                }
                ||| {
                    &&& s.len() > 1
                    &&& s[0] == '+'
                    &&& forall|i: int| 1 <= i < s.len() ==> '0' <= #[trigger] s[i] <= '9'
                    &&& digits_value(s.skip(1)) == n
                }
            }
        },
{
    let rest = s.skip(1);
    if s.len() > 0 && s[0] == '+' {
        assert(!('0' <= s[0] <= '9'));
        if all_digits(rest) {
            assert forall|i: int| 1 <= i < s.len() implies '0' <= #[trigger] s[i] <= '9' by {
                assert(rest[i - 1] == s[i]);
            }
        }
    }
}

/// The decimal text of a number is the only run of digits without a leading zero that stands for
/// it.
pub proof fn law_decimal_text_is_the_only_one(s: Seq<char>, n: nat)
    ensures
        decimal(n) == s <==> {
            &&& s.len() > 0
            &&& forall|i: int| 0 <= i < s.len() ==> '0' <= #[trigger] s[i] <= '9'
            &&& s.len() > 1 ==> s[0] != '0'
            &&& digits_value(s) == n
        },
{
    lemma_decimal(n);
    if s.len() > 0 && all_digits(s) && (s[0] != '0' || s.len() == 1) {
        lemma_digits_are_decimal(s);
    }
}

} // verus!
