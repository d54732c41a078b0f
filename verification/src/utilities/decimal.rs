//! Decimal notation of integers, for building request URLs.

use vstd::prelude::*;
use vstd::string::StringExecFns;

verus! {

/// The character of a decimal digit.
pub open spec fn digit_char(d: int) -> char {
    if d == 0 {
        '0'
    } else if d == 1 {
        '1'
    } else if d == 2 {
        '2'
    } else if d == 3 {
        '3'
    } else if d == 4 {
        '4'
    } else if d == 5 {
        '5'
    } else if d == 6 {
        '6'
    } else if d == 7 {
        '7'
    } else if d == 8 {
        '8'
    } else {
        '9'
    }
}

/// The decimal digits of a natural number, most significant first, without
/// leading zeros ("0" for zero).
pub open spec fn decimal_digits(n: nat) -> Seq<char>
    decreases n,
{
    if n < 10 {
        seq![digit_char(n as int)]
    } else {
        decimal_digits(n / 10).push(digit_char((n % 10) as int))
    }
}

/// Decimal notation of an integer, with a leading '-' when negative.
pub open spec fn decimal(n: int) -> Seq<char> {
    if n < 0 {
        seq!['-'] + decimal_digits((-n) as nat)
    } else {
        decimal_digits(n as nat)
    }
}

/// Whether a character is one of the digits '0' to '9'.
pub open spec fn is_digit(c: char) -> bool {
    '0' <= c <= '9'
}

/// The number that a string of decimal digits denotes, most significant
/// digit first.
pub open spec fn digits_value(s: Seq<char>) -> int
    decreases s.len(),
{
    if s.len() == 0 {
        0
    } else {
        digits_value(s.drop_last()) * 10 + (s.last() as int - '0' as int)
    }
}

/// The character of a digit is that digit's place after '0'.
proof fn lemma_digit_char(d: int)
    requires
        0 <= d < 10,
    ensures
        digit_char(d) as int == '0' as int + d,
        is_digit(digit_char(d)),
{
    assert('0' as int == 48 && '1' as int == 49 && '2' as int == 50 && '3' as int == 51 && '4' as int
        == 52 && '5' as int == 53 && '6' as int == 54 && '7' as int == 55 && '8' as int == 56
        && '9' as int == 57);
}

/// The digits of a natural number are decimal digits, one at least, with no
/// leading zero unless the number is zero, and they denote the number.
pub proof fn lemma_decimal_digits(n: nat)
    ensures
        decimal_digits(n).len() >= 1,
        forall|i: int| 0 <= i < decimal_digits(n).len() ==> is_digit(#[trigger] decimal_digits(n)[i]),
        n > 0 ==> decimal_digits(n)[0] != '0',
        digits_value(decimal_digits(n)) == n,
    decreases n,
{
    if n < 10 {
        lemma_digit_char(n as int);
        let s = decimal_digits(n);
        assert(s.drop_last() =~= Seq::<char>::empty());
        assert(digits_value(s.drop_last()) == 0);
        assert(s.last() == digit_char(n as int));
    } else {
        lemma_digit_char((n % 10) as int);
        lemma_decimal_digits(n / 10);
        let s = decimal_digits(n);
        assert(s.drop_last() =~= decimal_digits(n / 10));
        assert(s.last() == digit_char((n % 10) as int));
        assert((n / 10) * 10 + n % 10 == n) by {
            vstd::arithmetic::div_mod::lemma_fundamental_div_mod(n as int, 10);
        }
        assert(s[0] == decimal_digits(n / 10)[0]);
        assert forall|i: int| 0 <= i < s.len() implies is_digit(#[trigger] s[i]) by {
            if i < s.len() - 1 {
                assert(s[i] == decimal_digits(n / 10)[i]);
            }
        }
    }
}

/// The decimal notation of an integer is a '-' followed by the digits of its
/// magnitude when it is negative, and its digits alone otherwise; either way
/// the digits denote the magnitude.
pub proof fn lemma_decimal(n: int)
    ensures
        n < 0 ==> decimal(n)[0] == '-' && digits_value(decimal(n).drop_first()) == -n
            && forall|i: int| 1 <= i < decimal(n).len() ==> is_digit(#[trigger] decimal(n)[i]),
        n >= 0 ==> digits_value(decimal(n)) == n && forall|i: int|
            0 <= i < decimal(n).len() ==> is_digit(#[trigger] decimal(n)[i]),
        decimal(n).len() >= 1,
{
    if n < 0 {
        lemma_decimal_digits((-n) as nat);
        let d = decimal_digits((-n) as nat);
        assert(decimal(n).drop_first() =~= d);
        assert forall|i: int| 1 <= i < decimal(n).len() implies is_digit(#[trigger] decimal(n)[i]) by {
            assert(decimal(n)[i] == d[i - 1]);
        }
    } else {
        lemma_decimal_digits(n as nat);
    }
}

/// The one-character string of a decimal digit.
fn digit_str(d: u64) -> (s: &'static str)
    requires
        d < 10,
    ensures
        s@ == seq![digit_char(d as int)],
{
    proof {
        reveal_strlit("0");
        reveal_strlit("1");
        reveal_strlit("2");
        reveal_strlit("3");
        reveal_strlit("4");
        reveal_strlit("5");
        reveal_strlit("6");
        reveal_strlit("7");
        reveal_strlit("8");
        reveal_strlit("9");
    }
    let s = match d {
        0 => "0",
        1 => "1",
        2 => "2",
        3 => "3",
        4 => "4",
        5 => "5",
        6 => "6",
        7 => "7",
        8 => "8",
        _ => "9",
    };
    assert(s@ =~= seq![digit_char(d as int)]);
    s
}

/// Appends the decimal notation of `n` to `out`.
pub fn push_decimal(out: &mut String, n: i64)
    ensures
        final(out)@ == old(out)@ + decimal(n as int),
{
    proof {
        reveal_strlit("-");
    }
    let magnitude: u64 = if n < 0 {
        (0i128 - (n as i128)) as u64
    } else {
        n as u64
    };
    if n < 0 {
        out.append("-");
    }
    let ghost prefix = out@;
    let mut rem = magnitude;
    let mut low_digits: Vec<u64> = Vec::new();
    while rem >= 10
        invariant
            decimal_digits(magnitude as nat) == decimal_digits(rem as nat) + low_digits@.reverse().map_values(
                |d: u64| digit_char(d as int),
            ),
            forall|i: int| 0 <= i < low_digits@.len() ==> #[trigger] low_digits@[i] < 10,
        decreases rem,
    {
        let ghost before = low_digits@;
        low_digits.push(rem % 10);
        proof {
            assert(low_digits@.reverse() =~= seq![rem % 10] + before.reverse());
            assert(low_digits@.reverse().map_values(|d: u64| digit_char(d as int)) =~= seq![
                digit_char((rem % 10) as int),
            ] + before.reverse().map_values(|d: u64| digit_char(d as int)));
        }
        rem = rem / 10;
    }
    out.append(digit_str(rem));
    let mut i = low_digits.len();
    while i > 0
        invariant
            i <= low_digits@.len(),
            forall|j: int| 0 <= j < low_digits@.len() ==> #[trigger] low_digits@[j] < 10,
            out@ == prefix + seq![digit_char(rem as int)] + low_digits@.subrange(
                i as int,
                low_digits@.len() as int,
            ).reverse().map_values(|d: u64| digit_char(d as int)),
        decreases i,
    {
        i = i - 1;
        out.append(digit_str(low_digits[i]));
        proof {
            assert(low_digits@.subrange(i as int, low_digits@.len() as int).reverse()
                =~= low_digits@.subrange(i + 1, low_digits@.len() as int).reverse().push(
                low_digits@[i as int],
            ));
        }
    }
    proof {
        assert(low_digits@.subrange(0, low_digits@.len() as int) =~= low_digits@);
        assert(decimal_digits(rem as nat) == seq![digit_char(rem as int)]);
        assert(out@ =~= prefix + decimal_digits(magnitude as nat));
    }
}

} // verus!
