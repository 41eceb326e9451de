//! Counters as text: the decimal numeral of a number.

use vstd::prelude::*;
use vstd::string::*;
use vstd::utf8::{encode_utf8, is_ascii_chars, is_ascii_chars_encode_utf8};

verus! {

/// The character of a decimal digit.
pub open spec fn digit(d: nat) -> char {
    if d == 0 {
        '0'
    } else if d == 1 {
        '1'
    } else if d == 2 {
        '2'
    } else if d == 3 {
        '3'
    } else if d == 4 {
        '4'
    } else if d == 5 {
        '5'
    } else if d == 6 {
        '6'
    } else if d == 7 {
        '7'
    } else if d == 8 {
        '8'
    } else {
        '9'
    }
}

/// The decimal numeral of `n`: its digits from the most significant down,
/// without leading zeros; the numeral of zero is "0".
pub open spec fn decimal(n: nat) -> Seq<char>
    decreases n,
{
    if n < 10 {
        seq![digit(n)]
    } else {
        decimal(n / 10).push(digit(n % 10))
    }
}

/// A numeral has one digit exactly when the number is below ten.
pub proof fn lemma_decimal_len(n: nat)
    ensures
        decimal(n).len() >= 1,
        n < 10 <==> decimal(n).len() == 1,
    decreases n,
{
    if n >= 10 {
        lemma_decimal_len(n / 10);
    }
}

/// Different numbers have different numerals.
pub proof fn lemma_decimal_injective(a: nat, b: nat)
    requires
        decimal(a) == decimal(b),
    ensures
        a == b,
    decreases a,
{
    lemma_decimal_len(a);
    lemma_decimal_len(b);
    if a < 10 {
        assert(decimal(a)[0] == digit(a));
        assert(decimal(b)[0] == digit(b));
    } else {
        let x = decimal(a / 10);
        let y = decimal(b / 10);
        assert(decimal(a).last() == digit(a % 10));
        assert(decimal(b).last() == digit(b % 10));
        assert(decimal(a).drop_last() =~= x);
        assert(decimal(b).drop_last() =~= y);
        lemma_decimal_injective(a / 10, b / 10);
        assert(a == 10 * (a / 10) + a % 10);
        assert(b == 10 * (b / 10) + b % 10);
    }
}

/// One followed by `d` zeros.
pub open spec fn power_of_ten(d: nat) -> nat
    decreases d,
{
    if d == 0 {
        1
    } else {
        10 * power_of_ten((d - 1) as nat)
    }
}

/// A number below the `d`-th power of ten has a numeral of at most `d` digits.
pub proof fn lemma_decimal_len_bound(n: nat, d: nat)
    requires
        d >= 1,
        n < power_of_ten(d),
    ensures
        decimal(n).len() <= d,
    decreases d,
{
    if n >= 10 {
        assert(power_of_ten(1) == 10) by {
            reveal_with_fuel(power_of_ten, 2);
        }
        assert(d >= 2);
        lemma_decimal_len_bound(n / 10, (d - 1) as nat);
    }
}

/// A numeral is made of digits, which are plain characters.
pub proof fn lemma_decimal_is_ascii(n: nat)
    ensures
        is_ascii_chars(decimal(n)),
    decreases n,
{
    if n >= 10 {
        lemma_decimal_is_ascii(n / 10);
        let head = decimal(n / 10);
        assert forall|i: int| 0 <= i < decimal(n).len() implies '\0' <= #[trigger] decimal(n)[i]
            <= '\u{7f}' by {
            if i < head.len() {
                assert(decimal(n)[i] == head[i]);
            }
        }
    }
}

/// The numeral of a count takes no more than 39 bytes as text.
pub proof fn lemma_decimal_is_short(n: u128)
    ensures
        encode_utf8(decimal(n as nat)).len() <= 39,
{
    assert(n < power_of_ten(39)) by {
        reveal_with_fuel(power_of_ten, 40);
    }
    lemma_decimal_len_bound(n as nat, 39);
    lemma_decimal_is_ascii(n as nat);
    is_ascii_chars_encode_utf8(decimal(n as nat));
}

/// The text of one decimal digit.
fn digit_text(d: u8) -> (s: &'static str)
    requires
        d < 10,
    ensures
        s@ == seq![digit(d as nat)],
{
    proof {
        reveal_strlit("0");
        reveal_strlit("1");
        reveal_strlit("2");
        reveal_strlit("3");
        reveal_strlit("4");
        reveal_strlit("5");
        reveal_strlit("6");
        reveal_strlit("7");
        reveal_strlit("8");
        reveal_strlit("9");
    }
    let s: &'static str = if d == 0 {
        "0"
    } else if d == 1 {
        "1"
    } else if d == 2 {
        "2"
    } else if d == 3 {
        "3"
    } else if d == 4 {
        "4"
    } else if d == 5 {
        "5"
    } else if d == 6 {
        "6"
    } else if d == 7 {
        "7"
    } else if d == 8 {
        "8"
    } else {
        "9"
    };
    assert(s@ =~= seq![digit(d as nat)]);
    s
}

/// Writes a number as its decimal numeral.
pub fn decimal_text(n: u128) -> (s: String)
    ensures
        s@ == decimal(n as nat),
    decreases n,
{
    if n < 10 {
        String::from_str(digit_text(n as u8))
    } else {
        let mut s = decimal_text(n / 10);
        s.append(digit_text((n % 10) as u8));
        assert(s@ =~= decimal((n / 10) as nat).push(digit((n % 10) as nat)));
        s
    }
}

} // verus!
