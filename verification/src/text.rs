//! Numbers in words of decimal digits.
use vstd::prelude::*;

verus! {

/// The character for one decimal digit.
pub open spec fn digit(value: nat) -> char {
    (('0' as nat) + value) as char
}

/// A number in decimal notation, without leading zeros.
pub open spec fn decimal(value: nat) -> Seq<char>
    decreases value,
{
    if value < 10 {
        seq![digit(value)]
    } else {
        decimal(value / 10).push(digit(value % 10))
    }
}

/// The text of one decimal digit.
fn digit_text(value: u64) -> (text: &'static str)
    requires
        value < 10,
    ensures
        text@ == seq![digit(value as nat)],
{
    proof {
        reveal_strlit("0");
        reveal_strlit("1");
        reveal_strlit("2");
        reveal_strlit("3");
        reveal_strlit("4");
        reveal_strlit("5");
        reveal_strlit("6");
        reveal_strlit("7");
        reveal_strlit("8");
        reveal_strlit("9");
    }
    match value {
        0 => "0",
        1 => "1",
        2 => "2",
        3 => "3",
        4 => "4",
        5 => "5",
        6 => "6",
        7 => "7",
        8 => "8",
        _ => "9",
    }
}

/// Append a number in decimal notation.
pub fn push_decimal(text: &mut String, value: u64)
    ensures
        final(text)@ == old(text)@ + decimal(value as nat),
    decreases value,
{
    if value < 10 {
        text.append(digit_text(value));
    } else {
        push_decimal(text, value / 10);
        text.append(digit_text(value % 10));
        proof {
            assert(text@ =~= old(text)@ + decimal(value as nat));
        }
    }
}

/// A number in decimal notation, with a leading minus sign where it is negative.
pub open spec fn signed_decimal(value: int) -> Seq<char> {
    if value < 0 {
        "-"@ + decimal((-value) as nat)
    } else {
        decimal(value as nat)
    }
}

/// Append a signed number in decimal notation.
pub fn push_signed_decimal(text: &mut String, value: i64)
    ensures
        final(text)@ == old(text)@ + signed_decimal(value as int),
{
    if value < 0 {
        text.append("-");
        let magnitude: u64 = (0i128 - value as i128) as u64;
        push_decimal(text, magnitude);
    } else {
        push_decimal(text, value as u64);
    }
    proof {
        assert(text@ =~= old(text)@ + signed_decimal(value as int));
    }
}

/// Every character of a decimal numeral is a digit.
pub proof fn decimal_holds_digits(value: nat)
    ensures
        decimal(value).len() > 0,
        forall|i: int| 0 <= i < decimal(value).len() ==> '0' <= #[trigger] decimal(value)[i] <= '9',
    decreases value,
{
    if value >= 10 {
        decimal_holds_digits(value / 10);
    }
}

/// Two numbers with the same decimal numeral are equal.
pub proof fn decimal_is_injective(left: nat, right: nat)
    requires
        decimal(left) == decimal(right),
    ensures
        left == right,
    decreases left,
{
    decimal_holds_digits(left / 10);
    decimal_holds_digits(right / 10);
    assert(decimal(left).last() == digit(left % 10));
    assert(decimal(right).last() == digit(right % 10));
    if left >= 10 && right >= 10 {
        assert(decimal(left).drop_last() =~= decimal(left / 10));
        assert(decimal(right).drop_last() =~= decimal(right / 10));
        decimal_is_injective(left / 10, right / 10);
    } else {
        assert(decimal(left).len() == decimal(right).len());
    }
}

/// The number that a text of decimal digits stands for.
pub open spec fn numeral(text: Seq<char>) -> int
    decreases text.len(),
{
    if text.len() == 0 {
        0
    } else {
        10 * numeral(text.drop_last()) + (text.last() as int - '0' as int)
    }
}

/// A decimal numeral stands for its number, and has no zero in front but where the number is zero.
pub proof fn decimals_stand_for_their_number(value: nat)
    ensures
        numeral(decimal(value)) == value,
        value > 0 ==> decimal(value)[0] != '0',
        value == 0 ==> decimal(value).len() == 1,
    decreases value,
{
    decimal_holds_digits(value);
    if value < 10 {
        assert(decimal(value).drop_last() =~= Seq::empty());
        assert(numeral(Seq::empty()) == 0);
        assert(decimal(value).last() == digit(value));
    } else {
        decimals_stand_for_their_number(value / 10);
        assert(decimal(value).drop_last() =~= decimal(value / 10));
        assert(decimal(value).last() == digit(value % 10));
    }
}

/// A signed numeral starts with a minus sign exactly where its number is negative, and behind the sign
/// stands the number without it.
pub proof fn signed_decimals_stand_for_their_number(value: int)
    ensures
        signed_decimal(value)[0] == '-' <==> value < 0,
        value < 0 ==> numeral(signed_decimal(value).skip(1)) == -value,
        value >= 0 ==> numeral(signed_decimal(value)) == value,
{
    reveal_strlit("-");
    if value < 0 {
        decimals_stand_for_their_number((-value) as nat);
        assert(signed_decimal(value).skip(1) =~= decimal((-value) as nat));
    } else {
        decimals_stand_for_their_number(value as nat);
        decimal_holds_digits(value as nat);
    }
}

} // verus!
