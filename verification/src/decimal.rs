//! Numbers written in decimal digits.

use vstd::prelude::*;
use vstd::string::StringExecFns;

verus! {

/// The character of a decimal digit.
pub open spec fn digit(value: nat) -> char {
    if value == 0 {
        '0'
    } else if value == 1 {
        '1'
    } else if value == 2 {
        '2'
    } else if value == 3 {
        '3'
    } else if value == 4 {
        '4'
    } else if value == 5 {
        '5'
    } else if value == 6 {
        '6'
    } else if value == 7 {
        '7'
    } else if value == 8 {
        '8'
    } else {
        '9'
    }
}

/// The value of a decimal digit, if the character is one.
pub open spec fn digit_value(character: char) -> Option<nat> {
    if character == '0' {
        Some(0)
    } else if character == '1' {
        Some(1)
    } else if character == '2' {
        Some(2)
    } else if character == '3' {
        Some(3)
    } else if character == '4' {
        Some(4)
    } else if character == '5' {
        Some(5)
    } else if character == '6' {
        Some(6)
    } else if character == '7' {
        Some(7)
    } else if character == '8' {
        Some(8)
    } else if character == '9' {
        Some(9)
    } else {
        None
    }
}

/// A number in decimal digits, without leading zeros.
pub open spec fn decimal(value: nat) -> Seq<char>
    decreases value,
{
    if value < 10 {
        seq![digit(value)]
    } else {
        decimal(value / 10).push(digit(value % 10))
    }
}

/// Whether `digits` is a number in decimal digits without leading zeros.
pub open spec fn numeral(digits: Seq<char>) -> bool {
    &&& digits.len() > 0
    &&& forall|i: int| 0 <= i < digits.len() ==> digit_value(#[trigger] digits[i]).is_some()
    &&& digits.len() > 1 ==> digits[0] != '0'
}

/// The number that a row of decimal digits stands for, if it is at most
/// `limit`.
pub open spec fn number_within(digits: Seq<char>, limit: nat) -> Option<nat>
    decreases digits.len(),
{
    if digits.len() == 0 {
        Some(0)
    } else {
        match (number_within(digits.drop_last(), limit), digit_value(digits.last())) {
            (Some(front), Some(unit)) => if front * 10 + unit <= limit {
                Some(front * 10 + unit)
            } else {
                None
            },
            _ => None,
        }
    }
}

/// The text of one decimal digit.
fn digit_text(value: u128) -> (text: &'static str)
    requires
        value < 10,
    ensures
        text@ == seq![digit(value as nat)],
{
    proof {
        reveal_strlit("0");
        reveal_strlit("1");
        reveal_strlit("2");
        reveal_strlit("3");
        reveal_strlit("4");
        reveal_strlit("5");
        reveal_strlit("6");
        reveal_strlit("7");
        reveal_strlit("8");
        reveal_strlit("9");
    }
    let text: &'static str = if value == 0 {
        "0"
    } else if value == 1 {
        "1"
    } else if value == 2 {
        "2"
    } else if value == 3 {
        "3"
    } else if value == 4 {
        "4"
    } else if value == 5 {
        "5"
    } else if value == 6 {
        "6"
    } else if value == 7 {
        "7"
    } else if value == 8 {
        "8"
    } else {
        "9"
    };
    assert(text@ =~= seq![digit(value as nat)]);
    text
}

/// Appends a number in decimal digits to a text.
pub fn push_decimal(text: &mut String, value: u128)
    ensures
        final(text)@ == old(text)@ + decimal(value as nat),
    decreases value,
{
    if value >= 10 {
        push_decimal(text, value / 10);
        text.append(digit_text(value % 10));
        assert(text@ =~= old(text)@ + decimal(value as nat));
    } else {
        text.append(digit_text(value));
    }
}

/// Computes [`digit_value`].
pub fn read_digit(character: char) -> (value: Option<usize>)
    ensures
        match value {
            Some(unit) => digit_value(character) == Some(unit as nat),
            None => digit_value(character).is_none(),
        },
{
    if character == '0' {
        Some(0)
    } else if character == '1' {
        Some(1)
    } else if character == '2' {
        Some(2)
    } else if character == '3' {
        Some(3)
    } else if character == '4' {
        Some(4)
    } else if character == '5' {
        Some(5)
    } else if character == '6' {
        Some(6)
    } else if character == '7' {
        Some(7)
    } else if character == '8' {
        Some(8)
    } else if character == '9' {
        Some(9)
    } else {
        None
    }
}

/// A number written in decimal digits is a numeral, and reads back as
/// itself.
pub proof fn lemma_decimal_reads_back(value: nat, limit: nat)
    requires
        value <= limit,
    ensures
        numeral(decimal(value)),
        number_within(decimal(value), limit) == Some(value),
        value > 0 ==> decimal(value)[0] != '0',
    decreases value,
{
    let digits = decimal(value);
    if value < 10 {
        assert(digits.drop_last() =~= Seq::<char>::empty());
        assert(number_within(Seq::<char>::empty(), limit) == Some(0nat));
        assert(digits.last() == digit(value));
        assert(digit_value(digit(value)) == Some(value));
    } else {
        let front = decimal(value / 10);
        lemma_decimal_reads_back(value / 10, limit);
        assert(digits.drop_last() =~= front);
        assert(digits.last() == digit(value % 10));
        assert(digit_value(digit(value % 10)) == Some(value % 10));
        assert((value / 10) * 10 + value % 10 == value);
        assert(digits[0] == front[0]);
        assert forall|i: int| 0 <= i < digits.len() implies digit_value(
            #[trigger] digits[i],
        ).is_some() by {
            if i < front.len() {
                assert(digits[i] == front[i]);
            }
        }
    }
}

/// A numeral is the decimal writing of the number it stands for.
pub proof fn lemma_numeral_is_decimal(digits: Seq<char>, limit: nat)
    requires
        numeral(digits),
        number_within(digits, limit).is_some(),
    ensures
        decimal(number_within(digits, limit).unwrap()) == digits,
        digits[0] != '0' ==> number_within(digits, limit).unwrap() > 0,
    decreases digits.len(),
{
    let front = digits.drop_last();
    let unit = digit_value(digits.last()).unwrap();
    assert(digit(unit) == digits.last());
    if digits.len() == 1 {
        assert(front =~= Seq::<char>::empty());
        assert(number_within(front, limit) == Some(0nat));
        assert(decimal(unit) =~= digits);
    } else {
        assert(front[0] == digits[0]);
        assert forall|i: int| 0 <= i < front.len() implies digit_value(
            #[trigger] front[i],
        ).is_some() by {
            assert(front[i] == digits[i]);
        }
        lemma_numeral_is_decimal(front, limit);
        let value = number_within(digits, limit).unwrap();
        let head = number_within(front, limit).unwrap();
        assert(value == head * 10 + unit);
        assert(head > 0);
        assert(value / 10 == head && value % 10 == unit);
        assert(decimal(value) =~= front.push(digits.last()));
        assert(front.push(digits.last()) =~= digits);
    }
}

/// Digits that stand for too large a number still do with more digits
/// behind them.
pub proof fn lemma_too_large_stays(digits: Seq<char>, shorter: int, limit: nat)
    requires
        0 <= shorter <= digits.len(),
        number_within(digits.take(shorter), limit).is_none(),
    ensures
        number_within(digits, limit).is_none(),
    decreases digits.len() - shorter,
{
    if shorter < digits.len() {
        assert(digits.take(shorter + 1).drop_last() =~= digits.take(shorter));
        lemma_too_large_stays(digits, shorter + 1, limit);
    } else {
        assert(digits.take(shorter) =~= digits);
    }
}

} // verus!
