//! Numbers in decimal text.

use vstd::prelude::*;
use vstd::utf8::*;

verus! {

/// The character of a decimal digit.
pub open spec fn digit(value: nat) -> char {
    if value == 0 {
        '0'
    } else if value == 1 {
        '1'
    } else if value == 2 {
        '2'
    } else if value == 3 {
        '3'
    } else if value == 4 {
        '4'
    } else if value == 5 {
        '5'
    } else if value == 6 {
        '6'
    } else if value == 7 {
        '7'
    } else if value == 8 {
        '8'
    } else {
        '9'
    }
}

fn push_digit(text: &mut String, value: u128)
    requires
        value < 10,
    ensures
        final(text)@ == old(text)@.push(digit(value as nat)),
{
    let ghost start = text@;
    if value == 0 {
        text.append("0");
        proof {
            reveal_strlit("0");
        }
    } else if value == 1 {
        text.append("1");
        proof {
            reveal_strlit("1");
        }
    } else if value == 2 {
        text.append("2");
        proof {
            reveal_strlit("2");
        }
    } else if value == 3 {
        text.append("3");
        proof {
            reveal_strlit("3");
        }
    } else if value == 4 {
        text.append("4");
        proof {
            reveal_strlit("4");
        }
    } else if value == 5 {
        text.append("5");
        proof {
            reveal_strlit("5");
        }
    } else if value == 6 {
        text.append("6");
        proof {
            reveal_strlit("6");
        }
    } else if value == 7 {
        text.append("7");
        proof {
            reveal_strlit("7");
        }
    } else if value == 8 {
        text.append("8");
        proof {
            reveal_strlit("8");
        }
    } else {
        text.append("9");
        proof {
            reveal_strlit("9");
        }
    }
    proof {
        assert(text@ =~= start.push(digit(value as nat)));
    }
}

/// `value` in decimal, without leading zeros.
pub open spec fn decimal(value: nat) -> Seq<char>
    decreases value,
{
    if value < 10 {
        seq![digit(value)]
    } else {
        decimal(value / 10).push(digit(value % 10))
    }
}

/// The last `width` decimal digits of `value`, with leading zeros.
pub open spec fn padded(value: nat, width: nat) -> Seq<char>
    decreases width,
{
    if width == 0 {
        Seq::empty()
    } else {
        padded(value / 10, (width - 1) as nat).push(digit(value % 10))
    }
}

/// Appends `value` in decimal.
pub fn push_decimal(text: &mut String, value: u128)
    ensures
        final(text)@ == old(text)@ + decimal(value as nat),
    decreases value,
{
    let ghost start = text@;
    if value >= 10 {
        push_decimal(text, value / 10);
    }
    push_digit(text, value % 10);
    proof {
        assert(text@ =~= start + decimal(value as nat));
    }
}

/// Appends the last `width` decimal digits of `value`, with leading zeros.
pub fn push_padded(text: &mut String, value: u64, width: usize)
    ensures
        final(text)@ == old(text)@ + padded(value as nat, width as nat),
    decreases width,
{
    let ghost start = text@;
    if width > 0 {
        push_padded(text, value / 10, width - 1);
        push_digit(text, (value % 10) as u128);
    }
    proof {
        assert(text@ =~= start + padded(value as nat, width as nat));
    }
}

/// Whether `byte` is a decimal digit in ASCII.
pub open spec fn is_digit(byte: u8) -> bool {
    48 <= byte <= 57
}

/// The number that decimal digits spell.
pub open spec fn digits_value(digits: Seq<u8>) -> nat
    decreases digits.len(),
{
    if digits.len() == 0 {
        0
    } else {
        10 * digits_value(digits.drop_last()) + (digits.last() - 48) as nat
    }
}

/// The digits of a number in text: all of it, or what follows a leading `+`.
pub open spec fn unsigned_digits(text: Seq<u8>) -> Seq<u8> {
    if text.len() > 0 && text[0] == 43 {
        text.skip(1)
    } else {
        text
    }
}

/// The number that `text` spells: decimal digits, after a `+` or not, for a number up
/// to `max`.
pub open spec fn parsed(text: Seq<u8>, max: nat) -> Option<nat> {
    let digits = unsigned_digits(text);
    if digits.len() > 0 && (forall|i: int| 0 <= i < digits.len() ==> is_digit(digits[i]))
        && digits_value(digits) <= max {
        Some(digits_value(digits))
    } else {
        None
    }
}

proof fn lemma_digits_grow(digits: Seq<u8>, at: int)
    requires
        0 <= at <= digits.len(),
        forall|i: int| 0 <= i < digits.len() ==> is_digit(digits[i]),
    ensures
        digits_value(digits.take(at)) <= digits_value(digits),
    decreases digits.len() - at,
{
    if at < digits.len() {
        lemma_digits_grow(digits, at + 1);
        assert(digits.take(at + 1).drop_last() =~= digits.take(at));
        assert(digits.take(at + 1).last() == digits[at]);
    } else {
        assert(digits.take(at) =~= digits);
    }
}

/// Reads a decimal number up to `max`.
pub fn parse_decimal(text: &[u8], max: u128) -> (value: Option<u128>)
    ensures
        match value {
            Some(value) => parsed(text@, max as nat) == Some(value as nat),
            None => parsed(text@, max as nat) is None,
        },
{
    let start: usize = if text.len() > 0 && text[0] == 43 {
        1
    } else {
        0
    };
    let ghost digits = unsigned_digits(text@);
    proof {
        assert(digits =~= text@.skip(start as int));
    }
    if text.len() == start {
        return None;
    }
    let mut value: u128 = 0;
    let mut at: usize = start;
    proof {
        assert(digits.take(0) =~= Seq::empty());
    }
    while at < text.len()
        invariant
            start <= at <= text.len(),
            start <= 1,
            digits == unsigned_digits(text@),
            digits =~= text@.skip(start as int),
            value <= max,
            value == digits_value(digits.take(at - start)),
            forall|i: int| 0 <= i < at - start ==> is_digit(digits[i]),
        decreases text.len() - at,
    {
        let byte: u8 = text[at];
        proof {
            assert(byte == digits[at - start]);
            assert(digits.take(at + 1 - start).drop_last() =~= digits.take(at - start));
            assert(digits.take(at + 1 - start).last() == byte);
        }
        if byte < 48 || byte > 57 {
            return None;
        }
        let unit: u128 = (byte - 48) as u128;
        if value > max / 10 || unit > max - 10 * value {
            proof {
                if forall|i: int| 0 <= i < digits.len() ==> is_digit(digits[i]) {
                    lemma_digits_grow(digits, at + 1 - start);
                }
            }
            return None;
        }
        value = 10 * value + unit;
        at = at + 1;
    }
    proof {
        assert(digits.take(at - start) =~= digits);
    }
    Some(value)
}

proof fn lemma_decimal_digits(value: nat)
    ensures
        decimal(value).len() > 0,
        forall|i: int|
            0 <= i < decimal(value).len() ==> '0' <= #[trigger] decimal(value)[i] <= '9',
    decreases value,
{
    if value >= 10 {
        lemma_decimal_digits(value / 10);
    }
}

spec fn char_bytes(text: Seq<char>) -> Seq<u8> {
    Seq::new(text.len(), |i: int| text[i] as u8)
}

proof fn lemma_decimal_value(value: nat)
    ensures
        digits_value(char_bytes(decimal(value))) == value,
    decreases value,
{
    let bytes = char_bytes(decimal(value));
    if value < 10 {
        assert(bytes.drop_last() =~= Seq::empty());
        assert(digits_value(bytes.drop_last()) == 0);
        assert(bytes.last() == 48 + value);
    } else {
        lemma_decimal_value(value / 10);
        assert(bytes.drop_last() =~= char_bytes(decimal(value / 10)));
        assert(bytes.last() == digit(value % 10) as u8);
        assert(bytes.last() == 48 + value % 10);
        assert(digits_value(bytes) == 10 * (value / 10) + value % 10);
    }
}

/// A number reads back from its decimal text.
pub proof fn law_decimal_round_trip(value: nat, max: nat)
    requires
        value <= max,
    ensures
        parsed(encode_utf8(decimal(value)), max) == Some(value),
{
    let text = decimal(value);
    lemma_decimal_digits(value);
    assert(is_ascii_chars(text)) by {
        assert forall|i: int| 0 <= i < text.len() implies '\0' <= #[trigger] text[i]
            <= '\u{7f}' by {
            assert('0' <= text[i] <= '9');
        }
    }
    is_ascii_chars_encode_utf8(text);
    let bytes = encode_utf8(text);
    assert(bytes =~= char_bytes(text));
    lemma_decimal_value(value);
    assert forall|i: int| 0 <= i < bytes.len() implies is_digit(bytes[i]) by {
        assert('0' <= text[i] <= '9');
    }
    assert(bytes[0] != 43) by {
        assert(is_digit(bytes[0]));
    }
}

/// Ten to the power of `exponent`.
pub open spec fn power_of_ten(exponent: nat) -> nat
    decreases exponent,
{
    if exponent == 0 {
        1
    } else {
        10 * power_of_ten((exponent - 1) as nat)
    }
}

/// Padded numbers sort as the numbers do: the smaller one has the smaller digit at the
/// first place where they differ.
pub proof fn law_padded_sorts(a: nat, b: nat, width: nat) -> (at: int)
    requires
        a < b < power_of_ten(width),
    ensures
        padded(a, width).len() == width,
        padded(b, width).len() == width,
        0 <= at < width,
        padded(a, width).take(at) == padded(b, width).take(at),
        padded(a, width)[at] < padded(b, width)[at],
    decreases width,
{
    lemma_padded_len(a, width);
    lemma_padded_len(b, width);
    let narrow = (width - 1) as nat;
    lemma_padded_len(a / 10, narrow);
    lemma_padded_len(b / 10, narrow);
    if a / 10 == b / 10 {
        assert(padded(a, width).take(narrow as int) =~= padded(b, width).take(narrow as int));
        narrow as int
    } else {
        let at = law_padded_sorts(a / 10, b / 10, narrow);
        assert(padded(a, width).take(at) =~= padded(a / 10, narrow).take(at));
        assert(padded(b, width).take(at) =~= padded(b / 10, narrow).take(at));
        at
    }
}

proof fn lemma_padded_len(value: nat, width: nat)
    ensures
        padded(value, width).len() == width,
    decreases width,
{
    if width > 0 {
        lemma_padded_len(value / 10, (width - 1) as nat);
    }
}

/// A number is read with or without a plus sign; nothing else than digits is read, and
/// nothing beyond the largest number.
pub proof fn law_only_digits_are_read(text: Seq<u8>, max: nat, i: int)
    requires
        text.len() > 0,
        text[0] != 43,
    ensures
        parsed(seq![43u8] + text, max) == parsed(text, max),
        parsed(Seq::empty(), max) is None,
        parsed(seq![43u8], max) is None,
        0 <= i < text.len() && !(48 <= text[i] <= 57) ==> parsed(text, max) is None,
        parsed(text, max) matches Some(value) ==> value <= max,
        text.len() == 1 && 48 <= text[0] <= 57 && max >= 9 ==> parsed(text, max) == Some(
            (text[0] - 48) as nat,
        ),
{
    assert((seq![43u8] + text).skip(1) =~= text);
    assert(seq![43u8].skip(1) =~= Seq::<u8>::empty());
    if text.len() == 1 {
        assert(text.drop_last() =~= Seq::empty());
        reveal_with_fuel(digits_value, 2);
    }
    if 0 <= i < text.len() && !(48 <= text[i] <= 57) {
        assert(!is_digit(text[i]));
    }
}

} // verus!
