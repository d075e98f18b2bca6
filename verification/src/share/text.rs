//! Decimal numbers and quoted values as text.

use vstd::prelude::*;

verus! {

/// The character of one decimal digit.
pub open spec fn digit_char(digit: nat) -> char {
    if digit == 0 {
        '0'
    } else if digit == 1 {
        '1'
    } else if digit == 2 {
        '2'
    } else if digit == 3 {
        '3'
    } else if digit == 4 {
        '4'
    } else if digit == 5 {
        '5'
    } else if digit == 6 {
        '6'
    } else if digit == 7 {
        '7'
    } else if digit == 8 {
        '8'
    } else {
        '9'
    }
}

/// The decimal digits of `n`, most significant first, without leading zeros.
pub open spec fn decimal_text(n: nat) -> Seq<char>
    decreases n,
{
    if n < 10 {
        seq![digit_char(n)]
    } else {
        decimal_text(n / 10).push(digit_char(n % 10))
    }
}

/// `decimal_text(n)`, filled from the left with `'0'` up to two characters.
pub open spec fn two_digit_text(n: nat) -> Seq<char> {
    if n < 10 {
        seq!['0', digit_char(n)]
    } else {
        decimal_text(n)
    }
}

/// A number below one hundred is shown by exactly two digits, its tens and
/// its units; a greater one by all its digits.
pub proof fn lemma_two_digit_text(n: nat)
    ensures
        n < 100 ==> two_digit_text(n) == seq![digit_char(n / 10), digit_char(n % 10)],
        n >= 100 ==> two_digit_text(n) == decimal_text(n) && decimal_text(n).len() > 2,
{
    if n < 10 {
        assert(n / 10 == 0 && n % 10 == n);
    } else if n < 100 {
        assert(decimal_text(n / 10) =~= seq![digit_char(n / 10)]);
        assert(decimal_text(n) =~= seq![digit_char(n / 10), digit_char(n % 10)]);
    } else {
        assert(decimal_text(n / 10).len() >= 2) by {
            if n / 10 >= 10 {
                assert(decimal_text(n / 10) == decimal_text(n / 10 / 10).push(
                    digit_char(n / 10 % 10),
                ));
                lemma_decimal_text_is_not_empty(n / 10 / 10);
            }
        }
    }
}

/// Every number has at least one digit.
pub proof fn lemma_decimal_text_is_not_empty(n: nat)
    ensures
        decimal_text(n).len() >= 1,
    decreases n,
{
    if n >= 10 {
        lemma_decimal_text_is_not_empty(n / 10);
    }
}

/// `key "value"`: a key, a space, and the value in double quotes.
pub open spec fn quoted_entry(key: Seq<char>, value: Seq<char>) -> Seq<char> {
    key + seq![' ', '"'] + value + seq!['"']
}

/// `key value`: a key, a space, and the value as it is.
pub open spec fn plain_entry(key: Seq<char>, value: Seq<char>) -> Seq<char> {
    key + seq![' '] + value
}

/// The text of one decimal digit.
fn digit_str(digit: usize) -> (text: &'static str)
    requires
        digit < 10,
    ensures
        text@ == seq![digit_char(digit as nat)],
{
    proof {
        reveal_strlit("0");
        reveal_strlit("1");
        reveal_strlit("2");
        reveal_strlit("3");
        reveal_strlit("4");
        reveal_strlit("5");
        reveal_strlit("6");
        reveal_strlit("7");
        reveal_strlit("8");
        reveal_strlit("9");
    }
    let text = if digit == 0 {
        "0"
    } else if digit == 1 {
        "1"
    } else if digit == 2 {
        "2"
    } else if digit == 3 {
        "3"
    } else if digit == 4 {
        "4"
    } else if digit == 5 {
        "5"
    } else if digit == 6 {
        "6"
    } else if digit == 7 {
        "7"
    } else if digit == 8 {
        "8"
    } else {
        "9"
    };
    assert(text@ =~= seq![digit_char(digit as nat)]);
    text
}

/// The number in decimal, as `{}` prints an unsigned integer.
pub fn decimal_string(n: usize) -> (text: String)
    ensures
        text@ == decimal_text(n as nat),
{
    let mut text = String::from_str(digit_str(n % 10));
    let mut rest: usize = n / 10;
    while rest > 0
        invariant
            decimal_text(n as nat) == if rest == 0 {
                text@
            } else {
                decimal_text(rest as nat) + text@
            },
        decreases rest,
    {
        let digit = digit_str(rest % 10);
        let ghost before = text@;
        text = String::from_str(digit).concat(text.as_str());
        proof {
            let r = rest as nat;
            if r < 10 {
                assert(decimal_text(r) =~= digit@);
            } else {
                assert(decimal_text(r) =~= decimal_text(r / 10) + digit@);
                assert(decimal_text(r / 10) + digit@ + before =~= decimal_text(r / 10) + (digit@
                    + before));
            }
        }
        rest = rest / 10;
    }
    text
}

/// The number in decimal, at least two characters wide, as `{:0>2}` prints it.
pub fn two_digit_string(n: usize) -> (text: String)
    ensures
        text@ == two_digit_text(n as nat),
{
    if n < 10 {
        let text = String::from_str("0").concat(digit_str(n));
        proof {
            reveal_strlit("0");
            assert(text@ =~= seq!['0', digit_char(n as nat)]);
        }
        text
    } else {
        decimal_string(n)
    }
}

/// `key "value"`.
pub fn quoted_entry_string(key: &str, value: &str) -> (text: String)
    ensures
        text@ == quoted_entry(key@, value@),
{
    let mut text = String::from_str(key);
    proof {
        reveal_strlit(" \"");
        reveal_strlit("\"");
        assert(" \""@ =~= seq![' ', '"']);
        assert("\""@ =~= seq!['"']);
    }
    text.append(" \"");
    text.append(value);
    text.append("\"");
    text
}

/// `key value`.
pub fn plain_entry_string(key: &str, value: &str) -> (text: String)
    ensures
        text@ == plain_entry(key@, value@),
{
    let mut text = String::from_str(key);
    proof {
        reveal_strlit(" ");
        assert(" "@ =~= seq![' ']);
    }
    text.append(" ");
    text.append(value);
    text
}

} // verus!
