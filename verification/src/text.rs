//! Numbers as text, for the lines handed to the console.

use vstd::prelude::*;
use vstd::string::*;

verus! {

/// The character that stands for the digit `d` in any radix up to sixteen.
pub open spec fn digit_char(d: int) -> char {
    if d == 0 {
        '0'
    } else if d == 1 {
        '1'
    } else if d == 2 {
        '2'
    } else if d == 3 {
        '3'
    } else if d == 4 {
        '4'
    } else if d == 5 {
        '5'
    } else if d == 6 {
        '6'
    } else if d == 7 {
        '7'
    } else if d == 8 {
        '8'
    } else if d == 9 {
        '9'
    } else if d == 10 {
        'a'
    } else if d == 11 {
        'b'
    } else if d == 12 {
        'c'
    } else if d == 13 {
        'd'
    } else if d == 14 {
        'e'
    } else {
        'f'
    }
}

/// The decimal digits of `n`, most significant first, without leading zeros.
pub open spec fn decimal(n: nat) -> Seq<char>
    decreases n,
{
    if n < 10 {
        seq![digit_char(n as int)]
    } else {
        decimal(n / 10).push(digit_char((n % 10) as int))
    }
}

/// The hexadecimal digits of `n`, most significant first, in lower case and
/// without leading zeros.
pub open spec fn hex_digits(n: nat) -> Seq<char>
    decreases n,
{
    if n < 16 {
        seq![digit_char(n as int)]
    } else {
        hex_digits(n / 16).push(digit_char((n % 16) as int))
    }
}

/// `n` in hexadecimal behind the prefix `0x`.
pub open spec fn hex(n: nat) -> Seq<char> {
    seq!['0', 'x'] + hex_digits(n)
}

/// The one-character text of a digit.
fn digit_str(d: usize) -> (s: &'static str)
    requires
        d < 16,
    ensures
        s@ == seq![digit_char(d as int)],
{
    proof {
        reveal_strlit("0");
        reveal_strlit("1");
        reveal_strlit("2");
        reveal_strlit("3");
        reveal_strlit("4");
        reveal_strlit("5");
        reveal_strlit("6");
        reveal_strlit("7");
        reveal_strlit("8");
        reveal_strlit("9");
        reveal_strlit("a");
        reveal_strlit("b");
        reveal_strlit("c");
        reveal_strlit("d");
        reveal_strlit("e");
        reveal_strlit("f");
    }
    let s = if d == 0 {
        "0"
    } else if d == 1 {
        "1"
    } else if d == 2 {
        "2"
    } else if d == 3 {
        "3"
    } else if d == 4 {
        "4"
    } else if d == 5 {
        "5"
    } else if d == 6 {
        "6"
    } else if d == 7 {
        "7"
    } else if d == 8 {
        "8"
    } else if d == 9 {
        "9"
    } else if d == 10 {
        "a"
    } else if d == 11 {
        "b"
    } else if d == 12 {
        "c"
    } else if d == 13 {
        "d"
    } else if d == 14 {
        "e"
    } else {
        "f"
    };
    assert(s@ =~= seq![digit_char(d as int)]);
    s
}

/// `n` written in decimal.
pub fn decimal_text(n: usize) -> (text: String)
    ensures
        text@ == decimal(n as nat),
{
    let mut text = String::from_str(digit_str(n % 10));
    let mut rest: usize = n / 10;
    while rest > 0
        invariant
            decimal(n as nat) == (if rest > 0 {
                decimal(rest as nat)
            } else {
                Seq::<char>::empty()
            }) + text@,
        decreases rest,
    {
        let digit = digit_str(rest % 10);
        proof {
            let tail = text@;
            if rest < 10 {
                assert(decimal(n as nat) =~= digit@ + tail);
            } else {
                assert(decimal(n as nat) =~= decimal((rest / 10) as nat) + (digit@ + tail));
            }
        }
        text = String::from_str(digit).concat(text.as_str());
        rest = rest / 10;
    }
    assert(decimal(n as nat) =~= text@);
    text
}

/// `n` written in hexadecimal behind the prefix `0x`.
pub fn hex_text(n: usize) -> (text: String)
    ensures
        text@ == hex(n as nat),
{
    let mut digits = String::from_str(digit_str(n % 16));
    let mut rest: usize = n / 16;
    while rest > 0
        invariant
            hex_digits(n as nat) == (if rest > 0 {
                hex_digits(rest as nat)
            } else {
                Seq::<char>::empty()
            }) + digits@,
        decreases rest,
    {
        let digit = digit_str(rest % 16);
        proof {
            let tail = digits@;
            if rest < 16 {
                assert(hex_digits(n as nat) =~= digit@ + tail);
            } else {
                assert(hex_digits(n as nat) =~= hex_digits((rest / 16) as nat) + (digit@ + tail));
            }
        }
        digits = String::from_str(digit).concat(digits.as_str());
        rest = rest / 16;
    }
    assert(hex_digits(n as nat) =~= digits@);
    proof {
        reveal_strlit("0x");
    }
    let text = String::from_str("0x").concat(digits.as_str());
    assert(text@ =~= hex(n as nat));
    text
}

} // verus!
