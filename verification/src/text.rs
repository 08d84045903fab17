//! Decimal text for render output: components show numbers, so the library
//! turns them into digit strings and proves the digits right.

use vstd::prelude::*;
use vstd::string::StringExecFns;

verus! {

/// The decimal digit character for one value below ten.
pub open spec fn dec_digit(value: nat) -> char {
    if value == 0 {
        '0'
    } else if value == 1 {
        '1'
    } else if value == 2 {
        '2'
    } else if value == 3 {
        '3'
    } else if value == 4 {
        '4'
    } else if value == 5 {
        '5'
    } else if value == 6 {
        '6'
    } else if value == 7 {
        '7'
    } else if value == 8 {
        '8'
    } else {
        '9'
    }
}

/// The decimal numeral of a value: its digits in reading order, with no
/// leading zero except for the value zero itself.
pub open spec fn dec_chars(value: nat) -> Seq<char>
    decreases value,
    via dec_chars_decreases
{
    if value < 10 {
        seq![dec_digit(value)]
    } else {
        dec_chars(value / 10) + seq![dec_digit(value % 10)]
    }
}

#[via_fn]
proof fn dec_chars_decreases(value: nat) {
    if value >= 10 {
        assert(value / 10 < value) by (nonlinear_arith)
            requires
                value >= 10,
        ;
    }
}

/// Append one decimal digit character.
fn push_digit(digit: u64, out: &mut String)
    requires
        digit < 10,
    ensures
        final(out)@ == old(out)@ + seq![dec_digit(digit as nat)],
{
    if digit == 0 {
        proof {
            reveal_strlit("0");
        }
        out.append("0");
        assert(out@ =~= old(out)@ + seq![dec_digit(digit as nat)]);
    } else if digit == 1 {
        proof {
            reveal_strlit("1");
        }
        out.append("1");
        assert(out@ =~= old(out)@ + seq![dec_digit(digit as nat)]);
    } else if digit == 2 {
        proof {
            reveal_strlit("2");
        }
        out.append("2");
        assert(out@ =~= old(out)@ + seq![dec_digit(digit as nat)]);
    } else if digit == 3 {
        proof {
            reveal_strlit("3");
        }
        out.append("3");
        assert(out@ =~= old(out)@ + seq![dec_digit(digit as nat)]);
    } else if digit == 4 {
        proof {
            reveal_strlit("4");
        }
        out.append("4");
        assert(out@ =~= old(out)@ + seq![dec_digit(digit as nat)]);
    } else if digit == 5 {
        proof {
            reveal_strlit("5");
        }
        out.append("5");
        assert(out@ =~= old(out)@ + seq![dec_digit(digit as nat)]);
    } else if digit == 6 {
        proof {
            reveal_strlit("6");
        }
        out.append("6");
        assert(out@ =~= old(out)@ + seq![dec_digit(digit as nat)]);
    } else if digit == 7 {
        proof {
            reveal_strlit("7");
        }
        out.append("7");
        assert(out@ =~= old(out)@ + seq![dec_digit(digit as nat)]);
    } else if digit == 8 {
        proof {
            reveal_strlit("8");
        }
        out.append("8");
        assert(out@ =~= old(out)@ + seq![dec_digit(digit as nat)]);
    } else {
        proof {
            reveal_strlit("9");
        }
        out.append("9");
        assert(out@ =~= old(out)@ + seq![dec_digit(digit as nat)]);
    }
}

/// Append the decimal numeral of a value.
pub fn push_decimal(value: u64, out: &mut String)
    ensures
        final(out)@ == old(out)@ + dec_chars(value as nat),
    decreases value,
{
    if value < 10 {
        push_digit(value, out);
    } else {
        proof {
            assert(value / 10 < value) by (nonlinear_arith)
                requires
                    value >= 10,
            ;
        }
        push_decimal(value / 10, out);
        push_digit(value % 10, out);
        assert(out@ =~= old(out)@ + dec_chars(value as nat));
    }
}

/// The decimal numeral of a value as a fresh string.
pub fn decimal_string(value: u64) -> (out: String)
    ensures
        out@ == dec_chars(value as nat),
{
    let mut out = String::new();
    push_decimal(value, &mut out);
    proof {
        assert(out@ =~= dec_chars(value as nat));
    }
    out
}

} // verus!
