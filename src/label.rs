use vstd::prelude::*;
use vstd::string::StringExecFns;
use crate::value::WireValue;

verus! {

/// The character of a decimal digit.
pub open spec fn digit_char(d: nat) -> char {
    if d == 0 {
        '0'
    } else if d == 1 {
        '1'
    } else if d == 2 {
        '2'
    } else if d == 3 {
        '3'
    } else if d == 4 {
        '4'
    } else if d == 5 {
        '5'
    } else if d == 6 {
        '6'
    } else if d == 7 {
        '7'
    } else if d == 8 {
        '8'
    } else {
        '9'
    }
}

/// The decimal digits of `n`, most significant first, without leading zeros.
pub open spec fn decimal_nat(n: nat) -> Seq<char>
    decreases n,
{
    if n < 10 {
        seq![digit_char(n)]
    } else {
        decimal_nat(n / 10) + seq![digit_char(n % 10)]
    }
}

/// An integer written in decimal, with a leading `-` when negative.
pub open spec fn decimal(x: int) -> Seq<char> {
    if x < 0 {
        seq!['-'] + decimal_nat((-x) as nat)
    } else {
        decimal_nat(x as nat)
    }
}

pub open spec fn bool_text(b: bool) -> Seq<char> {
    if b {
        seq!['t', 'r', 'u', 'e']
    } else {
        seq!['f', 'a', 'l', 's', 'e']
    }
}

/// A value written as `Null`, `Int(..)` or `Bool(..)`.
pub open spec fn value_text(v: WireValue) -> Seq<char> {
    match v {
        WireValue::Null => seq!['N', 'u', 'l', 'l'],
        WireValue::Int(x) => seq!['I', 'n', 't', '('] + decimal(x as int) + seq![')'],
        WireValue::Bool(b) => seq!['B', 'o', 'o', 'l', '('] + bool_text(b) + seq![')'],
    }
}

fn push_digit(out: &mut String, d: u32)
    requires
        d < 10,
    ensures
        final(out)@ == old(out)@ + seq![digit_char(d as nat)],
{
    match d {
        0 => {
            proof {
                reveal_strlit("0");
            }
            out.append("0");
        },
        1 => {
            proof {
                reveal_strlit("1");
            }
            out.append("1");
        },
        2 => {
            proof {
                reveal_strlit("2");
            }
            out.append("2");
        },
        3 => {
            proof {
                reveal_strlit("3");
            }
            out.append("3");
        },
        4 => {
            proof {
                reveal_strlit("4");
            }
            out.append("4");
        },
        5 => {
            proof {
                reveal_strlit("5");
            }
            out.append("5");
        },
        6 => {
            proof {
                reveal_strlit("6");
            }
            out.append("6");
        },
        7 => {
            proof {
                reveal_strlit("7");
            }
            out.append("7");
        },
        8 => {
            proof {
                reveal_strlit("8");
            }
            out.append("8");
        },
        _ => {
            proof {
                reveal_strlit("9");
            }
            out.append("9");
        },
    }
}

fn push_decimal_nat(out: &mut String, n: u32)
    ensures
        final(out)@ == old(out)@ + decimal_nat(n as nat),
    decreases n,
{
    if n >= 10 {
        push_decimal_nat(out, n / 10);
    }
    push_digit(out, n % 10);
    assert(final(out)@ =~= old(out)@ + decimal_nat(n as nat));
}

/// Appends `x` written in decimal.
pub fn push_decimal(out: &mut String, x: i32)
    ensures
        final(out)@ == old(out)@ + decimal(x as int),
{
    if x < 0 {
        proof {
            reveal_strlit("-");
        }
        out.append("-");
        let m: u32 = (0i64 - x as i64) as u32;
        push_decimal_nat(out, m);
        assert(final(out)@ =~= old(out)@ + decimal(x as int));
    } else {
        push_decimal_nat(out, x as u32);
    }
}

pub fn push_bool(out: &mut String, b: bool)
    ensures
        final(out)@ == old(out)@ + bool_text(b),
{
    if b {
        proof {
            reveal_strlit("true");
        }
        out.append("true");
    } else {
        proof {
            reveal_strlit("false");
        }
        out.append("false");
    }
}

pub fn push_value(out: &mut String, v: WireValue)
    ensures
        final(out)@ == old(out)@ + value_text(v),
{
    match v {
        WireValue::Null => {
            proof {
                reveal_strlit("Null");
            }
            out.append("Null");
        },
        WireValue::Int(x) => {
            proof {
                reveal_strlit("Int(");
                reveal_strlit(")");
            }
            out.append("Int(");
            push_decimal(out, x);
            out.append(")");
            assert(final(out)@ =~= old(out)@ + value_text(v));
        },
        WireValue::Bool(b) => {
            proof {
                reveal_strlit("Bool(");
                reveal_strlit(")");
            }
            out.append("Bool(");
            push_bool(out, b);
            out.append(")");
            assert(final(out)@ =~= old(out)@ + value_text(v));
        },
    }
}

} // verus!
