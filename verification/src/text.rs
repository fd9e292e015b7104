//! Numbers as decimal text.

use vstd::prelude::*;
use vstd::string::StringExecFns;

verus! {

/// The character of a decimal digit.
pub open spec fn digit(d: int) -> char {
    if d == 0 {
        '0'
    } else if d == 1 {
        '1'
    } else if d == 2 {
        '2'
    } else if d == 3 {
        '3'
    } else if d == 4 {
        '4'
    } else if d == 5 {
        '5'
    } else if d == 6 {
        '6'
    } else if d == 7 {
        '7'
    } else if d == 8 {
        '8'
    } else {
        '9'
    }
}

/// A natural number in decimal, without leading zeros.
pub open spec fn nat_text(n: nat) -> Seq<char>
    decreases n,
{
    if n < 10 {
        seq![digit(n as int)]
    } else {
        nat_text(n / 10).push(digit((n % 10) as int))
    }
}

/// An integer in decimal, with a minus sign where it is negative.
pub open spec fn int_text(i: int) -> Seq<char> {
    if i < 0 {
        seq!['-'] + nat_text((-i) as nat)
    } else {
        nat_text(i as nat)
    }
}

/// The digits after the point for `f` thousandths, `0 < f < 1000`, without
/// trailing zeros.
pub open spec fn fraction_text(f: nat) -> Seq<char> {
    if f % 100 == 0 {
        seq![digit((f / 100) as int)]
    } else if f % 10 == 0 {
        seq![digit((f / 100) as int), digit((f / 10 % 10) as int)]
    } else {
        seq![digit((f / 100) as int), digit((f / 10 % 10) as int), digit((f % 10) as int)]
    }
}

/// A number of thousandths as a decimal: `1500` reads `1.5`, `60000` reads
/// `60`, `59951` reads `59.951`.
pub open spec fn thousandths_text(v: nat) -> Seq<char> {
    if v % 1000 == 0 {
        nat_text(v / 1000)
    } else {
        nat_text(v / 1000) + seq!['.'] + fraction_text(v % 1000)
    }
}

/// The one-character text of a decimal digit.
fn digit_str(d: u8) -> (r: &'static str)
    requires
        d < 10,
    ensures
        r@ == seq![digit(d as int)],
{
    proof {
        reveal_strlit("0");
        reveal_strlit("1");
        reveal_strlit("2");
        reveal_strlit("3");
        reveal_strlit("4");
        reveal_strlit("5");
        reveal_strlit("6");
        reveal_strlit("7");
        reveal_strlit("8");
        reveal_strlit("9");
    }
    let r: &'static str = if d == 0 {
        "0"
    } else if d == 1 {
        "1"
    } else if d == 2 {
        "2"
    } else if d == 3 {
        "3"
    } else if d == 4 {
        "4"
    } else if d == 5 {
        "5"
    } else if d == 6 {
        "6"
    } else if d == 7 {
        "7"
    } else if d == 8 {
        "8"
    } else {
        "9"
    };
    assert(r@ =~= seq![digit(d as int)]);
    r
}

/// Appends `n` in decimal.
pub fn push_nat(out: &mut String, n: u64)
    ensures
        final(out)@ == old(out)@ + nat_text(n as nat),
    decreases n,
{
    if n >= 10 {
        push_nat(out, n / 10);
    }
    out.append(digit_str((n % 10) as u8));
    assert(final(out)@ =~= old(out)@ + nat_text(n as nat));
}

/// Appends `i` in decimal.
pub fn push_int(out: &mut String, i: i64)
    ensures
        final(out)@ == old(out)@ + int_text(i as int),
{
    if i < 0 {
        proof {
            reveal_strlit("-");
        }
        out.append("-");
        let m: u64 = if i == i64::MIN {
            0x8000_0000_0000_0000
        } else {
            (-i) as u64
        };
        push_nat(out, m);
        assert(final(out)@ =~= old(out)@ + int_text(i as int));
    } else {
        push_nat(out, i as u64);
    }
}

/// Appends `v` thousandths as a decimal.
pub fn push_thousandths(out: &mut String, v: u32)
    ensures
        final(out)@ == old(out)@ + thousandths_text(v as nat),
{
    let whole: u32 = v / 1000;
    let f: u32 = v % 1000;
    push_nat(out, whole as u64);
    if f != 0 {
        proof {
            reveal_strlit(".");
        }
        out.append(".");
        out.append(digit_str((f / 100) as u8));
        if f % 100 != 0 {
            out.append(digit_str((f / 10 % 10) as u8));
            if f % 10 != 0 {
                out.append(digit_str((f % 10) as u8));
            }
        }
        assert(final(out)@ =~= old(out)@ + thousandths_text(v as nat));
    }
}

} // verus!
