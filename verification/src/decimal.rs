//! Decimal rendering of integers, used to pass numeric manifest fields
//! through verbatim as text.

use vstd::prelude::*;

verus! {

/// The decimal digit character for `d` in 0..10.
pub open spec fn digit_char(d: int) -> char {
    if d == 0 {
        '0'
    } else if d == 1 {
        '1'
    } else if d == 2 {
        '2'
    } else if d == 3 {
        '3'
    } else if d == 4 {
        '4'
    } else if d == 5 {
        '5'
    } else if d == 6 {
        '6'
    } else if d == 7 {
        '7'
    } else if d == 8 {
        '8'
    } else {
        '9'
    }
}

/// The decimal digits of a nonnegative integer, most significant first;
/// empty for zero.
pub open spec fn dec_digits(n: int) -> Seq<char>
    decreases n,
{
    if n <= 0 {
        Seq::empty()
    } else {
        dec_digits(n / 10).push(digit_char(n % 10))
    }
}

/// The usual decimal rendering of an integer: "0" for zero, a leading '-'
/// for negatives, no leading zeroes otherwise.
pub open spec fn decimal_of(i: int) -> Seq<char> {
    if i == 0 {
        seq!['0']
    } else if i < 0 {
        seq!['-'] + dec_digits(-i)
    } else {
        dec_digits(i)
    }
}

/// The one-character string for a decimal digit.
fn digit_str(d: u64) -> (r: &'static str)
    requires
        d < 10,
    ensures
        r@ == seq![digit_char(d as int)],
{
    proof {
        reveal_strlit("0");
        reveal_strlit("1");
        reveal_strlit("2");
        reveal_strlit("3");
        reveal_strlit("4");
        reveal_strlit("5");
        reveal_strlit("6");
        reveal_strlit("7");
        reveal_strlit("8");
        reveal_strlit("9");
    }
    let r = if d == 0 {
        "0"
    } else if d == 1 {
        "1"
    } else if d == 2 {
        "2"
    } else if d == 3 {
        "3"
    } else if d == 4 {
        "4"
    } else if d == 5 {
        "5"
    } else if d == 6 {
        "6"
    } else if d == 7 {
        "7"
    } else if d == 8 {
        "8"
    } else {
        "9"
    };
    proof {
        assert(r@ =~= seq![digit_char(d as int)]);
    }
    r
}

/// Appends the decimal digits of `m` to `out`.
fn push_digits(out: &mut String, m: u64)
    ensures
        final(out)@ == old(out)@ + dec_digits(m as int),
    decreases m,
{
    if m == 0 {
        proof {
            assert(old(out)@ + dec_digits(0) =~= old(out)@);
        }
        return ;
    }
    let q = m / 10;
    let d = m % 10;
    proof {
        assert(q < m) by (nonlinear_arith)
            requires
                m > 0,
                q == m / 10,
        ;
    }
    push_digits(out, q);
    out.append(digit_str(d));
    proof {
        assert(dec_digits(m as int) == dec_digits(q as int).push(digit_char(d as int)));
        assert(old(out)@ + dec_digits(m as int) =~= (old(out)@ + dec_digits(q as int)).push(
            digit_char(d as int),
        ));
    }
}

/// The decimal rendering of `n` as a fresh string.
pub fn i64_to_string(n: i64) -> (r: String)
    ensures
        r@ == decimal_of(n as int),
{
    let mut out = String::new();
    if n == 0 {
        out.append("0");
        proof {
            reveal_strlit("0");
            assert(out@ =~= seq!['0']);
        }
        return out;
    }
    if n < 0 {
        out.append("-");
        let m: u64 = ((-(n + 1)) as u64) + 1;
        proof {
            reveal_strlit("-");
            assert(m as int == -(n as int));
            assert(out@ =~= seq!['-']);
        }
        push_digits(&mut out, m);
        proof {
            assert(out@ =~= seq!['-'] + dec_digits(-(n as int)));
        }
        out
    } else {
        push_digits(&mut out, n as u64);
        out
    }
}

} // verus!
