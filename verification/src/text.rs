//! Small verified text helpers: character-wise string comparison and decimal
//! rendering of integers.

use vstd::prelude::*;
use vstd::string::StrSliceExecFns;
use vstd::string::StringExecFns;

verus! {

/// Compares two string slices character by character.
pub fn str_eq(a: &str, b: &str) -> (r: bool)
    ensures
        r == (a@ == b@),
{
    let an = a.unicode_len();
    let bn = b.unicode_len();
    if an != bn {
        proof {
            assert(a@ != b@) by {
                if a@ == b@ {
                    assert(a@.len() == b@.len());
                }
            }
        }
        return false;
    }
    let mut i: usize = 0;
    while i < an
        invariant
            i <= an,
            an == a@.len(),
            an == b@.len(),
            forall|j: int| 0 <= j < i ==> a@[j] == b@[j],
        decreases an - i,
    {
        if a.get_char(i) != b.get_char(i) {
            return false;
        }
        i += 1;
    }
    proof {
        assert(a@ =~= b@);
    }
    true
}

/// The decimal digit for `d`; meaningful for `d < 10`.
pub open spec fn dec_digit(d: nat) -> char {
    if d == 0 {
        '0'
    } else if d == 1 {
        '1'
    } else if d == 2 {
        '2'
    } else if d == 3 {
        '3'
    } else if d == 4 {
        '4'
    } else if d == 5 {
        '5'
    } else if d == 6 {
        '6'
    } else if d == 7 {
        '7'
    } else if d == 8 {
        '8'
    } else {
        '9'
    }
}

/// The decimal representation of a natural number, most significant digit
/// first, without leading zeros (except for zero itself).
pub open spec fn dec_rep(n: nat) -> Seq<char>
    decreases n,
{
    if n < 10 {
        seq![dec_digit(n)]
    } else {
        dec_rep(n / 10) + seq![dec_digit(n % 10)]
    }
}

/// The decimal representation of an integer: a minus sign for negative
/// values, then the digits of the magnitude.
pub open spec fn dec_rep_int(n: int) -> Seq<char> {
    if n >= 0 {
        dec_rep(n as nat)
    } else {
        seq!['-'] + dec_rep((-n) as nat)
    }
}

fn digit_str(d: u64) -> (r: &'static str)
    requires
        d < 10,
    ensures
        r@ == seq![dec_digit(d as nat)],
{
    let r: &'static str = if d == 0 {
        "0"
    } else if d == 1 {
        "1"
    } else if d == 2 {
        "2"
    } else if d == 3 {
        "3"
    } else if d == 4 {
        "4"
    } else if d == 5 {
        "5"
    } else if d == 6 {
        "6"
    } else if d == 7 {
        "7"
    } else if d == 8 {
        "8"
    } else {
        "9"
    };
    proof {
        reveal_strlit("0");
        reveal_strlit("1");
        reveal_strlit("2");
        reveal_strlit("3");
        reveal_strlit("4");
        reveal_strlit("5");
        reveal_strlit("6");
        reveal_strlit("7");
        reveal_strlit("8");
        reveal_strlit("9");
        assert(r@ =~= seq![dec_digit(d as nat)]);
    }
    r
}

fn push_dec_u64(n: u64, out: &mut String)
    ensures
        final(out)@ == old(out)@ + dec_rep(n as nat),
    decreases n,
{
    if n >= 10 {
        push_dec_u64(n / 10, out);
    }
    out.append(digit_str(n % 10));
    proof {
        if n < 10 {
            assert(final(out)@ =~= old(out)@ + dec_rep(n as nat));
        } else {
            assert(final(out)@ =~= old(out)@ + dec_rep(n as nat));
        }
    }
}

/// Renders an unsigned 64-bit value in decimal.
pub fn dec_u64(n: u64) -> (r: String)
    ensures
        r@ == dec_rep(n as nat),
{
    let mut s = String::new();
    push_dec_u64(n, &mut s);
    proof {
        assert(s@ =~= dec_rep(n as nat));
    }
    s
}

/// Renders a signed 64-bit value in decimal.
pub fn dec_i64(n: i64) -> (r: String)
    ensures
        r@ == dec_rep_int(n as int),
{
    if n >= 0 {
        dec_u64(n as u64)
    } else {
        // The magnitude of i64::MIN does not fit in i64; stepping through
        // n + 1 keeps the negation in range.
        let m: u64 = ((-(n + 1)) as u64) + 1;
        assert(m as nat == (-(n as int)) as nat);
        let mut s = String::from_str("-");
        proof {
            reveal_strlit("-");
        }
        push_dec_u64(m, &mut s);
        proof {
            assert(s@ =~= dec_rep_int(n as int));
        }
        s
    }
}

} // verus!
