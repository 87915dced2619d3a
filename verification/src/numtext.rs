//! Exact decimal rendering of integers, used for the target's displayed
//! text and for splicing the target value into an evaluator call.

use vstd::prelude::*;
use vstd::string::StringExecFns;

verus! {

/// The decimal digit character for `d`.
pub open spec fn digit_char(d: int) -> char {
    if d == 0 {
        '0'
    } else if d == 1 {
        '1'
    } else if d == 2 {
        '2'
    } else if d == 3 {
        '3'
    } else if d == 4 {
        '4'
    } else if d == 5 {
        '5'
    } else if d == 6 {
        '6'
    } else if d == 7 {
        '7'
    } else if d == 8 {
        '8'
    } else {
        '9'
    }
}

/// Decimal digits of a non-negative number, most significant first, with no
/// leading zero except for the number 0 itself.
pub open spec fn dec_digits(n: int) -> Seq<char>
    decreases n,
{
    if n < 10 {
        seq![digit_char(n)]
    } else {
        dec_digits(n / 10).push(digit_char(n % 10))
    }
}

/// Decimal rendering of an integer: a minus sign for negative numbers, then
/// the digits of the magnitude.
pub open spec fn dec_string(v: int) -> Seq<char> {
    if v < 0 {
        seq!['-'] + dec_digits(-v)
    } else {
        dec_digits(v)
    }
}

/// The digit characters of `ds` in reverse order: `ds` holds a number's
/// digits least significant first.
spec fn rev_digit_chars(ds: Seq<u64>) -> Seq<char> {
    Seq::new(ds.len(), |i: int| digit_char(ds[ds.len() - 1 - i] as int))
}

/// The one-character string for digit `d`.
fn digit_str(d: u64) -> (s: &'static str)
    requires
        d < 10,
    ensures
        s@ =~= seq![digit_char(d as int)],
{
    if d == 0 {
        proof {
            reveal_strlit("0");
        }
        "0"
    } else if d == 1 {
        proof {
            reveal_strlit("1");
        }
        "1"
    } else if d == 2 {
        proof {
            reveal_strlit("2");
        }
        "2"
    } else if d == 3 {
        proof {
            reveal_strlit("3");
        }
        "3"
    } else if d == 4 {
        proof {
            reveal_strlit("4");
        }
        "4"
    } else if d == 5 {
        proof {
            reveal_strlit("5");
        }
        "5"
    } else if d == 6 {
        proof {
            reveal_strlit("6");
        }
        "6"
    } else if d == 7 {
        proof {
            reveal_strlit("7");
        }
        "7"
    } else if d == 8 {
        proof {
            reveal_strlit("8");
        }
        "8"
    } else {
        proof {
            reveal_strlit("9");
        }
        "9"
    }
}

/// The decimal digits of `m`, as a string.
fn u64_digits_string(m: u64) -> (s: String)
    ensures
        s@ =~= dec_digits(m as int),
{
    let mut ds: Vec<u64> = Vec::new();
    let mut x = m;
    while x >= 10
        invariant
            0 <= x,
            forall|k: int| 0 <= k < ds@.len() ==> #[trigger] ds@[k] < 10,
            dec_digits(m as int) =~= dec_digits(x as int) + rev_digit_chars(ds@),
        decreases x,
    {
        let ghost ds0 = ds@;
        let d = x % 10;
        ds.push(d);
        x = x / 10;
        proof {
            assert(rev_digit_chars(ds@) =~= seq![digit_char(d as int)] + rev_digit_chars(ds0));
            assert(dec_digits(x as int) + rev_digit_chars(ds@) =~= (dec_digits(x as int).push(
                digit_char(d as int),
            )) + rev_digit_chars(ds0));
        }
    }
    let mut s = String::from_str(digit_str(x));
    let n = ds.len();
    let mut j = n;
    proof {
        assert(s@ =~= seq![digit_char(x as int)] + rev_digit_chars(ds@).take(n - j));
    }
    while j > 0
        invariant
            0 <= j <= n,
            n == ds@.len(),
            forall|k: int| 0 <= k < ds@.len() ==> #[trigger] ds@[k] < 10,
            s@ =~= seq![digit_char(x as int)] + rev_digit_chars(ds@).take(n - j),
        decreases j,
    {
        let ghost s0 = s@;
        j -= 1;
        s.append(digit_str(ds[j]));
        proof {
            assert(s@ =~= s0.push(digit_char(ds@[j as int] as int)));
            assert(rev_digit_chars(ds@).take(n - j) =~= rev_digit_chars(ds@).take(n - j - 1).push(
                digit_char(ds@[j as int] as int),
            ));
        }
    }
    proof {
        assert(rev_digit_chars(ds@).take(n as int) =~= rev_digit_chars(ds@));
    }
    s
}

/// Decimal rendering of `v`, exactly `dec_string(v)`.
pub fn i64_to_string(v: i64) -> (s: String)
    ensures
        s@ =~= dec_string(v as int),
{
    if v >= 0 {
        u64_digits_string(v as u64)
    } else {
        let mag_wide: i128 = -(v as i128);
        proof {
            assert(0 <= mag_wide <= u64::MAX);
        }
        let mag: u64 = mag_wide as u64;
        let mut s = String::from_str("-");
        proof {
            reveal_strlit("-");
        }
        let digits = u64_digits_string(mag);
        s.append(digits.as_str());
        proof {
            assert(s@ =~= seq!['-'] + dec_digits(mag as int));
        }
        s
    }
}

} // verus!
