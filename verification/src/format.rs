//! Result reporting: formats an outcome into the caller's JSON
//! representation, a small structured document with either `x` and `y`
//! fields or an `error` field.

use vstd::prelude::*;
use vstd::string::StringExecFns;

use crate::outcome::Outcome;

verus! {

/// The character for one decimal digit.
pub open spec fn digit_char(d: int) -> char {
    if d == 0 {
        '0'
    } else if d == 1 {
        '1'
    } else if d == 2 {
        '2'
    } else if d == 3 {
        '3'
    } else if d == 4 {
        '4'
    } else if d == 5 {
        '5'
    } else if d == 6 {
        '6'
    } else if d == 7 {
        '7'
    } else if d == 8 {
        '8'
    } else {
        '9'
    }
}

/// Decimal rendering of a natural number, most significant digit first.
pub open spec fn dec_seq(n: nat) -> Seq<char>
    decreases n,
{
    if n < 10 {
        seq![digit_char(n as int)]
    } else {
        dec_seq(n / 10).push(digit_char((n % 10) as int))
    }
}

/// Decimal rendering of an integer, with a leading minus sign when negative.
pub open spec fn int_seq(v: int) -> Seq<char> {
    if v < 0 {
        seq!['-'] + dec_seq((-v) as nat)
    } else {
        dec_seq(v as nat)
    }
}

/// The success document `{"x": <int>, "y": <int>}`.
pub open spec fn solution_json(x: int, y: int) -> Seq<char> {
    "{\"x\": "@ + int_seq(x) + ", \"y\": "@ + int_seq(y) + "}"@
}

/// The document reported when no solution exists or the post was rejected.
pub open spec fn no_solution_json() -> Seq<char> {
    "{\"error\": \"No solution exists\"}"@
}

/// The document reported when the termination policy cut the search short.
pub open spec fn unknown_json() -> Seq<char> {
    "{\"error\": \"Search terminated without finding a solution\"}"@
}

/// The JSON document for each outcome.  The distinction between a rejected
/// post and an exhausted search is deliberately merged into one message.
pub open spec fn outcome_json(o: Outcome) -> Seq<char> {
    match o {
        Outcome::Satisfiable(sol) => solution_json(sol.x as int, sol.y as int),
        Outcome::Unsatisfiable(_) => no_solution_json(),
        Outcome::Unknown(_) => unknown_json(),
    }
}

/// Appends the decimal digits of `n` to `s`.
fn push_decimal(s: &mut String, n: u32)
    ensures
        final(s)@ == old(s)@ + dec_seq(n as nat),
    decreases n,
{
    if n >= 10 {
        push_decimal(s, n / 10);
    }
    let d: u32 = n % 10;
    if d == 0 {
        s.append("0");
        proof {
            reveal_strlit("0");
            assert("0"@ =~= seq![digit_char(d as int)]);
        }
    } else if d == 1 {
        s.append("1");
        proof {
            reveal_strlit("1");
            assert("1"@ =~= seq![digit_char(d as int)]);
        }
    } else if d == 2 {
        s.append("2");
        proof {
            reveal_strlit("2");
            assert("2"@ =~= seq![digit_char(d as int)]);
        }
    } else if d == 3 {
        s.append("3");
        proof {
            reveal_strlit("3");
            assert("3"@ =~= seq![digit_char(d as int)]);
        }
    } else if d == 4 {
        s.append("4");
        proof {
            reveal_strlit("4");
            assert("4"@ =~= seq![digit_char(d as int)]);
        }
    } else if d == 5 {
        s.append("5");
        proof {
            reveal_strlit("5");
            assert("5"@ =~= seq![digit_char(d as int)]);
        }
    } else if d == 6 {
        s.append("6");
        proof {
            reveal_strlit("6");
            assert("6"@ =~= seq![digit_char(d as int)]);
        }
    } else if d == 7 {
        s.append("7");
        proof {
            reveal_strlit("7");
            assert("7"@ =~= seq![digit_char(d as int)]);
        }
    } else if d == 8 {
        s.append("8");
        proof {
            reveal_strlit("8");
            assert("8"@ =~= seq![digit_char(d as int)]);
        }
    } else {
        s.append("9");
        proof {
            reveal_strlit("9");
            assert(d == 9);
            assert("9"@ =~= seq![digit_char(d as int)]);
        }
    }
    proof {
        if n < 10 {
            assert(dec_seq(n as nat) =~= seq![digit_char(n as int)]);
            assert(final(s)@ =~= old(s)@ + dec_seq(n as nat));
        } else {
            assert(dec_seq(n as nat) =~= dec_seq((n / 10) as nat).push(
                digit_char((n % 10) as int),
            ));
            assert(dec_seq((n / 10) as nat).push(digit_char((n % 10) as int)) =~= dec_seq(
                (n / 10) as nat,
            ) + seq![digit_char((n % 10) as int)]);
            assert(final(s)@ =~= old(s)@ + dec_seq(n as nat));
        }
    }
}

/// Decimal rendering of a 32-bit integer.
pub fn format_i32(v: i32) -> (s: String)
    ensures
        s@ == int_seq(v as int),
{
    let mut s = String::new();
    if v >= 0 {
        push_decimal(&mut s, v as u32);
        proof {
            assert(s@ =~= int_seq(v as int));
        }
    } else {
        s.append("-");
        let m: u32 = (-(v as i64)) as u32;
        push_decimal(&mut s, m);
        proof {
            reveal_strlit("-");
            assert("-"@ =~= seq!['-']);
            assert(m as nat == (-(v as int)) as nat);
            assert(s@ =~= int_seq(v as int));
        }
    }
    s
}

/// Formats the final outcome as the JSON document handed to the caller.
pub fn render_outcome(o: &Outcome) -> (s: String)
    ensures
        s@ == outcome_json(*o),
{
    match o {
        Outcome::Satisfiable(sol) => {
            let mut s = String::from_str("{\"x\": ");
            let xs = format_i32(sol.x);
            s.append(xs.as_str());
            s.append(", \"y\": ");
            let ys = format_i32(sol.y);
            s.append(ys.as_str());
            s.append("}");
            proof {
                assert(s@ =~= solution_json(sol.x as int, sol.y as int));
            }
            s
        },
        Outcome::Unsatisfiable(_) => String::from_str("{\"error\": \"No solution exists\"}"),
        Outcome::Unknown(_) => String::from_str(
            "{\"error\": \"Search terminated without finding a solution\"}",
        ),
    }
}

} // verus!
