//! Decimal rendering of unsigned offsets, and the one hook into `core::fmt`
//! that the textual error messages need.

use vstd::prelude::*;
use vstd::string::StringExecFns;

verus! {

/// The decimal digit `d`, for `d < 10`, as a character.
pub open spec fn digit_char(d: nat) -> char {
    if d == 0 {
        '0'
    } else if d == 1 {
        '1'
    } else if d == 2 {
        '2'
    } else if d == 3 {
        '3'
    } else if d == 4 {
        '4'
    } else if d == 5 {
        '5'
    } else if d == 6 {
        '6'
    } else if d == 7 {
        '7'
    } else if d == 8 {
        '8'
    } else {
        '9'
    }
}

/// The decimal rendering of `n`, most significant digit first, no leading
/// zeros (a single `'0'` for zero itself).
pub open spec fn dec_of(n: nat) -> Seq<char>
    decreases n,
{
    if n < 10 {
        seq![digit_char(n)]
    } else {
        dec_of(n / 10) + seq![digit_char(n % 10)]
    }
}

/// The single decimal digit `d` as a string slice.
fn digit_str(d: u64) -> (r: &'static str)
    requires
        d < 10,
    ensures
        r@ == seq![digit_char(d as nat)],
{
    if d == 0 {
        proof {
            reveal_strlit("0");
            assert("0"@ =~= seq![digit_char(d as nat)]);
        }
        "0"
    } else if d == 1 {
        proof {
            reveal_strlit("1");
            assert("1"@ =~= seq![digit_char(d as nat)]);
        }
        "1"
    } else if d == 2 {
        proof {
            reveal_strlit("2");
            assert("2"@ =~= seq![digit_char(d as nat)]);
        }
        "2"
    } else if d == 3 {
        proof {
            reveal_strlit("3");
            assert("3"@ =~= seq![digit_char(d as nat)]);
        }
        "3"
    } else if d == 4 {
        proof {
            reveal_strlit("4");
            assert("4"@ =~= seq![digit_char(d as nat)]);
        }
        "4"
    } else if d == 5 {
        proof {
            reveal_strlit("5");
            assert("5"@ =~= seq![digit_char(d as nat)]);
        }
        "5"
    } else if d == 6 {
        proof {
            reveal_strlit("6");
            assert("6"@ =~= seq![digit_char(d as nat)]);
        }
        "6"
    } else if d == 7 {
        proof {
            reveal_strlit("7");
            assert("7"@ =~= seq![digit_char(d as nat)]);
        }
        "7"
    } else if d == 8 {
        proof {
            reveal_strlit("8");
            assert("8"@ =~= seq![digit_char(d as nat)]);
        }
        "8"
    } else {
        proof {
            reveal_strlit("9");
            assert("9"@ =~= seq![digit_char(d as nat)]);
        }
        "9"
    }
}

/// Renders `n` in decimal, exactly as `dec_of` describes it.
pub fn u64_to_dec(n: u64) -> (r: String)
    ensures
        r@ == dec_of(n as nat),
    decreases n,
{
    if n < 10 {
        String::from_str(digit_str(n))
    } else {
        let hi = u64_to_dec(n / 10);
        let r = hi.concat(digit_str(n % 10));
        proof {
            assert((n / 10) as nat == n as nat / 10);
            assert((n % 10) as nat == n as nat % 10);
        }
        r
    }
}

/// The parts joined with `", "` between each two of them.
pub open spec fn comma_join(parts: Seq<Seq<char>>) -> Seq<char>
    decreases parts.len(),
{
    if parts.len() == 0 {
        Seq::empty()
    } else if parts.len() == 1 {
        parts[0]
    } else {
        parts[0] + ", "@ + comma_join(parts.drop_first())
    }
}

/// Appending one more part extends the joined text by a separator (unless it
/// is the first part) and the part itself.
pub proof fn lemma_comma_join_push(parts: Seq<Seq<char>>, p: Seq<char>)
    ensures
        comma_join(parts.push(p)) == if parts.len() == 0 {
            p
        } else {
            comma_join(parts) + ", "@ + p
        },
    decreases parts.len(),
{
    if parts.len() == 0 {
        assert(parts.push(p) =~= seq![p]);
        assert(comma_join(parts.push(p)) =~= p);
    } else if parts.len() == 1 {
        assert(parts.push(p).drop_first() =~= seq![p]);
        assert(comma_join(seq![p]) == p);
        assert(comma_join(parts.push(p)) =~= comma_join(parts) + ", "@ + p);
    } else {
        lemma_comma_join_push(parts.drop_first(), p);
        assert(parts.push(p).drop_first() =~= parts.drop_first().push(p));
        assert(parts[0] + ", "@ + (comma_join(parts.drop_first()) + ", "@ + p) =~= (parts[0]
            + ", "@ + comma_join(parts.drop_first())) + ", "@ + p);
        assert(comma_join(parts.push(p)) =~= comma_join(parts) + ", "@ + p);
    }
}

/// Relies on `core::fmt`'s `Debug` formatting of the payload type; nothing is
/// assumed of the text it produces.
#[verifier::external_body]
pub(crate) fn debug_repr<A: core::fmt::Debug>(a: &A) -> String {
    format!("{:?}", a)
}

} // verus!
