//! The record type produced by the deserialization step of the
//! comment-list route, and the line formatting its view applies to it.

use vstd::prelude::*;
use vstd::string::StringExecFns;

verus! {

/// One record of the remote comment collection. The deserializer
/// collaborator (outside the verified core) turns raw JSON text into a
/// sequence of these plain values.
#[derive(Clone, Debug)]
pub struct Comment {
    pub post_id: usize,
    pub id: usize,
    pub name: String,
    pub email: String,
    pub body: String,
}

/// The decimal digit character of `d`.
pub open spec fn spec_digit(d: nat) -> char {
    if d == 0 {
        '0'
    } else if d == 1 {
        '1'
    } else if d == 2 {
        '2'
    } else if d == 3 {
        '3'
    } else if d == 4 {
        '4'
    } else if d == 5 {
        '5'
    } else if d == 6 {
        '6'
    } else if d == 7 {
        '7'
    } else if d == 8 {
        '8'
    } else {
        '9'
    }
}

/// The decimal digits of `n`, most significant first, no leading zeros
/// (a single `'0'` for zero itself).
pub open spec fn spec_decimal(n: nat) -> Seq<char>
    decreases n,
{
    if n < 10 {
        seq![spec_digit(n)]
    } else {
        spec_decimal(n / 10).push(spec_digit(n % 10))
    }
}

fn digit_str(d: usize) -> (r: &'static str)
    requires
        d < 10,
    ensures
        r@ == seq![spec_digit(d as nat)],
{
    match d {
        0 => {
            proof {
                reveal_strlit("0");
                assert("0"@ =~= seq!['0']);
            }
            "0"
        },
        1 => {
            proof {
                reveal_strlit("1");
                assert("1"@ =~= seq!['1']);
            }
            "1"
        },
        2 => {
            proof {
                reveal_strlit("2");
                assert("2"@ =~= seq!['2']);
            }
            "2"
        },
        3 => {
            proof {
                reveal_strlit("3");
                assert("3"@ =~= seq!['3']);
            }
            "3"
        },
        4 => {
            proof {
                reveal_strlit("4");
                assert("4"@ =~= seq!['4']);
            }
            "4"
        },
        5 => {
            proof {
                reveal_strlit("5");
                assert("5"@ =~= seq!['5']);
            }
            "5"
        },
        6 => {
            proof {
                reveal_strlit("6");
                assert("6"@ =~= seq!['6']);
            }
            "6"
        },
        7 => {
            proof {
                reveal_strlit("7");
                assert("7"@ =~= seq!['7']);
            }
            "7"
        },
        8 => {
            proof {
                reveal_strlit("8");
                assert("8"@ =~= seq!['8']);
            }
            "8"
        },
        _ => {
            proof {
                reveal_strlit("9");
                assert("9"@ =~= seq!['9']);
            }
            "9"
        },
    }
}

/// Formats `n` in decimal.
pub fn decimal(n: usize) -> (r: String)
    ensures
        r@ == spec_decimal(n as nat),
    decreases n,
{
    if n < 10 {
        let r = String::from_str(digit_str(n));
        r
    } else {
        let mut r = decimal(n / 10);
        r.append(digit_str(n % 10));
        proof {
            assert(r@ =~= spec_decimal(n as nat));
        }
        r
    }
}

/// The line a rendered comment contributes: every field of the record, in
/// declaration order, separated by ` | `.
pub open spec fn spec_comment_line(c: Comment) -> Seq<char> {
    spec_decimal(c.post_id as nat) + " | "@ + spec_decimal(c.id as nat) + " | "@ + c.name@ + " | "@
        + c.email@ + " | "@ + c.body@
}

/// Formats one comment for display.
pub fn comment_line(c: &Comment) -> (r: String)
    ensures
        r@ == spec_comment_line(*c),
{
    let mut r = decimal(c.post_id);
    r.append(" | ");
    let id_part = decimal(c.id);
    r.append(id_part.as_str());
    r.append(" | ");
    r.append(c.name.as_str());
    r.append(" | ");
    r.append(c.email.as_str());
    r.append(" | ");
    r.append(c.body.as_str());
    proof {
        assert(r@ =~= spec_comment_line(*c));
    }
    r
}

/// The lines of a whole comment list, one per record, in order.
pub open spec fn spec_comment_lines(cs: Seq<Comment>) -> Seq<Seq<char>> {
    cs.map_values(|c: Comment| spec_comment_line(c))
}

/// Formats a comment list for display, one line per record, in order.
pub fn comment_lines(cs: &Vec<Comment>) -> (r: Vec<String>)
    ensures
        r.deep_view() == spec_comment_lines(cs@),
{
    let mut r: Vec<String> = Vec::new();
    let mut i: usize = 0;
    while i < cs.len()
        invariant
            i <= cs.len(),
            r@.len() == i,
            forall|j: int| 0 <= j < i ==> r@[j]@ == spec_comment_line(cs@[j]),
        decreases cs.len() - i,
    {
        r.push(comment_line(&cs[i]));
        i = i + 1;
    }
    proof {
        assert(r.deep_view() =~= spec_comment_lines(cs@));
    }
    r
}

} // verus!
