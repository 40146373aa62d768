//! Text form of quadruples and of search results:
//! `(a,b,c,d)` for a quadruple and `[(t0,t1,t2,t3):depth,...]` for a list of
//! leaves, in decimal, with no trailing separator.
use vstd::prelude::*;
use vstd::string::StringExecFns;
use crate::quad::ints;
use crate::search::{Leaf, leaves};

verus! {

/// The decimal digit for `d`, for `d` in `0..10`.
pub open spec fn digit_char(d: nat) -> char {
    if d == 0 {
        '0'
    } else if d == 1 {
        '1'
    } else if d == 2 {
        '2'
    } else if d == 3 {
        '3'
    } else if d == 4 {
        '4'
    } else if d == 5 {
        '5'
    } else if d == 6 {
        '6'
    } else if d == 7 {
        '7'
    } else if d == 8 {
        '8'
    } else {
        '9'
    }
}

/// The decimal digits of `n`, most significant first, without leading zeros.
pub open spec fn digits(n: nat) -> Seq<char>
    decreases n,
{
    if n < 10 {
        seq![digit_char(n)]
    } else {
        digits(n / 10).push(digit_char(n % 10))
    }
}

/// The decimal text of `x`, with a leading `-` where it is negative.
pub open spec fn decimal(x: int) -> Seq<char> {
    if x < 0 {
        seq!['-'] + digits((-x) as nat)
    } else {
        digits(x as nat)
    }
}

/// `(a,b,c,d)`.
pub open spec fn tuple_text(s: Seq<int>) -> Seq<char> {
    seq!['('] + decimal(s[0]) + seq![','] + decimal(s[1]) + seq![','] + decimal(s[2]) + seq![',']
        + decimal(s[3]) + seq![')']
}

/// `(a,b,c,d):depth`.
pub open spec fn leaf_text(l: Leaf) -> Seq<char> {
    tuple_text(l.0) + seq![':'] + digits(l.1)
}

/// The texts of the leaves, separated by commas.
pub open spec fn joined(r: Seq<Leaf>) -> Seq<char>
    decreases r.len(),
{
    if r.len() == 0 {
        seq![]
    } else if r.len() == 1 {
        leaf_text(r[0])
    } else {
        joined(r.drop_last()) + seq![','] + leaf_text(r.last())
    }
}

/// `[leaf,leaf,...]`.
pub open spec fn paths_text(r: Seq<Leaf>) -> Seq<char> {
    seq!['['] + joined(r) + seq![']']
}

fn digit_str(d: u32) -> (r: &'static str)
    requires
        d < 10,
    ensures
        r@ == seq![digit_char(d as nat)],
{
    proof {
        reveal_strlit("0");
        reveal_strlit("1");
        reveal_strlit("2");
        reveal_strlit("3");
        reveal_strlit("4");
        reveal_strlit("5");
        reveal_strlit("6");
        reveal_strlit("7");
        reveal_strlit("8");
        reveal_strlit("9");
    }
    if d == 0 {
        "0"
    } else if d == 1 {
        "1"
    } else if d == 2 {
        "2"
    } else if d == 3 {
        "3"
    } else if d == 4 {
        "4"
    } else if d == 5 {
        "5"
    } else if d == 6 {
        "6"
    } else if d == 7 {
        "7"
    } else if d == 8 {
        "8"
    } else {
        "9"
    }
}

fn append_digits(out: &mut String, n: u32)
    ensures
        final(out)@ == old(out)@ + digits(n as nat),
    decreases n,
{
    if n >= 10 {
        append_digits(out, n / 10);
    }
    out.append(digit_str(n % 10));
    assert(final(out)@ =~= old(out)@ + digits(n as nat));
}

fn append_decimal(out: &mut String, x: i8)
    ensures
        final(out)@ == old(out)@ + decimal(x as int),
{
    if x < 0 {
        proof {
            reveal_strlit("-");
        }
        out.append("-");
        let magnitude = -(x as i32);
        append_digits(out, magnitude as u32);
    } else {
        append_digits(out, x as u32);
    }
    assert(final(out)@ =~= old(out)@ + decimal(x as int));
}

fn append_tuple(out: &mut String, tuple: [i8; 4])
    ensures
        final(out)@ == old(out)@ + tuple_text(ints(tuple)),
{
    proof {
        reveal_strlit("(");
        reveal_strlit(",");
        reveal_strlit(")");
    }
    out.append("(");
    append_decimal(out, tuple[0]);
    out.append(",");
    append_decimal(out, tuple[1]);
    out.append(",");
    append_decimal(out, tuple[2]);
    out.append(",");
    append_decimal(out, tuple[3]);
    out.append(")");
    assert(final(out)@ =~= old(out)@ + tuple_text(ints(tuple)));
}

/// Writes a quadruple as `(a,b,c,d)`.
pub fn write_tuple(tuple: [i8; 4]) -> (r: String)
    ensures
        r@ == tuple_text(ints(tuple)),
{
    let mut result = String::new();
    append_tuple(&mut result, tuple);
    assert(result@ =~= tuple_text(ints(tuple)));
    result
}

/// Writes a list of leaves as `[(t0,t1,t2,t3):depth,...]`.
pub fn write_paths(paths: Vec<([i8; 4], u32)>) -> (r: String)
    ensures
        r@ == paths_text(leaves(paths@)),
{
    proof {
        reveal_strlit("[");
    }
    let mut result = String::new();
    result.append("[");
    let mut i: usize = 0;
    while i < paths.len()
        invariant
            i <= paths.len(),
            result@ == seq!['['] + joined(leaves(paths@).take(i as int)),
        decreases paths.len() - i,
    {
        let ghost before = result@;
        proof {
            reveal_strlit(",");
            reveal_strlit(":");
        }
        if i > 0 {
            result.append(",");
        }
        let ghost mid = result@;
        let entry = paths[i];
        append_tuple(&mut result, entry.0);
        result.append(":");
        append_digits(&mut result, entry.1);
        proof {
            assert(result@ =~= mid + leaf_text((ints(entry.0), entry.1 as nat)));
            assert(i == 0 ==> mid == before);
            assert(i > 0 ==> mid =~= before + seq![',']);
            let r = leaves(paths@);
            let t = r.take(i + 1);
            assert(t.drop_last() =~= r.take(i as int));
            assert(t.last() == r[i as int]);
            if i == 0 {
                assert(t[0] == r[0]);
                assert(joined(r.take(0)) =~= seq![]);
            }
            assert(result@ =~= seq!['['] + joined(t));
        }
        i = i + 1;
    }
    proof {
        reveal_strlit("]");
    }
    result.append("]");
    assert(leaves(paths@).take(paths.len() as int) =~= leaves(paths@));
    assert(result@ =~= paths_text(leaves(paths@)));
    result
}

} // verus!
