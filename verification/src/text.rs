//! Plain text helpers: decimal rendering of integers and joining of string
//! lists with a separator.

use vstd::prelude::*;

verus! {

/// The character for a single decimal digit.
pub open spec fn digit_char(d: nat) -> char {
    if d == 0 {
        '0'
    } else if d == 1 {
        '1'
    } else if d == 2 {
        '2'
    } else if d == 3 {
        '3'
    } else if d == 4 {
        '4'
    } else if d == 5 {
        '5'
    } else if d == 6 {
        '6'
    } else if d == 7 {
        '7'
    } else if d == 8 {
        '8'
    } else {
        '9'
    }
}

/// Decimal digits of `n`, most significant first, with no leading zeros
/// (except for `n == 0`, which is the single digit `0`).
pub open spec fn dec_rep(n: nat) -> Seq<char>
    decreases n,
{
    if n < 10 {
        seq![digit_char(n)]
    } else {
        dec_rep(n / 10) + seq![digit_char(n % 10)]
    }
}

fn digit_str(d: u64) -> (r: &'static str)
    requires
        d < 10,
    ensures
        r@ == seq![digit_char(d as nat)],
{
    let r: &'static str = match d {
        0 => "0",
        1 => "1",
        2 => "2",
        3 => "3",
        4 => "4",
        5 => "5",
        6 => "6",
        7 => "7",
        8 => "8",
        _ => "9",
    };
    proof {
        reveal_strlit("0");
        reveal_strlit("1");
        reveal_strlit("2");
        reveal_strlit("3");
        reveal_strlit("4");
        reveal_strlit("5");
        reveal_strlit("6");
        reveal_strlit("7");
        reveal_strlit("8");
        reveal_strlit("9");
        assert(r@ =~= seq![digit_char(d as nat)]);
    }
    r
}

/// Renders `n` in decimal.
pub fn u64_to_dec(n: u64) -> (r: String)
    ensures
        r@ == dec_rep(n as nat),
    decreases n,
{
    if n < 10 {
        let mut s = String::new();
        s.append(digit_str(n));
        proof {
            assert(s@ =~= dec_rep(n as nat));
        }
        s
    } else {
        let mut s = u64_to_dec(n / 10);
        s.append(digit_str(n % 10));
        proof {
            assert(s@ =~= dec_rep(n as nat));
        }
        s
    }
}

/// `parts` joined with `sep` between consecutive parts.
pub open spec fn join_seq(parts: Seq<Seq<char>>, sep: Seq<char>) -> Seq<char>
    decreases parts.len(),
{
    if parts.len() == 0 {
        Seq::empty()
    } else if parts.len() == 1 {
        parts[0]
    } else {
        parts[0] + sep + join_seq(parts.drop_first(), sep)
    }
}

/// What a join adds for each part after the first: the separator, then the
/// part.
pub open spec fn join_tail(parts: Seq<Seq<char>>, sep: Seq<char>) -> Seq<char>
    decreases parts.len(),
{
    if parts.len() == 0 {
        Seq::empty()
    } else {
        sep + parts[0] + join_tail(parts.drop_first(), sep)
    }
}

proof fn lemma_join_decomp(parts: Seq<Seq<char>>, sep: Seq<char>)
    requires
        parts.len() >= 1,
    ensures
        join_seq(parts, sep) == parts[0] + join_tail(parts.drop_first(), sep),
    decreases parts.len(),
{
    if parts.len() == 1 {
        assert(join_seq(parts, sep) =~= parts[0] + join_tail(parts.drop_first(), sep));
    } else {
        lemma_join_decomp(parts.drop_first(), sep);
        assert(join_seq(parts, sep) =~= parts[0] + join_tail(parts.drop_first(), sep));
    }
}

/// Joins the strings of `v` with `sep` between consecutive entries.
pub fn join_strs(v: &Vec<String>, sep: &str) -> (r: String)
    ensures
        r@ == join_seq(v.deep_view(), sep@),
{
    let ghost parts = v.deep_view();
    let mut out = String::new();
    if v.len() == 0 {
        return out;
    }
    out.append(v[0].as_str());
    proof {
        lemma_join_decomp(parts, sep@);
        assert(out@ =~= parts[0]);
    }
    let mut i: usize = 1;
    while i < v.len()
        invariant
            parts == v.deep_view(),
            parts.len() == v@.len(),
            1 <= i <= parts.len(),
            out@ + join_tail(parts.skip(i as int), sep@) == join_seq(parts, sep@),
        decreases v@.len() - i,
    {
        let ghost prev = out@;
        out.append(sep);
        out.append(v[i].as_str());
        proof {
            let rest = parts.skip(i as int);
            assert(rest[0] == parts[i as int]);
            assert(rest.drop_first() =~= parts.skip(i as int + 1));
            assert(out@ + join_tail(parts.skip(i as int + 1), sep@) =~= prev + join_tail(
                rest,
                sep@,
            ));
        }
        i = i + 1;
    }
    proof {
        assert(parts.skip(parts.len() as int) =~= Seq::<Seq<char>>::empty());
        assert(out@ + join_tail(parts.skip(parts.len() as int), sep@) =~= out@);
    }
    out
}

} // verus!
