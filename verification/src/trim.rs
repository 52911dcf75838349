//! Derivation of an action's short display name from a definition text:
//! every parenthesized segment (together with the whitespace that follows it)
//! is removed, the rest is truncated at the first comma, and trailing periods
//! are stripped.

use vstd::prelude::*;

verus! {

/// Unicode whitespace (the `White_Space` property): the class of characters
/// that may trail a removed parenthesized segment.
pub open spec fn is_ws_char(c: char) -> bool {
    ||| c as u32 == 0x20
    ||| c as u32 == 0x09
    ||| c as u32 == 0x0a
    ||| c as u32 == 0x0b
    ||| c as u32 == 0x0c
    ||| c as u32 == 0x0d
    ||| c as u32 == 0x85
    ||| c as u32 == 0xa0
    ||| c as u32 == 0x1680
    ||| (0x2000 <= c as u32 && c as u32 <= 0x200a)
    ||| c as u32 == 0x2028
    ||| c as u32 == 0x2029
    ||| c as u32 == 0x202f
    ||| c as u32 == 0x205f
    ||| c as u32 == 0x3000
}

fn is_ws(c: char) -> (r: bool)
    ensures
        r == is_ws_char(c),
{
    let u = c as u32;
    u == 0x20 || u == 0x09 || u == 0x0a || u == 0x0b || u == 0x0c || u == 0x0d || u == 0x85
        || u == 0xa0 || u == 0x1680 || (0x2000 <= u && u <= 0x200a) || u == 0x2028 || u == 0x2029
        || u == 0x202f || u == 0x205f || u == 0x3000
}

/// Some occurrence of `c` lies at an index of `s` at or after `i`.
pub open spec fn has_char_from(s: Seq<char>, i: int, c: char) -> bool {
    exists|j: int| i <= j < s.len() && s[j] == c
}

/// The least index of `c` in `s` at or after `i` (meaningful only when
/// `has_char_from(s, i, c)` holds).
pub open spec fn first_char_from(s: Seq<char>, i: int, c: char) -> int
    decreases s.len() - i,
{
    if i < 0 || i >= s.len() {
        i
    } else if s[i] == c {
        i
    } else {
        first_char_from(s, i + 1, c)
    }
}

/// The first index at or after `i` that does not hold whitespace (`s.len()`
/// if only whitespace remains).
pub open spec fn skip_ws_from(s: Seq<char>, i: int) -> int
    decreases s.len() - i,
{
    if 0 <= i < s.len() && is_ws_char(s[i]) {
        skip_ws_from(s, i + 1)
    } else {
        i
    }
}

pub proof fn lemma_first_char_from_bounds(s: Seq<char>, i: int, c: char)
    requires
        0 <= i,
        has_char_from(s, i, c),
    ensures
        i <= first_char_from(s, i, c) < s.len(),
        s[first_char_from(s, i, c)] == c,
        forall|t: int| i <= t < first_char_from(s, i, c) ==> s[t] != c,
    decreases s.len() - i,
{
    let j = choose|j: int| i <= j < s.len() && s[j] == c;
    if i < s.len() && s[i] != c {
        assert(i + 1 <= j < s.len() && s[j] == c);
        lemma_first_char_from_bounds(s, i + 1, c);
    }
}

pub proof fn lemma_first_char_from_is(s: Seq<char>, i: int, j: int, c: char)
    requires
        0 <= i <= j < s.len(),
        s[j] == c,
        forall|t: int| i <= t < j ==> s[t] != c,
    ensures
        has_char_from(s, i, c),
        first_char_from(s, i, c) == j,
    decreases j - i,
{
    assert(i <= j < s.len() && s[j] == c);
    if i < j {
        lemma_first_char_from_is(s, i + 1, j, c);
    }
}

pub proof fn lemma_no_char_from(s: Seq<char>, i: int, c: char)
    requires
        forall|t: int| i <= t < s.len() ==> s[t] != c,
    ensures
        !has_char_from(s, i, c),
{
}

pub proof fn lemma_skip_ws_from_bounds(s: Seq<char>, i: int)
    requires
        0 <= i <= s.len(),
    ensures
        i <= skip_ws_from(s, i) <= s.len(),
        forall|t: int| i <= t < skip_ws_from(s, i) ==> is_ws_char(s[t]),
        skip_ws_from(s, i) < s.len() ==> !is_ws_char(s[skip_ws_from(s, i)]),
    decreases s.len() - i,
{
    if i < s.len() && is_ws_char(s[i]) {
        lemma_skip_ws_from_bounds(s, i + 1);
    }
}

pub proof fn lemma_skip_ws_from_is(s: Seq<char>, i: int, k: int)
    requires
        0 <= i <= k <= s.len(),
        forall|t: int| i <= t < k ==> is_ws_char(s[t]),
        k < s.len() ==> !is_ws_char(s[k]),
    ensures
        skip_ws_from(s, i) == k,
    decreases k - i,
{
    if i < k {
        lemma_skip_ws_from_is(s, i + 1, k);
    }
}

/// The suffix of `s` that starts at `i`, with every parenthesized segment and
/// its trailing whitespace removed: at a `(` that a later `)` answers, the
/// scan jumps past that `)` and the whitespace after it; any other character
/// is kept.
pub open spec fn strip_parens_from(s: Seq<char>, i: int) -> Seq<char>
    decreases s.len() - i,
        via strip_parens_from_decreases
{
    if i < 0 || i >= s.len() {
        Seq::empty()
    } else if s[i] == '(' && has_char_from(s, i + 1, ')') {
        strip_parens_from(s, skip_ws_from(s, first_char_from(s, i + 1, ')') + 1))
    } else {
        seq![s[i]] + strip_parens_from(s, i + 1)
    }
}

#[via_fn]
proof fn strip_parens_from_decreases(s: Seq<char>, i: int) {
    if 0 <= i < s.len() && s[i] == '(' && has_char_from(s, i + 1, ')') {
        lemma_first_char_from_bounds(s, i + 1, ')');
        lemma_skip_ws_from_bounds(s, first_char_from(s, i + 1, ')') + 1);
    }
}

/// The whole of `s` with parenthesized segments removed.
pub open spec fn strip_parens(s: Seq<char>) -> Seq<char> {
    strip_parens_from(s, 0)
}

/// The prefix of `s` before its first comma (all of `s` if it has none).
pub open spec fn before_comma(s: Seq<char>) -> Seq<char> {
    if has_char_from(s, 0, ',') {
        s.subrange(0, first_char_from(s, 0, ','))
    } else {
        s
    }
}

/// `s` with every trailing period removed.
pub open spec fn trim_dots(s: Seq<char>) -> Seq<char>
    decreases s.len(),
{
    if s.len() > 0 && s[s.len() - 1] == '.' {
        trim_dots(s.drop_last())
    } else {
        s
    }
}

/// The short display name derived from a definition text: parenthesized
/// segments removed, then truncated at the first comma, then trailing
/// periods stripped.
pub open spec fn action_name(s: Seq<char>) -> Seq<char> {
    trim_dots(before_comma(strip_parens(s)))
}

fn strip_parens_exec(s: &str) -> (r: String)
    ensures
        r@ == strip_parens(s@),
{
    let len = s.unicode_len();
    let mut out = String::new();
    let mut i: usize = 0;
    while i < len
        invariant
            len == s@.len(),
            i <= len,
            out@ + strip_parens_from(s@, i as int) == strip_parens(s@),
        decreases len - i,
    {
        let c = s.get_char(i);
        if c == '(' {
            let mut j = i + 1;
            while j < len && s.get_char(j) != ')'
                invariant
                    len == s@.len(),
                    i + 1 <= j <= len,
                    forall|t: int| i + 1 <= t < j ==> s@[t] != ')',
                decreases len - j,
            {
                j = j + 1;
            }
            if j < len {
                // The segment closes at `j`; skip it and the whitespace after.
                let mut k = j + 1;
                while k < len && is_ws(s.get_char(k))
                    invariant
                        len == s@.len(),
                        j + 1 <= k <= len,
                        forall|t: int| j + 1 <= t < k ==> is_ws_char(s@[t]),
                    decreases len - k,
                {
                    k = k + 1;
                }
                proof {
                    lemma_first_char_from_is(s@, i + 1, j as int, ')');
                    lemma_skip_ws_from_is(s@, j + 1, k as int);
                    assert(strip_parens_from(s@, i as int) == strip_parens_from(s@, k as int));
                }
                i = k;
            } else {
                // No closing parenthesis follows: the character is kept.
                proof {
                    lemma_no_char_from(s@, i + 1, ')');
                }
                let piece = s.substring_char(i, i + 1);
                let ghost prev = out@;
                out.append(piece);
                proof {
                    assert(seq![s@[i as int]] =~= s@.subrange(i as int, i + 1));
                    assert(strip_parens_from(s@, i as int) == seq![s@[i as int]]
                        + strip_parens_from(s@, i + 1));
                    assert(out@ + strip_parens_from(s@, i + 1) =~= prev
                        + strip_parens_from(s@, i as int));
                }
                i = i + 1;
            }
        } else {
            let piece = s.substring_char(i, i + 1);
            let ghost prev = out@;
            out.append(piece);
            proof {
                assert(seq![s@[i as int]] =~= s@.subrange(i as int, i + 1));
                assert(strip_parens_from(s@, i as int) == seq![s@[i as int]]
                    + strip_parens_from(s@, i + 1));
                assert(out@ + strip_parens_from(s@, i + 1) =~= prev
                    + strip_parens_from(s@, i as int));
            }
            i = i + 1;
        }
    }
    proof {
        assert(strip_parens_from(s@, len as int) == Seq::<char>::empty());
        assert(out@ =~= out@ + Seq::<char>::empty());
    }
    out
}

fn before_comma_exec(s: &str) -> (r: String)
    ensures
        r@ == before_comma(s@),
{
    let len = s.unicode_len();
    let mut j: usize = 0;
    while j < len && s.get_char(j) != ','
        invariant
            len == s@.len(),
            j <= len,
            forall|t: int| 0 <= t < j ==> s@[t] != ',',
        decreases len - j,
    {
        j = j + 1;
    }
    if j < len {
        proof {
            lemma_first_char_from_is(s@, 0, j as int, ',');
        }
        let piece = s.substring_char(0, j);
        String::from_str(piece)
    } else {
        proof {
            lemma_no_char_from(s@, 0, ',');
        }
        String::from_str(s)
    }
}

fn trim_dots_exec(s: &str) -> (r: String)
    ensures
        r@ == trim_dots(s@),
{
    let len = s.unicode_len();
    let mut k: usize = len;
    proof {
        assert(s@.subrange(0, len as int) =~= s@);
    }
    while k > 0 && s.get_char(k - 1) == '.'
        invariant
            len == s@.len(),
            k <= len,
            trim_dots(s@.subrange(0, k as int)) == trim_dots(s@),
        decreases k,
    {
        proof {
            let pre = s@.subrange(0, k as int);
            assert(pre[pre.len() - 1] == '.');
            assert(pre.drop_last() =~= s@.subrange(0, k - 1));
        }
        k = k - 1;
    }
    proof {
        let pre = s@.subrange(0, k as int);
        if k > 0 {
            assert(pre[pre.len() - 1] == s@[k - 1]);
        }
        assert(trim_dots(pre) == pre);
    }
    let piece = s.substring_char(0, k);
    String::from_str(piece)
}

/// No opening parenthesis in `s` is answered by a later closing one, so no
/// parenthesized segment can be found in it.
pub open spec fn paren_pair_free(s: Seq<char>) -> bool {
    forall|a: int, b: int| 0 <= a < b < s.len() ==> !(s[a] == '(' && s[b] == ')')
}

proof fn lemma_strip_no_close(s: Seq<char>, i: int)
    requires
        forall|t: int| i <= t < s.len() ==> s[t] != ')',
    ensures
        forall|m: int|
            0 <= m < strip_parens_from(s, i).len() ==> strip_parens_from(s, i)[m] != ')',
    decreases s.len() - i,
{
    if i < 0 || i >= s.len() {
    } else {
        assert(!has_char_from(s, i + 1, ')'));
        lemma_strip_no_close(s, i + 1);
        let rest = strip_parens_from(s, i + 1);
        assert forall|m: int|
            0 <= m < strip_parens_from(s, i).len() implies strip_parens_from(s, i)[m]
            != ')' by {
            if m > 0 {
                assert(strip_parens_from(s, i)[m] == rest[m - 1]);
            }
        }
    }
}

proof fn lemma_strip_pair_free(s: Seq<char>, i: int)
    ensures
        paren_pair_free(strip_parens_from(s, i)),
    decreases s.len() - i,
{
    if i < 0 || i >= s.len() {
    } else if s[i] == '(' && has_char_from(s, i + 1, ')') {
        lemma_first_char_from_bounds(s, i + 1, ')');
        lemma_skip_ws_from_bounds(s, first_char_from(s, i + 1, ')') + 1);
        lemma_strip_pair_free(s, skip_ws_from(s, first_char_from(s, i + 1, ')') + 1));
    } else {
        lemma_strip_pair_free(s, i + 1);
        let out = strip_parens_from(s, i);
        let rest = strip_parens_from(s, i + 1);
        assert forall|a: int, b: int| 0 <= a < b < out.len() implies !(out[a] == '(' && out[b]
            == ')') by {
            if a == 0 {
                if s[i] == '(' && out[b] == ')' {
                    assert(forall|t: int| i + 1 <= t < s.len() ==> s[t] != ')') by {
                        assert(!has_char_from(s, i + 1, ')'));
                        assert forall|t: int| i + 1 <= t < s.len() implies s[t] != ')' by {
                            if s[t] == ')' {
                                assert(has_char_from(s, i + 1, ')'));
                            }
                        }
                    }
                    lemma_strip_no_close(s, i + 1);
                    assert(out[b] == rest[b - 1]);
                }
            } else {
                assert(out[a] == rest[a - 1] && out[b] == rest[b - 1]);
            }
        }
    }
}

proof fn lemma_strip_identity(s: Seq<char>, i: int)
    requires
        paren_pair_free(s),
        0 <= i <= s.len(),
    ensures
        strip_parens_from(s, i) == s.subrange(i, s.len() as int),
    decreases s.len() - i,
{
    if i >= s.len() {
        assert(strip_parens_from(s, i) =~= s.subrange(i, s.len() as int));
    } else {
        if s[i] == '(' && has_char_from(s, i + 1, ')') {
            let j = choose|j: int| i + 1 <= j < s.len() && s[j] == ')';
            assert(!(s[i] == '(' && s[j] == ')'));
            assert(false);
        }
        lemma_strip_identity(s, i + 1);
        assert(strip_parens_from(s, i) =~= s.subrange(i, s.len() as int));
    }
}

proof fn lemma_pair_free_prefix(s: Seq<char>, k: int)
    requires
        paren_pair_free(s),
        0 <= k <= s.len(),
    ensures
        paren_pair_free(s.subrange(0, k)),
{
    let pre = s.subrange(0, k);
    assert forall|a: int, b: int| 0 <= a < b < pre.len() implies !(pre[a] == '(' && pre[b]
        == ')') by {
        assert(pre[a] == s[a] && pre[b] == s[b]);
    }
}

proof fn lemma_before_comma_props(s: Seq<char>)
    ensures
        before_comma(s).len() <= s.len(),
        before_comma(s) == s.subrange(0, before_comma(s).len() as int),
        forall|t: int| 0 <= t < before_comma(s).len() ==> before_comma(s)[t] != ',',
{
    if has_char_from(s, 0, ',') {
        lemma_first_char_from_bounds(s, 0, ',');
    } else {
        assert(before_comma(s) =~= s.subrange(0, s.len() as int));
        assert forall|t: int| 0 <= t < s.len() implies s[t] != ',' by {
            if s[t] == ',' {
                assert(has_char_from(s, 0, ','));
            }
        }
    }
}

proof fn lemma_trim_dots_prefix(s: Seq<char>)
    ensures
        trim_dots(s).len() <= s.len(),
        trim_dots(s) == s.subrange(0, trim_dots(s).len() as int),
    decreases s.len(),
{
    if s.len() > 0 && s[s.len() - 1] == '.' {
        lemma_trim_dots_prefix(s.drop_last());
        let m = trim_dots(s).len() as int;
        assert(s.drop_last() =~= s.subrange(0, s.len() - 1));
        assert(s.subrange(0, s.len() - 1).subrange(0, m) =~= s.subrange(0, m));
    } else {
        assert(trim_dots(s) =~= s.subrange(0, s.len() as int));
    }
}

proof fn lemma_trim_dots_no_trailing(s: Seq<char>)
    ensures
        trim_dots(s).len() > 0 ==> trim_dots(s)[trim_dots(s).len() - 1] != '.',
    decreases s.len(),
{
    if s.len() > 0 && s[s.len() - 1] == '.' {
        lemma_trim_dots_no_trailing(s.drop_last());
    }
}

/// Law: the name derivation is idempotent. Deriving an action name from a
/// string that is already a derived name gives that string back unchanged.
pub proof fn lemma_action_name_idempotent(s: Seq<char>)
    ensures
        action_name(action_name(s)) == action_name(s),
{
    let p = strip_parens(s);
    let q = before_comma(p);
    let t = trim_dots(q);
    lemma_strip_pair_free(s, 0);
    lemma_before_comma_props(p);
    lemma_pair_free_prefix(p, q.len() as int);
    lemma_trim_dots_prefix(q);
    lemma_trim_dots_no_trailing(q);
    lemma_pair_free_prefix(q, t.len() as int);
    // The derived name holds no parenthesized segment, so stripping keeps it.
    lemma_strip_identity(t, 0);
    assert(t.subrange(0, t.len() as int) =~= t);
    // It holds no comma, so truncation keeps it.
    assert forall|m: int| 0 <= m < t.len() implies t[m] != ',' by {
        assert(t[m] == q.subrange(0, t.len() as int)[m]);
        assert(q[m] != ',');
    }
    lemma_no_char_from(t, 0, ',');
    // It ends in no period, so trimming keeps it.
    assert(trim_dots(t) == t);
}

/// The short display name of a definition text: parenthesized segments (and
/// the whitespace after each) removed, the rest cut at the first comma, and
/// trailing periods stripped.
pub fn remove_parens(s: &str) -> (r: String)
    ensures
        r@ == action_name(s@),
{
    let stripped = strip_parens_exec(s);
    let truncated = before_comma_exec(stripped.as_str());
    trim_dots_exec(truncated.as_str())
}

} // verus!
