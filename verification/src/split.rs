//! Splitting a string at each occurrence of a separator, and joining the
//! pieces back: the textual backbone of affiliation-history strings.

use vstd::prelude::*;
use vstd::string::*;

verus! {

/// True when `sep` occurs somewhere inside `s`.
pub open spec fn has_match(s: Seq<char>, sep: Seq<char>) -> bool {
    exists|i: int|
        0 <= i && i + sep.len() <= s.len() && #[trigger] s.subrange(i, i + sep.len() as int) == sep
}

/// The tokens of `s` under separator `sep`, with `cur` the part of the
/// current token read so far: `s` is consumed left to right, and each
/// leftmost, non-overlapping occurrence of `sep` ends a token.
pub open spec fn split_from(s: Seq<char>, sep: Seq<char>, cur: Seq<char>) -> Seq<Seq<char>>
    decreases s.len(),
{
    if sep.len() > 0 && s.len() >= sep.len() && s.subrange(0, sep.len() as int) == sep {
        seq![cur] + split_from(s.skip(sep.len() as int), sep, Seq::<char>::empty())
    } else if s.len() == 0 {
        seq![cur]
    } else {
        split_from(s.skip(1), sep, cur.push(s[0]))
    }
}

/// The tokens of `s` under separator `sep`; there is always at least one,
/// and splitting an empty string yields one empty token.
pub open spec fn split(s: Seq<char>, sep: Seq<char>) -> Seq<Seq<char>> {
    split_from(s, sep, Seq::<char>::empty())
}

/// The parts, re-assembled with `sep` between each adjacent pair.
pub open spec fn join(parts: Seq<Seq<char>>, sep: Seq<char>) -> Seq<char>
    decreases parts.len(),
{
    if parts.len() == 0 {
        Seq::<char>::empty()
    } else if parts.len() == 1 {
        parts[0]
    } else {
        parts[0] + sep + join(parts.skip(1), sep)
    }
}

/// Splitting always yields at least one token.
pub proof fn lemma_split_from_len(s: Seq<char>, sep: Seq<char>, cur: Seq<char>)
    ensures
        split_from(s, sep, cur).len() >= 1,
    decreases s.len(),
{
    if sep.len() > 0 && s.len() >= sep.len() && s.subrange(0, sep.len() as int) == sep {
    } else if s.len() == 0 {
    } else {
        lemma_split_from_len(s.skip(1), sep, cur.push(s[0]));
    }
}

/// Joining what splitting produced restores the original string (with the
/// pending token `cur` put back in front).
pub proof fn lemma_join_split_from(s: Seq<char>, sep: Seq<char>, cur: Seq<char>)
    requires
        sep.len() > 0,
    ensures
        join(split_from(s, sep, cur), sep) == cur + s,
    decreases s.len(),
{
    if s.len() >= sep.len() && s.subrange(0, sep.len() as int) == sep {
        let rest = split_from(s.skip(sep.len() as int), sep, Seq::<char>::empty());
        lemma_split_from_len(s.skip(sep.len() as int), sep, Seq::<char>::empty());
        lemma_join_split_from(s.skip(sep.len() as int), sep, Seq::<char>::empty());
        let parts = seq![cur] + rest;
        assert(parts[0] == cur);
        assert(parts.skip(1) =~= rest);
        assert(join(rest, sep) =~= s.skip(sep.len() as int));
        assert(cur + sep + s.skip(sep.len() as int) =~= cur + s);
    } else if s.len() == 0 {
        assert(cur + s =~= cur);
    } else {
        lemma_join_split_from(s.skip(1), sep, cur.push(s[0]));
        assert(cur.push(s[0]) + s.skip(1) =~= cur + s);
    }
}

/// Joining the split of `s` gives back `s` itself.
pub proof fn lemma_join_split(s: Seq<char>, sep: Seq<char>)
    requires
        sep.len() > 0,
    ensures
        join(split(s, sep), sep) == s,
{
    lemma_join_split_from(s, sep, Seq::<char>::empty());
    assert(Seq::<char>::empty() + s =~= s);
}

/// A string without any occurrence of the separator is a single token.
pub proof fn lemma_split_no_match(s: Seq<char>, sep: Seq<char>, cur: Seq<char>)
    requires
        sep.len() > 0,
        !has_match(s, sep),
    ensures
        split_from(s, sep, cur) == seq![cur + s],
    decreases s.len(),
{
    if s.len() >= sep.len() && s.subrange(0, sep.len() as int) == sep {
        assert(s.subrange(0, 0 + sep.len() as int) == sep);
        assert(has_match(s, sep));
    } else if s.len() == 0 {
        assert(cur + s =~= cur);
        assert(seq![cur + s] =~= seq![cur]);
    } else {
        assert(!has_match(s.skip(1), sep)) by {
            if has_match(s.skip(1), sep) {
                let i = choose|i: int|
                    0 <= i && i + sep.len() <= s.skip(1).len() && #[trigger] s.skip(1).subrange(
                        i,
                        i + sep.len() as int,
                    ) == sep;
                assert(s.subrange(i + 1, i + 1 + sep.len() as int) =~= s.skip(1).subrange(
                    i,
                    i + sep.len() as int,
                ));
            }
        }
        lemma_split_no_match(s.skip(1), sep, cur.push(s[0]));
        assert(cur.push(s[0]) + s.skip(1) =~= cur + s);
    }
}

/// Appending `sep + c` to any string makes `c` the last token, provided the
/// separator is two distinct characters and never occurs inside `c`.
pub proof fn lemma_split_append_last(a: Seq<char>, sep: Seq<char>, c: Seq<char>, cur: Seq<char>)
    requires
        sep.len() == 2,
        sep[0] != sep[1],
        !has_match(c, sep),
    ensures
        split_from(a + sep + c, sep, cur).len() >= 2,
        split_from(a + sep + c, sep, cur).last() == c,
    decreases a.len(),
{
    let s = a + sep + c;
    assert(s.len() == a.len() + 2 + c.len());
    if a.len() == 0 {
        assert(s.subrange(0, 2) =~= sep);
        assert(s.skip(2) =~= c);
        lemma_split_no_match(c, sep, Seq::<char>::empty());
        let parts = seq![cur] + split_from(c, sep, Seq::<char>::empty());
        assert(Seq::<char>::empty() + c =~= c);
        assert(parts.last() == c);
    } else if s.len() >= 2 && s.subrange(0, 2) == sep {
        // The match lies wholly inside `a`: it cannot straddle the boundary,
        // because that would need `sep`'s first character to equal its second.
        assert(s[0] == sep[0] && s[1] == sep[1]);
        if a.len() == 1 {
            assert(s[1] == sep[0]);
            assert(false);
        }
        assert(a.subrange(0, 2) =~= s.subrange(0, 2));
        assert(s.skip(2) =~= a.skip(2) + sep + c);
        lemma_split_append_last(a.skip(2), sep, c, Seq::<char>::empty());
    } else {
        assert(s.len() > 0);
        assert(s.skip(1) =~= a.skip(1) + sep + c);
        lemma_split_append_last(a.skip(1), sep, c, cur.push(s[0]));
    }
}

/// The characters of `s`, as a vector.
pub fn char_vec(s: &str) -> (r: Vec<char>)
    ensures
        r@ == s@,
{
    let n = s.unicode_len();
    let mut r: Vec<char> = Vec::new();
    let mut i: usize = 0;
    while i < n
        invariant
            i <= n,
            n == s@.len(),
            r@ == s@.subrange(0, i as int),
        decreases n - i,
    {
        let c = s.get_char(i);
        r.push(c);
        proof {
            assert(r@ =~= s@.subrange(0, i + 1));
        }
        i = i + 1;
    }
    proof {
        assert(r@ =~= s@);
    }
    r
}

/// Whether `a` and `b` hold the same characters.
pub fn str_eq(a: &str, b: &str) -> (r: bool)
    ensures
        r == (a@ == b@),
{
    let na = a.unicode_len();
    let nb = b.unicode_len();
    if na != nb {
        return false;
    }
    let mut i: usize = 0;
    while i < na
        invariant
            i <= na,
            na == a@.len(),
            na == b@.len(),
            forall|k: int| 0 <= k < i ==> a@[k] == b@[k],
        decreases na - i,
    {
        if a.get_char(i) != b.get_char(i) {
            return false;
        }
        i = i + 1;
    }
    proof {
        assert(a@ =~= b@);
    }
    true
}

/// Whether `sep` occurs in `s` starting at position `i`.
fn match_at(s: &Vec<char>, sep: &Vec<char>, i: usize) -> (r: bool)
    requires
        i + sep@.len() <= s@.len(),
    ensures
        r == (s@.subrange(i as int, i + sep@.len() as int) == sep@),
{
    let n = sep.len();
    let slen = s.len();
    let mut j: usize = 0;
    while j < n
        invariant
            j <= n,
            n == sep@.len(),
            slen == s@.len(),
            i + n <= slen,
            forall|k: int| 0 <= k < j ==> s@[i + k] == sep@[k],
        decreases n - j,
    {
        if s[i + j] != sep[j] {
            proof {
                assert(s@.subrange(i as int, i + sep@.len() as int)[j as int] != sep@[j as int]);
            }
            return false;
        }
        j = j + 1;
    }
    proof {
        assert(s@.subrange(i as int, i + sep@.len() as int) =~= sep@);
    }
    true
}

/// Splits `s` at each leftmost occurrence of `sep`, mirroring [`split`].
pub fn split_str(s: &str, sep: &str) -> (r: Vec<String>)
    requires
        sep@.len() > 0,
    ensures
        r@.len() == split(s@, sep@).len(),
        forall|k: int| 0 <= k < r@.len() ==> #[trigger] r@[k]@ == split(s@, sep@)[k],
        r@.len() >= 1,
{
    let cs = char_vec(s);
    let cseps = char_vec(sep);
    let n = cs.len();
    let nsep = cseps.len();
    let mut out: Vec<String> = Vec::new();
    let mut ts: usize = 0;
    let mut i: usize = 0;
    proof {
        assert(s@.skip(0) =~= s@);
        assert(s@.subrange(0, 0) =~= Seq::<char>::empty());
        assert(split(s@, sep@).skip(0) =~= split(s@, sep@));
    }
    while i < n
        invariant
            ts <= i <= n,
            n == s@.len(),
            nsep == sep@.len(),
            nsep > 0,
            cs@ == s@,
            cseps@ == sep@,
            forall|k: int| 0 <= k < out@.len() ==> #[trigger] out@[k]@ == split(s@, sep@)[k],
            out@.len() + split_from(
                s@.skip(i as int),
                sep@,
                s@.subrange(ts as int, i as int),
            ).len() == split(s@, sep@).len(),
            split_from(s@.skip(i as int), sep@, s@.subrange(ts as int, i as int)) == split(
                s@,
                sep@,
            ).skip(out@.len() as int),
        decreases n - i,
    {
        if n - i >= nsep && match_at(&cs, &cseps, i) {
            let tok = s.substring_char(ts, i);
            let ghost old_out_len = out@.len();
            out.push(String::from_str(tok));
            proof {
                let rem = s@.skip(i as int);
                let cur = s@.subrange(ts as int, i as int);
                assert(rem.subrange(0, sep@.len() as int) =~= s@.subrange(
                    i as int,
                    i + sep@.len() as int,
                ));
                assert(rem.skip(sep@.len() as int) =~= s@.skip(i + nsep));
                assert(split_from(rem, sep@, cur) == seq![cur] + split_from(
                    s@.skip(i + nsep),
                    sep@,
                    Seq::<char>::empty(),
                ));
                let tail = split(s@, sep@).skip(old_out_len as int);
                assert(tail[0] == cur);
                assert(split(s@, sep@)[old_out_len as int] == cur);
                assert(tail.skip(1) =~= split(s@, sep@).skip(old_out_len + 1 as int));
                assert(s@.subrange((i + nsep) as int, (i + nsep) as int) =~= Seq::<
                    char,
                >::empty());
            }
            i = i + nsep;
            ts = i;
        } else {
            proof {
                let rem = s@.skip(i as int);
                let cur = s@.subrange(ts as int, i as int);
                assert(rem.len() > 0);
                if rem.len() >= sep@.len() && rem.subrange(0, sep@.len() as int) == sep@ {
                    assert(n - i >= nsep);
                    assert(rem.subrange(0, sep@.len() as int) =~= s@.subrange(
                        i as int,
                        i + sep@.len() as int,
                    ));
                    assert(false);
                }
                assert(split_from(rem, sep@, cur) == split_from(
                    rem.skip(1),
                    sep@,
                    cur.push(rem[0]),
                ));
                assert(rem.skip(1) =~= s@.skip(i + 1));
                assert(cur.push(rem[0]) =~= s@.subrange(ts as int, i + 1));
            }
            i = i + 1;
        }
    }
    let tok = s.substring_char(ts, n);
    out.push(String::from_str(tok));
    proof {
        let cur = s@.subrange(ts as int, n as int);
        assert(s@.skip(n as int).len() == 0);
        assert(split_from(s@.skip(n as int), sep@, cur) == seq![cur]);
        let total = split(s@, sep@);
        assert(total.skip((out@.len() - 1) as int)[0] == cur);
        assert(total[out@.len() - 1] == cur);
    }
    out
}

} // verus!
