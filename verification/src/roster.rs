//! The roster: the set of lower-cased external identities currently
//! affiliated with the company, rebuilt fresh on every pass and never
//! persisted.

use vstd::prelude::*;
use vstd::string::*;

use crate::split::str_eq;

verus! {

/// The Unicode lowercase form of `s`: what `str::to_lowercase` returns,
/// a function of the characters alone.
pub uninterp spec fn lower_of(s: Seq<char>) -> Seq<char>;

/// `s` without leading and trailing whitespace: what `str::trim` returns,
/// a function of the characters alone.
pub uninterp spec fn trim_of(s: Seq<char>) -> Seq<char>;

/// Relies on str::to_lowercase: the lowercase equivalent of the string,
/// per the Unicode Lowercase property; it depends on the characters alone.
#[verifier::external_body]
pub fn lowercase_str(s: &str) -> (r: String)
    ensures
        r@ == lower_of(s@),
{
    s.to_lowercase()
}

/// Relies on str::trim: the string with leading and trailing whitespace
/// removed; it depends on the characters alone.
#[verifier::external_body]
pub fn trim_str(s: &str) -> (r: &str)
    ensures
        r@ == trim_of(s@),
{
    s.trim()
}

/// The normal form under which identities are compared: lower-cased after
/// trimming.
pub open spec fn normalized(s: Seq<char>) -> Seq<char> {
    lower_of(trim_of(s))
}

/// Whether `v` is the normal form of one of the raw values `logins`.
pub open spec fn normalized_input(logins: Seq<String>, v: Seq<char>) -> bool {
    exists|j: int| 0 <= j < logins.len() && v == normalized(#[trigger] logins[j]@)
}

/// Whether some entry of `roster` holds exactly the characters `l`.
pub open spec fn roster_has(roster: Seq<String>, l: Seq<char>) -> bool {
    exists|i: int| 0 <= i < roster.len() && roster[i]@ == l
}

/// Whether `roster` holds an entry equal to `l`.
pub fn roster_contains(roster: &Vec<String>, l: &str) -> (r: bool)
    ensures
        r == roster_has(roster@, l@),
{
    let n = roster.len();
    let mut i: usize = 0;
    while i < n
        invariant
            i <= n,
            n == roster@.len(),
            forall|k: int| 0 <= k < i ==> roster@[k]@ != l@,
        decreases n - i,
    {
        if str_eq(roster[i].as_str(), l) {
            return true;
        }
        i = i + 1;
    }
    false
}

/// Builds the roster from the raw identity values of a crawl: each value
/// trimmed and lower-cased, with duplicates dropped, so that the same
/// identity reported by several departments appears exactly once.
pub fn build_roster(logins: &Vec<String>) -> (r: Vec<String>)
    ensures
        forall|i: int| 0 <= i < r@.len() ==> normalized_input(logins@, #[trigger] r@[i]@),
        forall|j: int| 0 <= j < logins@.len() ==> roster_has(r@, normalized(#[trigger] logins@[j]@)),
        forall|i: int, k: int| 0 <= i < k < r@.len() ==> r@[i]@ != r@[k]@,
{
    let mut r: Vec<String> = Vec::new();
    let ghost mut src: Seq<int> = Seq::empty();
    let n = logins.len();
    let mut j: usize = 0;
    while j < n
        invariant
            j <= n,
            n == logins@.len(),
            src.len() == r@.len(),
            forall|i: int|
                0 <= i < r@.len() ==> 0 <= #[trigger] src[i] < j && r@[i]@ == normalized(
                    logins@[src[i]]@,
                ),
            forall|jj: int|
                0 <= jj < j ==> roster_has(r@, normalized(#[trigger] logins@[jj]@)),
            forall|i: int, k: int| 0 <= i < k < r@.len() ==> r@[i]@ != r@[k]@,
        decreases n - j,
    {
        let t = trim_str(logins[j].as_str());
        let low = lowercase_str(t);
        if !roster_contains(&r, low.as_str()) {
            let ghost r0 = r@;
            r.push(low);
            proof {
                src = src.push(j as int);
                assert(r@[r@.len() - 1]@ == normalized(logins@[j as int]@));
                assert forall|jj: int| 0 <= jj < j + 1 implies roster_has(
                    r@,
                    normalized(#[trigger] logins@[jj]@),
                ) by {
                    if jj < j {
                        let w = choose|i: int|
                            0 <= i < r0.len() && r0[i]@ == normalized(logins@[jj]@);
                        assert(r@[w]@ == normalized(logins@[jj]@));
                    } else {
                        assert(r@[r@.len() - 1]@ == normalized(logins@[jj]@));
                    }
                }
            }
        } else {
            proof {
                assert(roster_has(r@, normalized(logins@[j as int]@)));
            }
        }
        j = j + 1;
    }
    proof {
        assert forall|i: int| 0 <= i < r@.len() implies normalized_input(
            logins@,
            #[trigger] r@[i]@,
        ) by {
            assert(0 <= src[i] < n && r@[i]@ == normalized(logins@[src[i]]@));
        }
    }
    r
}

} // verus!
