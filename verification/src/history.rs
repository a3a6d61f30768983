//! The affiliation-timeline merge: given one identity's free-text,
//! comma-separated, date-annotated affiliation history, produce the next
//! version of that history when the identity joins or leaves the company.
//!
//! A history is an ordered list of tokens separated by `", "`; a token is
//! either a bare company name (the current affiliation, always last) or
//! `"<company> < <date>"`, meaning that membership ended on that date.

use vstd::prelude::*;
use vstd::string::*;

use crate::dates::CalendarDate;
use crate::dates::date_chars;
use crate::dates::format_date;
use crate::split::has_match;
use crate::split::join;
use crate::split::lemma_join_split;
use crate::split::lemma_split_append_last;
use crate::split::lemma_split_no_match;
use crate::split::split;
use crate::split::split_str;
use crate::split::str_eq;

verus! {

/// The company whose membership this engine records.
pub open spec fn company() -> Seq<char> {
    seq!['P', 'i', 'n', 'g', 'C', 'A', 'P']
}

/// The affiliation recorded for an identity that left the company.
pub open spec fn independent() -> Seq<char> {
    seq!['I', 'n', 'd', 'e', 'p', 'e', 'n', 'd', 'e', 'n', 't']
}

/// The separator between two tokens of a history.
pub open spec fn company_sep() -> Seq<char> {
    seq![',', ' ']
}

/// The marker between a token's company name and its end date.
pub open spec fn date_sep() -> Seq<char> {
    seq![' ', '<', ' ']
}

/// The synthetic end date given to a single undated token when the company
/// is appended behind it; the true join date is unknown.
pub open spec fn placeholder_date() -> Seq<char> {
    seq!['2', '0', '1', '5', '-', '0', '9', '-', '0', '6']
}

/// The fixed placeholder strings that mean "no real affiliation recorded".
pub open spec fn is_sentinel(s: Seq<char>) -> bool {
    ||| s == Seq::<char>::empty()
    ||| s == seq!['-']
    ||| s == seq!['(', 'U', 'n', 'k', 'n', 'o', 'w', 'n', ')']
    ||| s == seq!['N', 'o', 't', 'F', 'o', 'u', 'n', 'd']
}

/// The tokens of a history string.
pub open spec fn tokens(s: Seq<char>) -> Seq<Seq<char>> {
    split(s, company_sep())
}

/// The pieces of one token around its date markers.
pub open spec fn token_parts(t: Seq<char>) -> Seq<Seq<char>> {
    split(t, date_sep())
}

/// Whether a token carries a date marker.
pub open spec fn token_has_date(t: Seq<char>) -> bool {
    token_parts(t).len() >= 2
}

/// Everything after a token's first date marker: its recorded end date.
pub open spec fn token_date(t: Seq<char>) -> Seq<char> {
    t.skip(token_parts(t)[0].len() + date_sep().len() as int)
}

/// The penultimate token, whose missing date marker makes a multi-token
/// merge fail.
pub open spec fn malformed_token(s: Seq<char>) -> Seq<char> {
    tokens(s)[tokens(s).len() - 2]
}

/// The next history for an identity that is currently a member, per the
/// merge rules:
/// - a sentinel history is replaced by the bare company name;
/// - a history already ending in the company is left unchanged (`None`);
/// - with two or more tokens, the last token is dated with the
///   penultimate's end date and the company is appended — unless the
///   penultimate lacks a date marker, a data-integrity fault (`Err`);
/// - a single foreign token is dated with the placeholder date and the
///   company is appended.
pub open spec fn next_affiliation(s: Seq<char>) -> Result<Option<Seq<char>>, ()> {
    if is_sentinel(s) {
        Ok(Some(company()))
    } else {
        let ts = tokens(s);
        if ts.last() == company() {
            Ok(None)
        } else if ts.len() >= 2 {
            if token_has_date(ts[ts.len() - 2]) {
                Ok(
                    Some(
                        s + date_sep() + token_date(ts[ts.len() - 2]) + company_sep() + company(),
                    ),
                )
            } else {
                Err(())
            }
        } else if ts.len() == 1 {
            Ok(Some(s + date_sep() + placeholder_date() + company_sep() + company()))
        } else {
            Ok(Some(company()))
        }
    }
}

/// The next history for an identity that is no longer a member: only a
/// history whose last token is the bare company name changes, the company
/// token is dated `d` and `"Independent"` is appended; `None` means no
/// change.
pub open spec fn removed_affiliation(s: Seq<char>, d: Seq<char>) -> Option<Seq<char>> {
    if is_sentinel(s) {
        None
    } else if tokens(s).last() != company() {
        None
    } else {
        Some(s + date_sep() + d + company_sep() + independent())
    }
}

/// The penultimate token of a malformed multi-token history, carried in the
/// error that aborts a reconciliation pass.
#[derive(Debug, PartialEq, Eq)]
pub enum HistoryError {
    MalformedHistory { token: String },
}

/// Whether `s` is one of the sentinel placeholder strings.
pub fn is_sentinel_str(s: &str) -> (r: bool)
    ensures
        r == is_sentinel(s@),
{
    let r = str_eq(s, "") || str_eq(s, "-") || str_eq(s, "(Unknown)") || str_eq(s, "NotFound");
    proof {
        reveal_strlit("");
        reveal_strlit("-");
        reveal_strlit("(Unknown)");
        reveal_strlit("NotFound");
        assert(""@ =~= Seq::<char>::empty());
        assert("-"@ =~= seq!['-']);
        assert("(Unknown)"@ =~= seq!['(', 'U', 'n', 'k', 'n', 'o', 'w', 'n', ')']);
        assert("NotFound"@ =~= seq!['N', 'o', 't', 'F', 'o', 'u', 'n', 'd']);
    }
    r
}

/// Computes the next affiliation history for a current member; `Ok(None)`
/// means the history already ends in the company and nothing changes.
/// Mirrors [`next_affiliation`].
pub fn generate_new_affiliation_with_pingcap(affiliation: &str) -> (r: Result<
    Option<String>,
    HistoryError,
>)
    ensures
        match r {
            Ok(o) => match o {
                None => next_affiliation(affiliation@) == Ok::<Option<Seq<char>>, ()>(None),
                Some(n) => next_affiliation(affiliation@) == Ok::<Option<Seq<char>>, ()>(
                    Some(n@),
                ),
            },
            Err(e) => next_affiliation(affiliation@) is Err && (e matches
                HistoryError::MalformedHistory { token } && token@ == malformed_token(
                    affiliation@,
                )),
        },
{
    proof {
        reveal_strlit("PingCAP");
        reveal_strlit(", ");
        reveal_strlit(" < ");
        reveal_strlit("2015-09-06");
        assert("PingCAP"@ =~= company());
        assert(", "@ =~= company_sep());
        assert(" < "@ =~= date_sep());
        assert("2015-09-06"@ =~= placeholder_date());
    }
    if is_sentinel_str(affiliation) {
        return Ok(Some(String::from_str("PingCAP")));
    }
    let parts = split_str(affiliation, ", ");
    let n = parts.len();
    let last = &parts[n - 1];
    proof {
        assert(tokens(affiliation@).last() == tokens(affiliation@)[n - 1]);
    }
    if str_eq(last.as_str(), "PingCAP") {
        return Ok(None);
    }
    if n >= 2 {
        let pen = &parts[n - 2];
        let pparts = split_str(pen.as_str(), " < ");
        if pparts.len() >= 2 {
            proof {
                lemma_join_split(pen@, date_sep());
            }
            let k = pparts[0].as_str().unicode_len();
            let pn = pen.as_str().unicode_len();
            proof {
                let tp = token_parts(pen@);
                assert(join(tp, date_sep()) == tp[0] + date_sep() + join(
                    tp.skip(1),
                    date_sep(),
                ));
                assert(pen@.len() == k + 3 + join(tp.skip(1), date_sep()).len());
            }
            let date = pen.as_str().substring_char(k + 3, pn);
            proof {
                assert(date@ =~= token_date(tokens(affiliation@)[n - 2]));
            }
            let mut out = String::from_str(affiliation);
            out.append(" < ");
            out.append(date);
            out.append(", ");
            out.append("PingCAP");
            proof {
                assert(out@ =~= affiliation@ + date_sep() + token_date(
                    tokens(affiliation@)[n - 2],
                ) + company_sep() + company());
            }
            return Ok(Some(out));
        } else {
            return Err(HistoryError::MalformedHistory { token: pen.clone() });
        }
    }
    let mut out = String::from_str(affiliation);
    out.append(" < ");
    out.append("2015-09-06");
    out.append(", ");
    out.append("PingCAP");
    proof {
        assert(out@ =~= affiliation@ + date_sep() + placeholder_date() + company_sep()
            + company());
    }
    Ok(Some(out))
}

/// Computes the history for an identity that is no longer a member: the
/// trailing bare company token is dated `today` and `"Independent"` is
/// appended; `None` means the history records no current membership, so
/// nothing changes. Mirrors [`removed_affiliation`].
pub fn generate_affiliation_without_pingcap(affiliation: &str, today: &CalendarDate) -> (r:
    Option<String>)
    requires
        today.wf(),
    ensures
        match r {
            None => removed_affiliation(affiliation@, date_chars(*today)) is None,
            Some(n) => removed_affiliation(affiliation@, date_chars(*today)) == Some(n@),
        },
{
    proof {
        reveal_strlit("PingCAP");
        reveal_strlit(", ");
        reveal_strlit(" < ");
        reveal_strlit("Independent");
        assert("PingCAP"@ =~= company());
        assert(", "@ =~= company_sep());
        assert(" < "@ =~= date_sep());
        assert("Independent"@ =~= independent());
    }
    if is_sentinel_str(affiliation) {
        return None;
    }
    let parts = split_str(affiliation, ", ");
    let n = parts.len();
    let last = &parts[n - 1];
    proof {
        assert(tokens(affiliation@).last() == tokens(affiliation@)[n - 1]);
    }
    if !str_eq(last.as_str(), "PingCAP") {
        return None;
    }
    let ds = format_date(today);
    let mut out = String::from_str(affiliation);
    out.append(" < ");
    out.append(ds.as_str());
    out.append(", ");
    out.append("Independent");
    proof {
        assert(out@ =~= affiliation@ + date_sep() + date_chars(*today) + company_sep()
            + independent());
    }
    Some(out)
}

/// The token separator never occurs inside the company name.
pub proof fn lemma_company_no_sep()
    ensures
        !has_match(company(), company_sep()),
{
    if has_match(company(), company_sep()) {
        let i = choose|i: int|
            0 <= i && i + company_sep().len() <= company().len() && #[trigger] company().subrange(
                i,
                i + company_sep().len() as int,
            ) == company_sep();
        assert(company().subrange(i, i + company_sep().len() as int)[0] == company()[i]);
        assert(company()[i] == ',');
        assert(false);
    }
}

/// The company name alone is a single token: no separator occurs in it.
pub proof fn lemma_company_single_token()
    ensures
        tokens(company()) == seq![company()],
{
    lemma_company_no_sep();
    lemma_split_no_match(company(), company_sep(), Seq::<char>::empty());
    assert(Seq::<char>::empty() + company() =~= company());
}

/// Any history of the form `a + ", PingCAP"` ends in the bare company
/// token.
pub proof fn lemma_company_is_last_token(a: Seq<char>)
    ensures
        tokens(a + company_sep() + company()).len() >= 2,
        tokens(a + company_sep() + company()).last() == company(),
{
    lemma_company_no_sep();
    lemma_split_append_last(a, company_sep(), company(), Seq::<char>::empty());
}

/// Sentinel normalization: every sentinel history is replaced by the bare
/// company name, and counts as a modification.
pub proof fn lemma_sentinel_normalized(s: Seq<char>)
    requires
        is_sentinel(s),
    ensures
        next_affiliation(s) == Ok::<Option<Seq<char>>, ()>(Some(company())),
{
}

/// No-op removal: a history that is a sentinel, or whose last token is not
/// the bare company name, is left untouched by the departure merge.
pub proof fn lemma_removal_noop(s: Seq<char>, d: Seq<char>)
    requires
        is_sentinel(s) || tokens(s).last() != company(),
    ensures
        removed_affiliation(s, d) is None,
{
}

/// Idempotence: a history that the membership merge has just produced is
/// already current, so merging it again changes nothing.
pub proof fn lemma_next_affiliation_idempotent(s: Seq<char>, n: Seq<char>)
    requires
        next_affiliation(s) == Ok::<Option<Seq<char>>, ()>(Some(n)),
    ensures
        next_affiliation(n) == Ok::<Option<Seq<char>>, ()>(None),
{
    lemma_produced_ends_in_company(s, n);
}

/// Round trip: a history that the membership merge has just produced is a
/// current membership, so the departure merge always retracts it, dating
/// the company token `d` and appending `"Independent"`.
pub proof fn lemma_membership_round_trip(s: Seq<char>, n: Seq<char>, d: Seq<char>)
    requires
        next_affiliation(s) == Ok::<Option<Seq<char>>, ()>(Some(n)),
    ensures
        removed_affiliation(n, d) == Some(n + date_sep() + d + company_sep() + independent()),
{
    lemma_produced_ends_in_company(s, n);
}

/// Every history the membership merge produces is a non-sentinel string
/// whose last token is the bare company name.
proof fn lemma_produced_ends_in_company(s: Seq<char>, n: Seq<char>)
    requires
        next_affiliation(s) == Ok::<Option<Seq<char>>, ()>(Some(n)),
    ensures
        !is_sentinel(n),
        tokens(n).last() == company(),
{
    if n == company() {
        lemma_company_single_token();
    } else {
        let ts = tokens(s);
        if ts.len() >= 2 && ts.last() != company() {
            lemma_company_is_last_token(s + date_sep() + token_date(ts[ts.len() - 2]));
        } else {
            lemma_company_is_last_token(s + date_sep() + placeholder_date());
        }
    }
}

} // verus!
