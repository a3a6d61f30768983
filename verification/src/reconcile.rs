//! The reconciliation driver: one pass over the full dataset against the
//! crawled roster. Roster members get the membership merge, everyone else
//! the departure merge, and roster identities absent from the dataset get
//! a synthetic record appended. The pass is all-or-nothing: the first
//! malformed history aborts it with no partial result.

use vstd::prelude::*;
use vstd::string::*;

use crate::dates::CalendarDate;
use crate::history::HistoryError;
use crate::history::company;
use crate::history::malformed_token;
use crate::record::GitHubUser;
use crate::record::GitHubUserView;
use crate::record::applied_record;
use crate::record::clone_user;
use crate::record::removed_record;
use crate::record::set_pingcap_affiliation;
use crate::record::remove_pingcap_affiliation;
use crate::roster::lower_of;
use crate::roster::lowercase_str;
use crate::roster::roster_has;
use crate::split::str_eq;

verus! {

/// The views of a record vector.
pub open spec fn views_of(records: Seq<GitHubUser>) -> Seq<GitHubUserView> {
    records.map_values(|u: GitHubUser| u@)
}

/// The driver's membership test: whether the roster holds the lower-cased
/// login. Logins are compared case-insensitively.
pub open spec fn member_of_roster(roster: Seq<String>, login: Seq<char>) -> bool {
    roster_has(roster, lower_of(login))
}

/// The fate of one existing record: the membership merge when its identity
/// is on the roster, the departure merge (dated `d`) otherwise.
pub open spec fn passed_record(u: GitHubUserView, roster: Seq<String>, d: CalendarDate) -> Result<
    GitHubUserView,
    (),
> {
    if member_of_roster(roster, u.login) {
        applied_record(u)
    } else {
        Ok(removed_record(u, d))
    }
}

/// Whether some existing record's identity is the roster entry `e`.
pub open spec fn entry_matched(records: Seq<GitHubUserView>, e: Seq<char>) -> bool {
    exists|i: int| 0 <= i < records.len() && lower_of(#[trigger] records[i].login) == e
}

/// The fixed suffix of a synthesized record's email address.
pub open spec fn email_suffix() -> Seq<char> {
    seq![
        '!', 'u', 's', 'e', 'r', 's', '.', 'n', 'o', 'r', 'e', 'p', 'l', 'y', '.', 'g', 'i',
        't', 'h', 'u', 'b', '.', 'c', 'o', 'm',
    ]
}

/// The source recorded on a synthesized record.
pub open spec fn manual_source() -> Seq<char> {
    seq!['m', 'a', 'n', 'u', 'a', 'l']
}

/// The synthetic record for a roster identity absent from the dataset:
/// affiliated to the company, sourced `"manual"`, marked modified, all
/// other fields empty.
pub open spec fn synth_view(login: Seq<char>) -> GitHubUserView {
    GitHubUserView {
        login: login,
        email: login + email_suffix(),
        affiliation: Some(company()),
        source: Some(manual_source()),
        name: None,
        commits: 0,
        location: None,
        country_id: None,
        modified_by_affiliations: Some(true),
    }
}

/// The synthetic records for the roster entries matched by no existing
/// record, in roster order.
pub open spec fn synthesized(records: Seq<GitHubUserView>, roster: Seq<String>) -> Seq<
    GitHubUserView,
>
    decreases roster.len(),
{
    if roster.len() == 0 {
        Seq::<GitHubUserView>::empty()
    } else {
        (if entry_matched(records, roster[0]@) {
            Seq::<GitHubUserView>::empty()
        } else {
            seq![synth_view(roster[0]@)]
        }) + synthesized(records, roster.skip(1))
    }
}

/// The merge of record `i` fails, and it is the first to do so.
pub open spec fn pass_fails_at(
    records: Seq<GitHubUserView>,
    roster: Seq<String>,
    d: CalendarDate,
    i: int,
) -> bool {
    &&& 0 <= i < records.len()
    &&& passed_record(records[i], roster, d) is Err
    &&& forall|j: int| 0 <= j < i ==> #[trigger] passed_record(records[j], roster, d) is Ok
}

/// Whether some existing record's identity is the roster entry `e`.
fn some_record_matches(records: &Vec<GitHubUser>, e: &str) -> (r: bool)
    ensures
        r == entry_matched(views_of(records@), e@),
{
    let n = records.len();
    let mut i: usize = 0;
    while i < n
        invariant
            i <= n,
            n == records@.len(),
            forall|k: int| 0 <= k < i ==> lower_of(#[trigger] views_of(records@)[k].login) != e@,
        decreases n - i,
    {
        let low = lowercase_str(records[i].login.as_str());
        if str_eq(low.as_str(), e) {
            proof {
                assert(lower_of(views_of(records@)[i as int].login) == e@);
            }
            return true;
        }
        i = i + 1;
    }
    false
}

/// The synthetic record for the roster identity `login`.
fn synth_user(login: &String) -> (r: GitHubUser)
    ensures
        r@ == synth_view(login@),
{
    proof {
        reveal_strlit("!users.noreply.github.com");
        reveal_strlit("PingCAP");
        reveal_strlit("manual");
        assert("!users.noreply.github.com"@ =~= email_suffix());
        assert("PingCAP"@ =~= company());
        assert("manual"@ =~= manual_source());
    }
    let mut email = login.clone();
    email.append("!users.noreply.github.com");
    GitHubUser {
        login: login.clone(),
        email,
        affiliation: Some(String::from_str("PingCAP")),
        source: Some(String::from_str("manual")),
        name: None,
        commits: 0,
        location: None,
        country_id: None,
        modified_by_affiliations: Some(true),
    }
}

/// One full reconciliation pass. The result holds every input record,
/// in order, after its merge, followed by the synthetic records for the
/// unmatched roster entries, in roster order. The pass fails on the first
/// record whose multi-token history lacks the expected date marker, and
/// then produces nothing.
pub fn reconcile(records: Vec<GitHubUser>, roster: &Vec<String>, today: &CalendarDate) -> (r:
    Result<Vec<GitHubUser>, HistoryError>)
    requires
        today.wf(),
    ensures
        match r {
            Ok(out) => {
                &&& out@.len() == records@.len() + synthesized(views_of(records@), roster@).len()
                &&& forall|i: int|
                    0 <= i < records@.len() ==> #[trigger] passed_record(
                        views_of(records@)[i],
                        roster@,
                        *today,
                    ) == Ok::<GitHubUserView, ()>(views_of(out@)[i])
                &&& views_of(out@).skip(records@.len() as int) == synthesized(
                    views_of(records@),
                    roster@,
                )
            },
            Err(e) => exists|i: int|
                {
                    &&& #[trigger] pass_fails_at(views_of(records@), roster@, *today, i)
                    &&& views_of(records@)[i].affiliation matches Some(a) && (e matches
                        HistoryError::MalformedHistory { token } && token@ == malformed_token(a))
                },
        },
{
    let ghost rv = views_of(records@);
    let n = records.len();
    let mut out: Vec<GitHubUser> = Vec::new();
    let mut idx: usize = 0;
    while idx < n
        invariant
            idx <= n,
            n == records@.len(),
            rv == views_of(records@),
            today.wf(),
            out@.len() == idx,
            forall|i: int|
                0 <= i < idx ==> #[trigger] passed_record(rv[i], roster@, *today) == Ok::<
                    GitHubUserView,
                    (),
                >(views_of(out@)[i]),
        decreases n - idx,
    {
        let u = &records[idx];
        let key = lowercase_str(u.login.as_str());
        let mut nu = clone_user(u);
        let ghost out0 = out@;
        if crate::roster::roster_contains(roster, key.as_str()) {
            match set_pingcap_affiliation(&mut nu) {
                Ok(()) => {
                    out.push(nu);
                },
                Err(e) => {
                    proof {
                        assert(pass_fails_at(rv, roster@, *today, idx as int));
                    }
                    return Err(e);
                },
            }
        } else {
            remove_pingcap_affiliation(&mut nu, today);
            out.push(nu);
        }
        proof {
            assert(views_of(out@).len() == out0.len() + 1);
            assert(forall|i: int|
                0 <= i < out0.len() ==> views_of(out@)[i] == #[trigger] views_of(out0)[i]);
            assert(passed_record(rv[idx as int], roster@, *today) == Ok::<GitHubUserView, ()>(
                views_of(out@)[idx as int],
            ));
        }
        idx = idx + 1;
    }
    let ghost total_synth = synthesized(rv, roster@);
    let m = roster.len();
    let mut j: usize = 0;
    proof {
        assert(roster@.skip(0) =~= roster@);
        assert(total_synth.skip(0) =~= total_synth);
    }
    while j < m
        invariant
            j <= m,
            m == roster@.len(),
            n == records@.len(),
            rv == views_of(records@),
            total_synth == synthesized(rv, roster@),
            out@.len() >= n,
            out@.len() == n + (total_synth.len() - synthesized(rv, roster@.skip(j as int)).len()),
            forall|i: int|
                0 <= i < n ==> #[trigger] passed_record(rv[i], roster@, *today) == Ok::<
                    GitHubUserView,
                    (),
                >(views_of(out@)[i]),
            forall|k: int|
                n <= k < out@.len() ==> #[trigger] views_of(out@)[k] == total_synth[k - n],
            synthesized(rv, roster@.skip(j as int)) == total_synth.skip((out@.len() - n) as int),
        decreases m - j,
    {
        proof {
            assert(roster@.skip(j as int)[0] == roster@[j as int]);
            assert(roster@.skip(j as int).skip(1) =~= roster@.skip(j + 1));
        }
        let entry = &roster[j];
        let ghost out0 = out@;
        if !some_record_matches(&records, entry.as_str()) {
            let nu = synth_user(entry);
            out.push(nu);
            proof {
                let done = (out0.len() - n) as int;
                let head = seq![synth_view(roster@[j as int]@)];
                let tail = synthesized(rv, roster@.skip(j + 1));
                assert(head + tail =~= total_synth.skip(done));
                assert(total_synth.skip(done)[0] == total_synth[done]);
                assert(forall|i: int|
                    0 <= i < out0.len() ==> views_of(out@)[i] == #[trigger] views_of(out0)[i]);
                assert(views_of(out@)[out0.len() as int] == total_synth[done]);
                assert forall|k: int| n <= k < out@.len() implies #[trigger] views_of(out@)[k]
                    == total_synth[k - n] by {
                    if k < out0.len() {
                        assert(views_of(out@)[k] == views_of(out0)[k]);
                    }
                }
                assert((head + tail).skip(1) =~= tail);
                assert(total_synth.skip(done).skip(1) =~= total_synth.skip(done + 1));
            }
        } else {
            proof {
                assert(Seq::<GitHubUserView>::empty() + synthesized(rv, roster@.skip(j + 1))
                    =~= synthesized(rv, roster@.skip(j + 1)));
            }
        }
        j = j + 1;
    }
    proof {
        assert(roster@.skip(m as int).len() == 0);
        assert(synthesized(rv, roster@.skip(m as int)).len() == 0);
        assert(views_of(out@).skip(n as int) =~= synthesized(rv, roster@)) by {
            assert(forall|k: int|
                n <= k < out@.len() ==> #[trigger] views_of(out@)[k] == total_synth[k - n]);
        }
    }
    Ok(out)
}

/// Case-insensitive roster matching: two logins with the same lowercase
/// form are treated identically by the driver's membership test.
pub proof fn lemma_match_case_insensitive(roster: Seq<String>, a: Seq<char>, b: Seq<char>)
    requires
        lower_of(a) == lower_of(b),
    ensures
        member_of_roster(roster, a) == member_of_roster(roster, b),
{
}

} // verus!
