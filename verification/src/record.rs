//! Identity records of the dataset, and the membership merge applied to a
//! single record.

use vstd::prelude::*;
use vstd::string::*;

use crate::dates::CalendarDate;
use crate::dates::date_chars;
use crate::history::HistoryError;
use crate::history::company;
use crate::history::generate_affiliation_without_pingcap;
use crate::history::generate_new_affiliation_with_pingcap;
use crate::history::lemma_company_single_token;
use crate::history::lemma_next_affiliation_idempotent;
use crate::history::malformed_token;
use crate::history::next_affiliation;
use crate::history::removed_affiliation;

verus! {

/// One identity record of the dataset: an external login with its
/// affiliation history. A login may appear in several records; records are
/// read and written as a whole collection.
#[derive(Debug)]
pub struct GitHubUser {
    pub login: String,
    pub email: String,
    pub affiliation: Option<String>,
    pub source: Option<String>,
    pub name: Option<String>,
    pub commits: i64,
    pub location: Option<String>,
    pub country_id: Option<String>,
    pub modified_by_affiliations: Option<bool>,
}

/// The mathematical value of a record: every text field as its character
/// sequence.
pub struct GitHubUserView {
    pub login: Seq<char>,
    pub email: Seq<char>,
    pub affiliation: Option<Seq<char>>,
    pub source: Option<Seq<char>>,
    pub name: Option<Seq<char>>,
    pub commits: i64,
    pub location: Option<Seq<char>>,
    pub country_id: Option<Seq<char>>,
    pub modified_by_affiliations: Option<bool>,
}

/// The view of one optional text field.
pub open spec fn opt_view(o: Option<String>) -> Option<Seq<char>> {
    match o {
        None => None,
        Some(s) => Some(s@),
    }
}

impl View for GitHubUser {
    type V = GitHubUserView;

    open spec fn view(&self) -> GitHubUserView {
        GitHubUserView {
            login: self.login@,
            email: self.email@,
            affiliation: opt_view(self.affiliation),
            source: opt_view(self.source),
            name: opt_view(self.name),
            commits: self.commits,
            location: opt_view(self.location),
            country_id: opt_view(self.country_id),
            modified_by_affiliations: self.modified_by_affiliations,
        }
    }
}

/// `u` with its affiliation history replaced by `a` and marked modified.
pub open spec fn with_affiliation(u: GitHubUserView, a: Seq<char>) -> GitHubUserView {
    GitHubUserView { affiliation: Some(a), modified_by_affiliations: Some(true), ..u }
}

/// The record after the membership merge for a roster member: an absent
/// history becomes the bare company name, otherwise the history merge
/// decides; an unchanged history leaves the whole record unchanged.
pub open spec fn applied_record(u: GitHubUserView) -> Result<GitHubUserView, ()> {
    match u.affiliation {
        None => Ok(with_affiliation(u, company())),
        Some(a) => match next_affiliation(a) {
            Ok(o) => match o {
                None => Ok(u),
                Some(n) => Ok(with_affiliation(u, n)),
            },
            Err(e) => Err(()),
        },
    }
}

/// The record after the departure merge for an identity absent from the
/// roster, dated `d`; a record with no current membership is unchanged.
pub open spec fn removed_record(u: GitHubUserView, d: CalendarDate) -> GitHubUserView {
    match u.affiliation {
        None => u,
        Some(a) => match removed_affiliation(a, date_chars(d)) {
            None => u,
            Some(n) => with_affiliation(u, n),
        },
    }
}

/// A copy of `u` with the same value in every field.
pub fn clone_user(u: &GitHubUser) -> (r: GitHubUser)
    ensures
        r@ == u@,
{
    GitHubUser {
        login: u.login.clone(),
        email: u.email.clone(),
        affiliation: clone_opt(&u.affiliation),
        source: clone_opt(&u.source),
        name: clone_opt(&u.name),
        commits: u.commits,
        location: clone_opt(&u.location),
        country_id: clone_opt(&u.country_id),
        modified_by_affiliations: u.modified_by_affiliations,
    }
}

/// A copy of an optional text field.
pub fn clone_opt(o: &Option<String>) -> (r: Option<String>)
    ensures
        opt_view(r) == opt_view(*o),
{
    match o {
        None => None,
        Some(s) => Some(s.clone()),
    }
}

/// Applies the membership merge to `user`, in place: called for a record
/// whose identity is in the current roster. On a malformed multi-token
/// history the record is left untouched and the fault is reported.
pub fn set_pingcap_affiliation(user: &mut GitHubUser) -> (r: Result<(), HistoryError>)
    ensures
        match r {
            Ok(()) => applied_record(old(user)@) == Ok::<GitHubUserView, ()>(final (user)@),
            Err(e) => applied_record(old(user)@) is Err && final (user)@ == old(user)@ && (e
                matches HistoryError::MalformedHistory { token } && old(
                user,
            )@.affiliation matches Some(a) && token@ == malformed_token(a)),
        },
{
    let next: Option<String> = match &user.affiliation {
        None => Some(String::from_str("PingCAP")),
        Some(a) => {
            match generate_new_affiliation_with_pingcap(a.as_str()) {
                Ok(o) => {
                    match o {
                        None => None,
                        Some(n) => Some(n),
                    }
                },
                Err(e) => {
                    return Err(e);
                },
            }
        },
    };
    proof {
        reveal_strlit("PingCAP");
        assert("PingCAP"@ =~= company());
    }
    match next {
        None => Ok(()),
        Some(n) => {
            user.affiliation = Some(n);
            user.modified_by_affiliations = Some(true);
            Ok(())
        },
    }
}

/// Applies the departure merge to `user`, in place, dating the retracted
/// membership `today`: called for a record whose identity is not in the
/// current roster.
pub fn remove_pingcap_affiliation(user: &mut GitHubUser, today: &CalendarDate)
    requires
        today.wf(),
    ensures
        final (user)@ == removed_record(old(user)@, *today),
{
    let next: Option<String> = match &user.affiliation {
        None => None,
        Some(a) => generate_affiliation_without_pingcap(a.as_str(), today),
    };
    match next {
        None => {
        },
        Some(n) => {
            user.affiliation = Some(n);
            user.modified_by_affiliations = Some(true);
        },
    }
}

/// Idempotence at the record level: once the membership merge has run on a
/// record, running it again returns the record unchanged.
pub proof fn lemma_applied_record_idempotent(u: GitHubUserView, v: GitHubUserView)
    requires
        applied_record(u) == Ok::<GitHubUserView, ()>(v),
    ensures
        applied_record(v) == Ok::<GitHubUserView, ()>(v),
{
    match u.affiliation {
        None => {
            lemma_company_single_token();
        },
        Some(a) => {
            match next_affiliation(a) {
                Ok(o) => match o {
                    None => {
                    },
                    Some(n) => {
                        lemma_next_affiliation_idempotent(a, n);
                    },
                },
                Err(e) => {
                },
            }
        },
    }
}

} // verus!
