use affiliations::dates::CalendarDate;
use affiliations::history::HistoryError;
use affiliations::reconcile::reconcile;
use affiliations::record::GitHubUser;
use affiliations::roster::build_roster;

fn user(login: &str, affiliation: Option<&str>) -> GitHubUser {
    GitHubUser {
        login: login.to_string(),
        email: format!("{}@example.test", login),
        affiliation: affiliation.map(|a| a.to_string()),
        source: None,
        name: None,
        commits: 7,
        location: None,
        country_id: None,
        modified_by_affiliations: None,
    }
}

fn fixed_date() -> CalendarDate {
    CalendarDate { year: 2021, month: 6, day: 4 }
}

#[test]
fn synthesizes_records_for_unmatched_roster_entries() {
    let roster = build_roster(&vec!["newuser".to_string()]);
    let out = reconcile(vec![], &roster, &fixed_date()).unwrap();
    assert_eq!(out.len(), 1);
    let nu = &out[0];
    assert_eq!(nu.login, "newuser");
    assert_eq!(nu.email, "newuser!users.noreply.github.com");
    assert_eq!(nu.affiliation, Some("PingCAP".to_string()));
    assert_eq!(nu.source, Some("manual".to_string()));
    assert_eq!(nu.name, None);
    assert_eq!(nu.commits, 0);
    assert_eq!(nu.modified_by_affiliations, Some(true));
}

#[test]
fn roster_matching_is_case_insensitive() {
    let roster = build_roster(&vec!["Alice".to_string()]);
    let records = vec![user("alice", None), user("ALICE", Some("Simplebet"))];
    let out = reconcile(records, &roster, &fixed_date()).unwrap();
    assert_eq!(out.len(), 2);
    assert_eq!(out[0].affiliation, Some("PingCAP".to_string()));
    assert_eq!(out[0].modified_by_affiliations, Some(true));
    assert_eq!(out[1].affiliation, Some("Simplebet < 2015-09-06, PingCAP".to_string()));
    assert_eq!(out[1].modified_by_affiliations, Some(true));
}

#[test]
fn full_pass_joins_leaves_and_synthesizes() {
    let roster = build_roster(&vec!["Carol".to_string(), "newuser".to_string()]);
    let records = vec![
        // On the roster: membership merged in.
        user("carol", Some("PwC < 2020-01-01, Simplebet")),
        // Already current: untouched.
        user("CAROL", Some("PingCAP")),
        // Not on the roster, currently affiliated: retracted, dated today.
        user("dave", Some("PingCAP")),
        // Not on the roster, never affiliated: untouched.
        user("erin", Some("Simplebet")),
        // Sentinel, not on the roster: untouched.
        user("frank", Some("(Unknown)")),
    ];
    let out = reconcile(records, &roster, &fixed_date()).unwrap();
    assert_eq!(out.len(), 6);
    assert_eq!(
        out[0].affiliation,
        Some("PwC < 2020-01-01, Simplebet < 2020-01-01, PingCAP".to_string())
    );
    assert_eq!(out[0].modified_by_affiliations, Some(true));
    assert_eq!(out[1].affiliation, Some("PingCAP".to_string()));
    assert_eq!(out[1].modified_by_affiliations, None);
    assert_eq!(out[2].affiliation, Some("PingCAP < 2021-06-04, Independent".to_string()));
    assert_eq!(out[2].modified_by_affiliations, Some(true));
    assert_eq!(out[3].affiliation, Some("Simplebet".to_string()));
    assert_eq!(out[3].modified_by_affiliations, None);
    assert_eq!(out[4].affiliation, Some("(Unknown)".to_string()));
    assert_eq!(out[4].modified_by_affiliations, None);
    // The roster identity with no record gets a synthesized one.
    assert_eq!(out[5].login, "newuser");
    assert_eq!(out[5].affiliation, Some("PingCAP".to_string()));
    assert_eq!(out[5].source, Some("manual".to_string()));
}

#[test]
fn duplicate_dataset_logins_are_each_processed() {
    let roster = build_roster(&vec!["alice".to_string()]);
    let records = vec![user("alice", None), user("alice", Some("Simplebet"))];
    let out = reconcile(records, &roster, &fixed_date()).unwrap();
    // Both occurrences are merged independently, and no record is
    // synthesized for an identity the dataset already holds.
    assert_eq!(out.len(), 2);
    assert_eq!(out[0].affiliation, Some("PingCAP".to_string()));
    assert_eq!(out[1].affiliation, Some("Simplebet < 2015-09-06, PingCAP".to_string()));
}

#[test]
fn malformed_history_aborts_the_pass() {
    let roster = build_roster(&vec!["alice".to_string()]);
    let records = vec![user("bob", None), user("alice", Some("NoDateHere, Simplebet"))];
    let err = reconcile(records, &roster, &fixed_date()).unwrap_err();
    let HistoryError::MalformedHistory { token } = err;
    assert_eq!(token, "NoDateHere");
}

#[test]
fn untouched_fields_carry_over() {
    let roster = build_roster(&vec!["alice".to_string()]);
    let records = vec![GitHubUser {
        login: "Alice".to_string(),
        email: "a@example.test".to_string(),
        affiliation: None,
        source: Some("import".to_string()),
        name: Some("Alice A".to_string()),
        commits: 41,
        location: Some("Utrecht".to_string()),
        country_id: Some("nl".to_string()),
        modified_by_affiliations: Some(false),
    }];
    let out = reconcile(records, &roster, &fixed_date()).unwrap();
    assert_eq!(out[0].login, "Alice");
    assert_eq!(out[0].email, "a@example.test");
    assert_eq!(out[0].affiliation, Some("PingCAP".to_string()));
    assert_eq!(out[0].source, Some("import".to_string()));
    assert_eq!(out[0].name, Some("Alice A".to_string()));
    assert_eq!(out[0].commits, 41);
    assert_eq!(out[0].location, Some("Utrecht".to_string()));
    assert_eq!(out[0].country_id, Some("nl".to_string()));
    assert_eq!(out[0].modified_by_affiliations, Some(true));
}
