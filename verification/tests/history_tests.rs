use affiliations::dates::CalendarDate;
use affiliations::dates::format_date;
use affiliations::history::generate_affiliation_without_pingcap;
use affiliations::history::generate_new_affiliation_with_pingcap;
use affiliations::record::GitHubUser;
use affiliations::record::remove_pingcap_affiliation;
use affiliations::record::set_pingcap_affiliation;

use chrono::Datelike;

fn blank_user(affiliation: Option<String>) -> GitHubUser {
    GitHubUser {
        login: "".to_string(),
        email: "".to_string(),
        affiliation,
        source: None,
        name: None,
        commits: 0,
        location: None,
        country_id: None,
        modified_by_affiliations: None,
    }
}

fn today() -> (CalendarDate, String) {
    let now = chrono::Utc::now().date_naive();
    let date = CalendarDate {
        year: now.year() as u64,
        month: now.month() as u64,
        day: now.day() as u64,
    };
    (date, now.format("%Y-%m-%d").to_string())
}

#[test]
fn test_generate_new_affiliation_with_pingcap() {
    let cases = vec![
        (
            "PerkinElmer < 2014-08-01, Independent < 2015-10-01, PwC < 2020-01-01, Simplebet",
            Some(
                "PerkinElmer < 2014-08-01, Independent < 2015-10-01, PwC < 2020-01-01, Simplebet < 2020-01-01, PingCAP"
                    .to_string(),
            ),
        ),
        (
            "PerkinElmer < 2014-08-01, Independent < 2015-10-01, PwC < 2020-01-01, PingCAP",
            None,
        ),
        ("PingCAP", None),
        ("Simplebet", Some("Simplebet < 2015-09-06, PingCAP".to_string())),
        ("NotFound", Some("PingCAP".to_string())),
        ("", Some("PingCAP".to_string())),
    ];
    for case in cases {
        let affiliation = generate_new_affiliation_with_pingcap(case.0).unwrap();
        assert_eq!(affiliation, case.1)
    }
}

#[test]
fn test_set_pingcap_affiliation() {
    let cases = vec![
        (None, Some("PingCAP".to_string()), Some(true)),
        (Some("".to_string()), Some("PingCAP".to_string()), Some(true)),
        (Some("-".to_string()), Some("PingCAP".to_string()), Some(true)),
        (Some("(Unknown)".to_string()), Some("PingCAP".to_string()), Some(true)),
        (Some("".to_string()), Some("PingCAP".to_string()), Some(true)),
        (
            Some("PerkinElmer".to_string()),
            Some("PerkinElmer < 2015-09-06, PingCAP".to_string()),
            Some(true),
        ),
        (
            Some(
                "PerkinElmer < 2014-08-01, Independent < 2015-10-01, PwC < 2020-01-01, Simplebet"
                    .to_string(),
            ),
            Some(
                "PerkinElmer < 2014-08-01, Independent < 2015-10-01, PwC < 2020-01-01, Simplebet < 2020-01-01, PingCAP"
                    .to_string(),
            ),
            Some(true),
        ),
        (
            Some(
                "PerkinElmer < 2014-08-01, Independent < 2015-10-01, PwC < 2020-01-01, PingCAP"
                    .to_string(),
            ),
            Some(
                "PerkinElmer < 2014-08-01, Independent < 2015-10-01, PwC < 2020-01-01, PingCAP"
                    .to_string(),
            ),
            None,
        ),
    ];

    for case in cases {
        let user = &mut blank_user(case.0);
        set_pingcap_affiliation(user).unwrap();
        assert_eq!(user.affiliation, case.1);
        assert_eq!(user.modified_by_affiliations, case.2);
    }
}

#[test]
fn test_remove_pingcap_affiliation() {
    let (date, current_date) = today();

    let cases = vec![
        (None, None, None),
        (Some("".to_string()), Some("".to_string()), None),
        (Some("-".to_string()), Some("-".to_string()), None),
        (Some("(Unknown)".to_string()), Some("(Unknown)".to_string()), None),
        (Some("".to_string()), Some("".to_string()), None),
        (
            Some(
                "PerkinElmer < 2014-08-01, Independent < 2015-10-01, PwC < 2020-01-01, Simplebet"
                    .to_string(),
            ),
            Some(
                "PerkinElmer < 2014-08-01, Independent < 2015-10-01, PwC < 2020-01-01, Simplebet"
                    .to_string(),
            ),
            None,
        ),
        (
            Some("PingCAP".to_string()),
            Some(format!("PingCAP < {}, Independent", current_date)),
            Some(true),
        ),
        (
            Some(
                "PerkinElmer < 2014-08-01, Independent < 2015-10-01, PwC < 2020-01-01, PingCAP"
                    .to_string(),
            ),
            Some(format!(
                "PerkinElmer < 2014-08-01, Independent < 2015-10-01, PwC < 2020-01-01, PingCAP < {}, Independent",
                current_date
            )),
            Some(true),
        ),
    ];

    for case in cases {
        let user = &mut blank_user(case.0);
        remove_pingcap_affiliation(user, &date);
        assert_eq!(user.affiliation, case.1);
        assert_eq!(user.modified_by_affiliations, case.2);
    }
}

#[test]
fn apply_twice_is_idempotent() {
    let first = generate_new_affiliation_with_pingcap("Simplebet").unwrap().unwrap();
    assert_eq!(first, "Simplebet < 2015-09-06, PingCAP");
    let second = generate_new_affiliation_with_pingcap(&first).unwrap();
    assert_eq!(second, None);

    let from_sentinel = generate_new_affiliation_with_pingcap("-").unwrap().unwrap();
    assert_eq!(from_sentinel, "PingCAP");
    assert_eq!(generate_new_affiliation_with_pingcap(&from_sentinel).unwrap(), None);
}

#[test]
fn sentinels_normalize_to_company() {
    for s in ["", "-", "(Unknown)", "NotFound"] {
        let next = generate_new_affiliation_with_pingcap(s).unwrap();
        assert_eq!(next, Some("PingCAP".to_string()));
    }
    let user = &mut blank_user(None);
    set_pingcap_affiliation(user).unwrap();
    assert_eq!(user.affiliation, Some("PingCAP".to_string()));
    assert_eq!(user.modified_by_affiliations, Some(true));
}

#[test]
fn removal_is_noop_without_current_membership() {
    let date = CalendarDate { year: 2021, month: 6, day: 4 };
    let user = &mut blank_user(None);
    remove_pingcap_affiliation(user, &date);
    assert_eq!(user.affiliation, None);
    assert_eq!(user.modified_by_affiliations, None);

    assert_eq!(generate_affiliation_without_pingcap("SomeOtherCompany", &date), None);
}

#[test]
fn join_then_leave_round_trip() {
    let date = CalendarDate { year: 2021, month: 6, day: 4 };
    let joined = generate_new_affiliation_with_pingcap("").unwrap().unwrap();
    assert_eq!(joined, "PingCAP");
    let left = generate_affiliation_without_pingcap(&joined, &date).unwrap();
    assert_eq!(left, "PingCAP < 2021-06-04, Independent");
    assert!(left.ends_with("Independent"));
}

#[test]
fn remove_on_fixed_date() {
    let date = CalendarDate { year: 2021, month: 6, day: 4 };
    let next = generate_affiliation_without_pingcap("PingCAP", &date).unwrap();
    assert_eq!(next, "PingCAP < 2021-06-04, Independent");
}

#[test]
fn malformed_penultimate_token_is_an_error() {
    let r = generate_new_affiliation_with_pingcap("NoDateHere, Simplebet");
    assert!(r.is_err());
}

#[test]
fn date_formatting_is_zero_padded() {
    let d = CalendarDate { year: 987, month: 6, day: 4 };
    assert_eq!(format_date(&d), "0987-06-04");
    let d2 = CalendarDate { year: 2021, month: 12, day: 31 };
    assert_eq!(format_date(&d2), "2021-12-31");
}
