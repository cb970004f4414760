use antman::decimal::{decimal_string, parse_u64_decimal};
use antman::krate::{
    crate_version_str, query_crate_from_index, Crate, CrateIndex, CrateVersion, IndexError,
    Version,
};

fn cv(a: usize, b: usize, c: usize, url: &str) -> CrateVersion {
    CrateVersion { version: Version(a, b, c), url: url.to_string() }
}

#[test]
fn version_text_joins_numbers_with_dots() {
    assert_eq!(Version(1, 20, 3).to_string(), "1.20.3");
    assert_eq!(Version(0, 0, 0).to_string(), "0.0.0");
    assert_eq!(
        Version(usize::MAX, 10, 9).to_string(),
        format!("{}.10.9", usize::MAX)
    );
}

#[test]
fn crate_version_str_is_name_dash_version() {
    assert_eq!(crate_version_str("foo", &cv(1, 2, 3, "u")), "foo-1.2.3");
    assert_eq!(crate_version_str("", &cv(0, 1, 0, "u")), "-0.1.0");
}

#[test]
fn decimal_string_matches_to_string() {
    for n in [0usize, 7, 9, 10, 99, 100, 12345, usize::MAX] {
        assert_eq!(decimal_string(n), n.to_string());
    }
}

#[test]
fn parse_u64_decimal_accepts_what_std_accepts() {
    let cases = [
        "", "+", "-", "-1", "0", "007", "+42", "++1", "12a", " 1", "1 ",
        "18446744073709551615", "18446744073709551616", "99999999999999999999", "٣",
    ];
    for c in cases {
        assert_eq!(parse_u64_decimal(c), c.parse::<u64>().ok(), "case {:?}", c);
    }
    assert_eq!(parse_u64_decimal("123"), Some(123));
    assert_eq!(parse_u64_decimal("18446744073709551616"), None);
}

#[test]
fn parse_reads_back_decimal_text() {
    for n in [0u64, 1, 10, 4096, 1 << 40, u64::MAX] {
        assert_eq!(parse_u64_decimal(&decimal_string(n as usize)), Some(n));
    }
}

#[test]
fn version_order_is_lexicographic() {
    assert!(Version(1, 2, 3).is_older_than(&Version(1, 2, 4)));
    assert!(Version(1, 9, 9).is_older_than(&Version(2, 0, 0)));
    assert!(Version(1, 2, 9).is_older_than(&Version(1, 3, 0)));
    assert!(!Version(1, 2, 3).is_older_than(&Version(1, 2, 3)));
    assert!(!Version(2, 0, 0).is_older_than(&Version(1, 9, 9)));
}

#[test]
fn latest_of_no_versions_is_none() {
    let c = Crate { versions: vec![] };
    assert!(c.latest().is_none());
    assert_eq!(c.latest_position(), None);
}

#[test]
fn latest_picks_highest_version() {
    let c = Crate { versions: vec![cv(1, 0, 0, "a"), cv(2, 0, 0, "b"), cv(1, 5, 0, "c")] };
    let v = c.latest().unwrap();
    assert_eq!(v.version, Version(2, 0, 0));
    assert_eq!(v.url, "b");
    assert_eq!(c.latest_position(), Some(1));
}

#[test]
fn latest_of_equal_versions_is_the_last() {
    let c = Crate { versions: vec![cv(2, 0, 0, "x"), cv(1, 0, 0, "z"), cv(2, 0, 0, "y")] };
    assert_eq!(c.latest().unwrap().url, "y");
    let std_max = c.versions.iter().max_by(|a, b| a.version.cmp(&b.version)).unwrap();
    assert_eq!(std_max.url, "y");
}

fn sample_index() -> CrateIndex {
    CrateIndex::from_entries(vec![
        ("empty".to_string(), Crate { versions: vec![] }),
        ("json".to_string(), Crate { versions: vec![cv(0, 1, 0, "j1"), cv(0, 2, 0, "j2")] }),
    ])
    .unwrap()
}

#[test]
fn query_finds_latest_version() {
    let v = query_crate_from_index(&sample_index(), "json").unwrap();
    assert_eq!(v.version, Version(0, 2, 0));
    assert_eq!(v.url, "j2");
}

#[test]
fn query_reports_missing_crate() {
    assert_eq!(query_crate_from_index(&sample_index(), "nope").unwrap_err(), IndexError::CrateNotFound);
    assert_eq!(query_crate_from_index(&CrateIndex::empty(), "json").unwrap_err(), IndexError::CrateNotFound);
}

#[test]
fn query_reports_crate_without_versions() {
    assert_eq!(query_crate_from_index(&sample_index(), "empty").unwrap_err(), IndexError::NoVersions);
}

#[test]
fn index_position_is_first_match() {
    let idx = sample_index();
    assert_eq!(idx.position("json"), Some(1));
    assert_eq!(idx.position("empty"), Some(0));
    assert_eq!(idx.position("JSON"), None);
}

#[test]
fn index_refuses_duplicate_names() {
    let dup = CrateIndex::from_entries(vec![
        ("a".to_string(), Crate { versions: vec![] }),
        ("b".to_string(), Crate { versions: vec![] }),
        ("a".to_string(), Crate { versions: vec![cv(1, 0, 0, "u")] }),
    ]);
    assert!(dup.is_none());
    let ok = CrateIndex::from_entries(vec![("a".to_string(), Crate { versions: vec![] })]).unwrap();
    assert_eq!(ok.crates().len(), 1);
    assert!(CrateIndex::from_entries(vec![]).is_some());
}
