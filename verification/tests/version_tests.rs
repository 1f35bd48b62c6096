use gateway_client::version::{
    check_for_update, compare_versions, parse_u32, parse_version, VersionInfo,
};

fn chars(s: &str) -> Vec<char> {
    s.chars().collect()
}

#[test]
fn patch_release_is_newer() {
    assert!(compare_versions("1.2.0", "1.2.1"));
}

#[test]
fn older_minor_is_not_newer() {
    assert!(!compare_versions("1.3.0", "1.2.9"));
}

#[test]
fn missing_component_counts_as_zero() {
    assert!(!compare_versions("1.0", "1.0.0"));
    assert!(!compare_versions("1.0.0", "1.0"));
    assert!(compare_versions("1", "1.0.1"));
}

#[test]
fn equal_versions_have_no_update() {
    assert!(!compare_versions("2.5.7", "2.5.7"));
    assert!(!compare_versions("", ""));
}

#[test]
fn major_component_decides_first() {
    assert!(compare_versions("1.9.9", "2.0.0"));
    assert!(!compare_versions("2.0.0", "1.9.9"));
}

#[test]
fn fourth_component_is_not_compared() {
    assert!(!compare_versions("1.2.3.4", "1.2.3.5"));
}

#[test]
fn pieces_that_are_no_number_are_passed_over() {
    assert_eq!(parse_version("1.x.3"), vec![1, 3]);
    assert!(compare_versions("1.2", "1.x.3"));
    assert_eq!(parse_version("v1.2"), vec![2]);
    assert_eq!(parse_version("1..2"), vec![1, 2]);
    assert_eq!(parse_version(""), Vec::<u32>::new());
    assert_eq!(parse_version("."), Vec::<u32>::new());
}

#[test]
fn version_components_parse_exactly() {
    assert_eq!(parse_version("1.2.3"), vec![1, 2, 3]);
    assert_eq!(parse_version("10.020.0"), vec![10, 20, 0]);
    assert_eq!(parse_version("4294967295.4294967296"), vec![4294967295]);
}

#[test]
fn component_parsing_follows_the_integer_grammar() {
    assert_eq!(parse_u32(&chars("42")), Some(42));
    assert_eq!(parse_u32(&chars("+42")), Some(42));
    assert_eq!(parse_u32(&chars("007")), Some(7));
    assert_eq!(parse_u32(&chars("4294967295")), Some(u32::MAX));
    assert_eq!(parse_u32(&chars("4294967296")), None);
    assert_eq!(parse_u32(&chars("99999999999999999999")), None);
    assert_eq!(parse_u32(&chars("")), None);
    assert_eq!(parse_u32(&chars("+")), None);
    assert_eq!(parse_u32(&chars("-1")), None);
    assert_eq!(parse_u32(&chars("++1")), None);
    assert_eq!(parse_u32(&chars(" 1")), None);
    assert_eq!(parse_u32(&chars("1a")), None);
}

#[test]
fn component_parsing_agrees_with_std() {
    for s in ["0", "1", "+0", "12345", "4294967295", "4294967296", "", "+", "-", "1 ", "x", "١"] {
        assert_eq!(parse_u32(&chars(s)), s.parse::<u32>().ok(), "{:?}", s);
    }
}

#[test]
fn empty_manifest_is_an_error() {
    let r = check_for_update("1.0.0".to_string(), &Vec::new());
    assert_eq!(r.unwrap_err(), "No version info");
}

#[test]
fn last_manifest_entry_is_the_latest() {
    let versions = vec![
        VersionInfo { version: "9.0.0".to_string(), note: vec![], url: "old".to_string() },
        VersionInfo {
            version: "1.2.1".to_string(),
            note: vec!["fixes".to_string(), "more".to_string()],
            url: "https://example.invalid/d".to_string(),
        },
    ];
    let r = check_for_update("1.2.0".to_string(), &versions).unwrap();
    assert!(r.has_update);
    assert_eq!(r.current_version, "1.2.0");
    assert_eq!(r.latest_version, "1.2.1");
    assert_eq!(r.notes, vec!["fixes".to_string(), "more".to_string()]);
    assert_eq!(r.download_url, "https://example.invalid/d");
    let r = check_for_update("1.2.1".to_string(), &versions).unwrap();
    assert!(!r.has_update);
}
