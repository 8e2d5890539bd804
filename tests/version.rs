use gvm::listing::{filter_and_sort, FilteredRelease};
use gvm::version::{cmp_versions, get_real_version, is_stable_version, parse_version_parts};
use std::cmp::Ordering;

#[test]
fn normalize_adds_prefix_once() {
    assert_eq!(get_real_version("1.24.0".to_string()), "go1.24.0");
    assert_eq!(get_real_version("go1.24.0".to_string()), "go1.24.0");
    let once = get_real_version("1.21rc2".to_string());
    let twice = get_real_version(once.clone());
    assert_eq!(once, twice);
    assert_eq!(get_real_version(String::new()), "go");
}

#[test]
fn parse_splits_base_and_suffix() {
    assert_eq!(parse_version_parts("go1.24.0"), (vec![1, 24, 0], String::new()));
    assert_eq!(parse_version_parts("go1.24rc1"), (vec![1, 24], "rc1".to_string()));
    assert_eq!(parse_version_parts("go1.21beta2"), (vec![1, 21], "beta2".to_string()));
    assert_eq!(parse_version_parts("go1.24."), (vec![1, 24], ".".to_string()));
    assert_eq!(parse_version_parts("1.24.0"), (vec![], String::new()));
    assert_eq!(parse_version_parts("gox"), (vec![], String::new()));
    assert_eq!(parse_version_parts("go1.99999999999.2"), (vec![1, 2], String::new()));
}

#[test]
fn stability_classification() {
    assert!(is_stable_version("go1.24.0"));
    assert!(!is_stable_version("go1.24rc1"));
    assert!(!is_stable_version("go1.24beta2"));
    assert!(!is_stable_version("go1.9alpha1"));
    assert!(is_stable_version("1.21.5"));
    assert!(!is_stable_version("go1.24.0foo"));
}

#[test]
fn prerelease_sorts_before_release() {
    assert_eq!(cmp_versions("go1.24rc1", "go1.24"), Ordering::Less);
    assert_eq!(cmp_versions("go1.24", "go1.24rc1"), Ordering::Greater);
    assert_eq!(cmp_versions("go1.24beta1", "go1.24rc1"), Ordering::Less);
    assert_eq!(cmp_versions("go1.9.2", "go1.10"), Ordering::Less);
    assert_eq!(cmp_versions("go1.24", "go1.24.0"), Ordering::Less);
    assert_eq!(cmp_versions("go1.21.0", "go1.21.0"), Ordering::Equal);
}

#[test]
fn sorting_places_release_candidate_between() {
    let items = vec!["go1.24rc1".to_string(), "go1.24.0".to_string(), "go1.23.0".to_string()];
    let sorted = filter_and_sort(items, None, false);
    assert_eq!(sorted, vec!["go1.23.0", "go1.24rc1", "go1.24.0"]);
}

#[test]
fn filter_wildcard_exact_and_stable() {
    let items = vec![
        "go1.22.0".to_string(),
        "go1.21.5".to_string(),
        "go1.21.0".to_string(),
        "go1.21rc2".to_string(),
    ];
    let wild = filter_and_sort(items, Some("1.21.*".to_string()), false);
    assert_eq!(wild, vec!["go1.21.0", "go1.21.5"]);

    let items = vec!["go1.22.0".to_string(), "go1.21rc2".to_string(), "go1.21.0".to_string()];
    let prefix = filter_and_sort(items, Some("go1.21*".to_string()), false);
    assert_eq!(prefix, vec!["go1.21rc2", "go1.21.0"]);

    let items = vec!["go1.22.0".to_string(), "go1.21rc2".to_string(), "go1.21.0".to_string()];
    let stable = filter_and_sort(items, Some("1.21*".to_string()), true);
    assert_eq!(stable, vec!["go1.21.0"]);

    let items = vec!["go1.22.0".to_string(), "go1.21.0".to_string()];
    let exact = filter_and_sort(items, Some("1.22.0".to_string()), false);
    assert_eq!(exact, vec!["go1.22.0"]);

    let empty: Vec<String> = Vec::new();
    assert!(filter_and_sort(empty, Some("1.21.*".to_string()), true).is_empty());
}

#[test]
fn releases_sort_with_their_urls() {
    let rel = |v: &str| FilteredRelease { version: v.to_string(), url: format!("https://go.dev/dl/{v}.tar.gz") };
    let sorted = filter_and_sort(vec![rel("go1.22.1"), rel("go1.22rc1"), rel("go1.21.13")], None, false);
    let versions: Vec<&str> = sorted.iter().map(|r| r.version.as_str()).collect();
    assert_eq!(versions, vec!["go1.21.13", "go1.22rc1", "go1.22.1"]);
    assert_eq!(sorted[1].url, "https://go.dev/dl/go1.22rc1.tar.gz");
}

#[test]
fn equal_versions_keep_their_order() {
    let rel = |v: &str, u: &str| FilteredRelease { version: v.to_string(), url: u.to_string() };
    let sorted = filter_and_sort(
        vec![rel("go1.20", "first"), rel("go1.19", "x"), rel("go1.020", "second"), rel("go1.20", "third")],
        None,
        false,
    );
    let urls: Vec<&str> = sorted.iter().map(|r| r.url.as_str()).collect();
    assert_eq!(urls, vec!["x", "first", "second", "third"]);
    let names = filter_and_sort(vec!["gob".to_string(), "goa".to_string()], None, false);
    assert_eq!(names, vec!["gob", "goa"]);
}
