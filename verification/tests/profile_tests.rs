use lanzatool::profile::Profile;
use lanzatool::profile::parse_version;
use lanzatool::profile::sort_profiles;

#[test]
fn parses_synthetic_names() {
    assert_eq!(parse_version("sys-0-link").unwrap(), 0);
    assert_eq!(parse_version("sys-7-link").unwrap(), 7);
    assert_eq!(parse_version("sys-42-link").unwrap(), 42);
    assert_eq!(parse_version("sys-120-link").unwrap(), 120);
    assert_eq!(
        parse_version("sys-18446744073709551615-link").unwrap(),
        u64::MAX
    );
}

#[test]
fn parses_synthetic_names_across_magnitudes() {
    for n in [0u64, 1, 9, 10, 99, 100, 12345, 1_000_000_007, u64::MAX] {
        let name = format!("sys-{}-link", n);
        assert_eq!(parse_version(&name).unwrap(), n);
    }
}

#[test]
fn parses_realistic_profile_paths() {
    assert_eq!(
        parse_version("/nix/var/nix/profiles/system-7-link").unwrap(),
        7
    );
    assert_eq!(parse_version("/x/system-9-link/").unwrap(), 9);
    assert_eq!(parse_version("system-3").unwrap(), 3);
}

#[test]
fn rejects_single_token_name() {
    let err = parse_version("onlyname").unwrap_err();
    assert_eq!(err.path, "onlyname");
}

#[test]
fn rejects_non_numeric_version_token() {
    let err = parse_version("sys-abc-link").unwrap_err();
    assert_eq!(err.path, "sys-abc-link");
}

#[test]
fn rejects_degenerate_paths() {
    assert!(parse_version("").is_err());
    assert!(parse_version("/").is_err());
    assert!(parse_version("///").is_err());
    assert!(parse_version("sys--link").is_err());
    assert!(parse_version("sys-12x-link").is_err());
    assert!(parse_version("sys- 12-link").is_err());
    assert!(parse_version("sys--12-link").is_err());
    assert!(parse_version("sys-18446744073709551616-link").is_err());
}

#[test]
fn from_path_keeps_the_path_verbatim() {
    let profile = Profile::from_path("/nix/var/nix/profiles/system-5-link").unwrap();
    assert_eq!(profile.version, 5);
    assert_eq!(profile.path, "/nix/var/nix/profiles/system-5-link");
}

#[test]
fn from_path_rejects_bad_names() {
    assert!(Profile::from_path("onlyname").is_err());
    assert!(Profile::from_path("sys-abc-link").is_err());
}

#[test]
fn equal_versions_compare_equal_whatever_the_paths() {
    let p1 = Profile::from_path("/a/sys-3-link").unwrap();
    let p2 = Profile::from_path("/b/sys-3-other").unwrap();
    assert_ne!(p1.path, p2.path);
    assert!(p1 == p2);
    assert!(!(p1 < p2));
    assert!(!(p2 < p1));
}

#[test]
fn different_versions_order_by_version() {
    let p1 = Profile::from_path("/a/sys-3-link").unwrap();
    let p2 = Profile::from_path("/b/sys-5-link").unwrap();
    assert!(p1 != p2);
    assert!(p1 < p2);
    assert!(!(p2 < p1));
}

#[test]
fn sorting_profiles_orders_by_version() {
    let mut profiles = vec![
        Profile::from_path("/x/sys-5-link").unwrap(),
        Profile::from_path("/y/sys-1-link").unwrap(),
        Profile::from_path("/z/sys-3-link").unwrap(),
    ];
    sort_profiles(&mut profiles);
    let versions: Vec<u64> = profiles.iter().map(|p| p.version).collect();
    assert_eq!(versions, vec![1, 3, 5]);
}

#[test]
fn sorting_keeps_equal_versions_adjacent() {
    let mut profiles = vec![
        Profile::from_path("/x/sys-4-link").unwrap(),
        Profile::from_path("/y/sys-2-first").unwrap(),
        Profile::from_path("/z/sys-2-second").unwrap(),
        Profile::from_path("/w/sys-1-link").unwrap(),
    ];
    sort_profiles(&mut profiles);
    let versions: Vec<u64> = profiles.iter().map(|p| p.version).collect();
    assert_eq!(versions, vec![1, 2, 2, 4]);
    let paths: Vec<&str> = profiles.iter().map(|p| p.path.as_str()).collect();
    assert!(paths.contains(&"/y/sys-2-first"));
    assert!(paths.contains(&"/z/sys-2-second"));
}
