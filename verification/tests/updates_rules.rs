use rift::updates::{check_open_url, is_newer, parse_version, release_status, strip_v};

fn newer_cases() {
    assert!(is_newer("0.2.0", "0.1.0"));
    assert!(is_newer("0.1.1", "0.1.0"));
    assert!(is_newer("1.0.0", "0.9.9"));
    assert!(is_newer("v0.2.0", "0.1.0")); // leading v tolerated
    assert!(is_newer("0.2", "0.1.9")); // uneven lengths
}

fn same_or_older_cases() {
    assert!(!is_newer("0.1.0", "0.1.0"));
    assert!(!is_newer("0.1.0", "0.2.0"));
    assert!(!is_newer("0.1.0", "0.1.0")); // identical
    assert!(!is_newer("0.1.0-rc1", "0.1.0")); // pre-release suffix -> 0
}

#[test]
fn commands_detects_newer_versions() {
    newer_cases();
}

#[test]
fn updates_detects_newer_versions() {
    newer_cases();
}

#[test]
fn commands_ignores_same_or_older_versions() {
    same_or_older_cases();
}

#[test]
fn updates_ignores_same_or_older_versions() {
    same_or_older_cases();
}

#[test]
fn version_parts_are_read_leniently() {
    assert_eq!(parse_version("v1.2.3"), vec![1, 2, 3]);
    assert_eq!(parse_version("vv2.0-beta.x"), vec![2, 0, 0]);
    assert_eq!(parse_version(""), vec![0]);
    assert_eq!(parse_version("1..2"), vec![1, 0, 2]);
    // A part too large for u32 counts as 0.
    assert_eq!(parse_version("99999999999.1"), vec![0, 1]);
    assert_eq!(parse_version("0004294967295"), vec![4294967295]);
}

#[test]
fn missing_parts_count_as_zero() {
    assert!(!is_newer("0.2", "0.2.0"));
    assert!(!is_newer("0.2.0", "0.2"));
    assert!(is_newer("0.2.0.1", "0.2"));
}

#[test]
fn newer_is_a_strict_order_on_examples() {
    let vs = ["0.1.0", "0.1.1", "0.2", "1.0.0", "v1.0.1", "0.1.0-rc1"];
    for a in vs {
        assert!(!is_newer(a, a));
        for b in vs {
            assert!(!(is_newer(a, b) && is_newer(b, a)));
            for c in vs {
                if is_newer(a, b) && is_newer(b, c) {
                    assert!(is_newer(a, c));
                }
            }
        }
    }
}

#[test]
fn release_status_strips_v_and_compares() {
    let s = release_status("0.1.0".into(), Some("vv0.2.0".into()), Some("https://r".into()));
    assert_eq!(s.current, "0.1.0");
    assert_eq!(s.latest.as_deref(), Some("0.2.0"));
    assert!(s.update_available);
    assert_eq!(s.url.as_deref(), Some("https://r"));
    let s = release_status("0.2.0".into(), Some("v0.2.0".into()), None);
    assert!(!s.update_available);
    let s = release_status("0.2.0".into(), None, None);
    assert_eq!(s.latest, None);
    assert!(!s.update_available);
    assert_eq!(strip_v("vvx"), "x");
}

#[test]
fn only_http_links_are_opened() {
    assert_eq!(check_open_url("https://github.com"), Ok(()));
    assert_eq!(check_open_url("http://x"), Ok(()));
    assert_eq!(
        check_open_url("file:///etc/passwd"),
        Err("refusing to open non-http(s) url".to_string())
    );
    assert!(check_open_url("https:/").is_err());
}
