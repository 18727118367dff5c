use shadow_rs::strings::has_close_delim;
use shadow_rs::strings::str_eq;
use shadow_rs::strings::str_lt;
use shadow_rs::strings::strip_prefix_exec;
use shadow_rs::strings::to_upper;

#[test]
fn upper_cases_ascii_only() {
    assert_eq!(to_upper("pkg_version"), "PKG_VERSION");
    assert_eq!(to_upper("Already UPPER 123"), "ALREADY UPPER 123");
    assert_eq!(to_upper(""), "");
}

#[test]
fn lexicographic_order() {
    assert!(str_lt("ALPHA", "BETA"));
    assert!(str_lt("ALPHA", "ALPHABET"));
    assert!(!str_lt("BETA", "ALPHA"));
    assert!(!str_lt("ALPHA", "ALPHA"));
}

#[test]
fn string_equality() {
    assert!(str_eq("same", "same"));
    assert!(!str_eq("same", "sam"));
    assert!(!str_eq("same", "samE"));
}

#[test]
fn close_delimiter_detection() {
    assert!(has_close_delim("a raw \"# end"));
    assert!(!has_close_delim("quotes \" and # apart"));
    assert!(!has_close_delim(""));
    assert!(!has_close_delim("\""));
}

#[test]
fn strip_ref_prefix() {
    assert_eq!(strip_prefix_exec("refs/heads/main", "refs/heads/"), "main");
    assert_eq!(strip_prefix_exec("main", "refs/heads/"), "main");
}
