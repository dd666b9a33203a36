use semantic_rs::commit_analyzer::CommitType;
use semantic_rs::version::{format_version, parse_version, tag_name_for, version_bump, Version};

fn v(major: u64, minor: u64, patch: u64) -> Version {
    Version { major, minor, patch }
}

#[test]
fn patch_bump_increments_patch() {
    assert_eq!(version_bump(&v(1, 2, 3), CommitType::Patch), Some(v(1, 2, 4)));
}

#[test]
fn minor_bump_resets_patch() {
    assert_eq!(version_bump(&v(1, 2, 3), CommitType::Minor), Some(v(1, 3, 0)));
}

#[test]
fn major_bump_resets_minor_and_patch() {
    assert_eq!(version_bump(&v(1, 2, 3), CommitType::Major), Some(v(2, 0, 0)));
}

#[test]
fn unknown_bump_is_no_release() {
    assert_eq!(version_bump(&v(1, 2, 3), CommitType::Unknown), None);
}

#[test]
fn pre_one_majors_bump_like_any_other() {
    assert_eq!(version_bump(&v(0, 4, 9), CommitType::Major), Some(v(1, 0, 0)));
    assert_eq!(version_bump(&v(0, 4, 9), CommitType::Minor), Some(v(0, 5, 0)));
}

#[test]
fn format_is_dotted_decimal() {
    assert_eq!(format_version(&v(1, 2, 3)), "1.2.3");
    assert_eq!(format_version(&v(0, 0, 0)), "0.0.0");
    assert_eq!(format_version(&v(10, 20, 304)), "10.20.304");
}

#[test]
fn tag_name_prefixes_v() {
    assert_eq!(tag_name_for(&v(2, 0, 0)), "v2.0.0");
}

#[test]
fn parse_reads_dotted_decimal() {
    assert_eq!(parse_version("1.2.3"), Some(v(1, 2, 3)));
    assert_eq!(parse_version("0.0.0"), Some(v(0, 0, 0)));
    assert_eq!(parse_version("18446744073709551615.0.1"), Some(v(u64::MAX, 0, 1)));
}

#[test]
fn parse_rejects_anything_else() {
    assert_eq!(parse_version(""), None);
    assert_eq!(parse_version("1.2"), None);
    assert_eq!(parse_version("1.2.3.4"), None);
    assert_eq!(parse_version("01.2.3"), None);
    assert_eq!(parse_version("1.2.c"), None);
    assert_eq!(parse_version("1..3"), None);
    assert_eq!(parse_version("v1.2.3"), None);
    assert_eq!(parse_version("18446744073709551616.0.0"), None);
}

#[test]
fn format_then_parse_returns_the_version() {
    for &version in &[v(0, 0, 0), v(1, 2, 3), v(9, 10, 11), v(u64::MAX, 1, 0)] {
        assert_eq!(parse_version(&format_version(&version)), Some(version));
    }
}
