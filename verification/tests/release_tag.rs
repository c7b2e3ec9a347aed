use transfer_manager::canary::pinned_smithy_rs_versions;
use transfer_manager::release_tag::ReleaseTag;

#[test]
fn versioned_tags_are_read() {
    assert_eq!(
        ReleaseTag::parse("v0.6.0"),
        Some(ReleaseTag::Version { major: 0, minor: 6, patch: 0 })
    );
    assert_eq!(
        ReleaseTag::parse("v12.345.6789"),
        Some(ReleaseTag::Version { major: 12, minor: 345, patch: 6789 })
    );
    assert_eq!(
        ReleaseTag::parse("v18446744073709551615.0.007"),
        Some(ReleaseTag::Version { major: u64::MAX, minor: 0, patch: 7 })
    );
}

#[test]
fn dated_tags_are_read() {
    assert_eq!(
        ReleaseTag::parse("release-2022-10-26"),
        Some(ReleaseTag::Date { year: 2022, month: 10, day: 26, suffix: None })
    );
    assert_eq!(
        ReleaseTag::parse("release-2022-07-04.2"),
        Some(ReleaseTag::Date { year: 2022, month: 7, day: 4, suffix: Some(2) })
    );
    assert_eq!(
        ReleaseTag::parse("release-0001-00-99.18446744073709551615"),
        Some(ReleaseTag::Date { year: 1, month: 0, day: 99, suffix: Some(u64::MAX) })
    );
}

#[test]
fn anything_else_is_no_tag() {
    for text in [
        "",
        "v",
        "v1",
        "v1.2",
        "v1.2.",
        "v1..3",
        "v.2.3",
        "v1.2.3.4",
        "v1.2.3 ",
        " v1.2.3",
        "V1.2.3",
        "1.2.3",
        "v1.2.x",
        "v-1.2.3",
        "v18446744073709551616.0.0",
        "v0.0.99999999999999999999",
        "release-",
        "release-2022-10-2",
        "release-2022-10-266",
        "release-22-10-26",
        "release-2022/10/26",
        "release-2022-1o-26",
        "release-2022-10-26.",
        "release-2022-10-26-2",
        "release-2022-10-26.2x",
        "release-2022-10-26.18446744073709551616",
        "Release-2022-10-26",
        "release_2022-10-26",
        "v٣.٠.٠",
    ] {
        assert_eq!(ReleaseTag::parse(text), None, "{text:?}");
    }
}

#[test]
fn pinned_tags_are_what_their_names_read_as() {
    let pinned = pinned_smithy_rs_versions();
    assert_eq!(ReleaseTag::parse("v0.6.0"), Some(pinned[0].tag));
    assert_eq!(ReleaseTag::parse("release-2022-10-26"), Some(pinned[1].tag));
}
