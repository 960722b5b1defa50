use osinfo::version::parse_version;
use osinfo::Version;

#[test]
fn parse_semantic_version() {
    let data = [
        ("", None),
        ("version", None),
        ("1", Some((1, 0, 0, 0))),
        ("1.", Some((1, 0, 0, 0))),
        ("1.2", Some((1, 2, 0, 0))),
        ("1.2.", Some((1, 2, 0, 0))),
        ("1.2.3", Some((1, 2, 3, 0))),
        ("1.2.3.", Some((1, 2, 3, 0))),
        ("1.2.3.  ", Some((1, 2, 3, 0))),
        ("   1.2.3.", Some((1, 2, 3, 0))),
        ("   1.2.3.  ", Some((1, 2, 3, 0))),
        ("1.2.3.4", Some((1, 2, 3, 4))),
        ("1.2.3.4.", Some((1, 2, 3, 4))),
        ("1.2.3.4.5.6.7.8.9", None),
    ];

    for (s, expected) in &data {
        let result = parse_version(s);
        assert_eq!(expected, &result);
    }
}

#[test]
fn from_string() {
    let custom_version = "some version";
    let data = [
        ("", Version::Unknown),
        ("1.2.3.4", Version::Semantic(1, 2, 3, 4)),
        (custom_version, Version::Custom(custom_version.to_owned())),
    ];

    for (s, expected) in &data {
        let version = Version::from_string(s);
        assert_eq!(expected, &version);
    }
}

#[test]
fn version_default() {
    assert_eq!(Version::Unknown, Version::default());
}

#[test]
fn display() {
    let data = [
        (Version::Unknown, "Unknown"),
        (Version::Semantic(1, 5, 0, 1), "1.5.0.1"),
        (Version::Rolling(None), "Rolling Release"),
        (Version::Rolling(Some("date".to_owned())), "Rolling Release (date)"),
    ];

    for (version, expected) in &data {
        assert_eq!(expected, &version.to_string());
    }
}

#[test]
fn display_custom_keeps_text() {
    assert_eq!(Version::Custom(" 7 Beta ".to_owned()).to_string(), " 7 Beta ");
}

#[test]
fn semantic_round_trip() {
    let v = Version::from_string("1.2.3.4");
    assert_eq!(v, Version::Semantic(1, 2, 3, 4));
    assert_eq!(v.to_string(), "1.2.3.4");
    let big = Version::Semantic(4294967295, 0, 10, 907);
    assert_eq!(Version::from_string(&big.to_string()), big);
}

#[test]
fn too_many_components_is_custom() {
    assert_eq!(Version::from_string("1.2.3.4.5.6"), Version::Custom("1.2.3.4.5.6".to_owned()));
    assert_eq!(Version::from_string("custom"), Version::Custom("custom".to_owned()));
}

#[test]
fn missing_components_default_to_zero() {
    assert_eq!(Version::from_string("22.04"), Version::Semantic(22, 4, 0, 0));
    assert_eq!(Version::from_string(" 7. "), Version::Semantic(7, 0, 0, 0));
}

#[test]
fn raw_text_kept_when_not_semantic() {
    assert_eq!(Version::from_string("   "), Version::Custom("   ".to_owned()));
    assert_eq!(Version::from_string("1..2"), Version::Custom("1..2".to_owned()));
    assert_eq!(Version::from_string(" 1.x "), Version::Custom(" 1.x ".to_owned()));
    assert_eq!(Version::from_string("-1"), Version::Custom("-1".to_owned()));
}

#[test]
fn component_range_and_sign() {
    assert_eq!(parse_version("4294967295"), Some((4294967295, 0, 0, 0)));
    assert_eq!(parse_version("4294967296"), None);
    assert_eq!(parse_version("+3.+1"), Some((3, 1, 0, 0)));
    assert_eq!(parse_version("+"), None);
    assert_eq!(parse_version("007.010"), Some((7, 10, 0, 0)));
}
