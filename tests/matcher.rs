use osinfo::Matcher;

#[test]
fn trimmed() {
    let data = [
        ("", Some("")),
        ("test", Some("test")),
        (" \t\t test", Some("test")),
        ("test  \t   ", Some("test")),
        ("  test \t", Some("test")),
    ];

    let matcher = Matcher::AllTrimmed;

    for (input, expected) in &data {
        let result = matcher.find(input);
        assert_eq!(result.as_deref(), *expected);
    }
}

#[test]
fn prefixed_word() {
    let data = [
        ("", None),
        ("test", Some("")),
        ("test1", Some("1")),
        ("test 1", Some("1")),
        (" test 1", Some("1")),
        ("test 1.2.3", Some("1.2.3")),
        (" \t\ttest 1.2.3", Some("1.2.3")),
    ];

    let matcher = Matcher::PrefixedWord { prefix: "test" };

    for (input, expected) in &data {
        let result = matcher.find(input);
        assert_eq!(result.as_deref(), *expected);
    }
}

#[test]
fn prefixed_version() {
    let data = [
        ("", None),
        ("test", Some("")),
        ("test 1", Some("1")),
        ("test .1", None),
        ("test 1.", None),
        ("test .1.", None),
        (" test 1", Some("1")),
        ("test 1.2.3", Some("1.2.3")),
        (" \t\ttest 1.2.3", Some("1.2.3")),
    ];

    let matcher = Matcher::PrefixedVersion { prefix: "test" };

    for (input, expected) in &data {
        let result = matcher.find(input);
        assert_eq!(result.as_deref(), *expected);
    }
}

#[test]
fn key_value() {
    let data = [
        ("", None),
        ("key", None),
        ("key=value", Some("value")),
        ("key=1", Some("1")),
        ("key=\"1\"", Some("1")),
        ("key=\"CentOS Linux\"", Some("CentOS Linux")),
    ];

    let matcher = Matcher::KeyValue { key: "key" };

    for (input, expected) in &data {
        let result = matcher.find(input);
        assert_eq!(result.as_deref(), *expected);
    }
}

#[test]
fn between() {
    let matcher = Matcher::Between { start: '(', end: ')' };
    assert_eq!(
        matcher.find("Ubuntu 22.04.1 LTS (Jammy Jellyfish)"),
        Some("Jammy Jellyfish".to_string())
    );
    assert_eq!(matcher.find("No parentheses here"), None);
    assert_eq!(matcher.find("Start only (no end"), Some("(no end".to_string()));
    assert_eq!(matcher.find("Nothing"), None);
}

#[test]
fn between_adjacent_delimiters_give_empty() {
    let matcher = Matcher::Between { start: '(', end: ')' };
    assert_eq!(matcher.find("a()b"), Some(String::new()));
}

#[test]
fn between_uses_first_start_and_next_end() {
    let matcher = Matcher::Between { start: '(', end: ')' };
    assert_eq!(matcher.find("x (a (b) c) y"), Some("a (b".to_string()));
    assert_eq!(matcher.find(") (z)"), Some("z".to_string()));
}

#[test]
fn between_start_at_end_of_text() {
    let matcher = Matcher::Between { start: '[', end: ']' };
    assert_eq!(matcher.find("tail ["), Some("[".to_string()));
}

#[test]
fn key_value_first_matching_line_wins() {
    let matcher = Matcher::KeyValue { key: "ID" };
    assert_eq!(matcher.find("ID=first\nID=second\n"), Some("first".to_string()));
}

#[test]
fn key_value_needs_key_at_line_start() {
    let matcher = Matcher::KeyValue { key: "ID" };
    assert_eq!(matcher.find("VERSION_ID=1\nXID=2"), None);
    assert_eq!(matcher.find("NAME=x\nID=debian"), Some("debian".to_string()));
}

#[test]
fn key_value_strips_quotes_and_whitespace() {
    let matcher = Matcher::KeyValue { key: "NAME" };
    assert_eq!(matcher.find("NAME=  \"Fedora Linux\" \r\n"), Some("Fedora Linux".to_string()));
    assert_eq!(matcher.find("NAME=\"\""), Some(String::new()));
}

#[test]
fn key_value_key_without_equals_is_absent() {
    let matcher = Matcher::KeyValue { key: "ID" };
    assert_eq!(matcher.find("ID\nID ubuntu"), None);
}

#[test]
fn prefixed_word_versus_version_on_leading_dot() {
    let word = Matcher::PrefixedWord { prefix: "test" };
    let version = Matcher::PrefixedVersion { prefix: "test" };
    assert_eq!(word.find("test .1.2.3"), Some(".1.2.3".to_string()));
    assert_eq!(version.find("test .1.2.3"), None);
    assert_eq!(word.find("test 1.2.3"), Some("1.2.3".to_string()));
}

#[test]
fn prefixed_word_prefix_inside_a_word() {
    let word = Matcher::PrefixedWord { prefix: "release" };
    assert_eq!(word.find("CentOS release 7.9 (Core)"), Some("7.9".to_string()));
    assert_eq!(word.find("prerelease\t\u{a0}x y"), Some("x".to_string()));
}

#[test]
fn trimmed_unicode_whitespace() {
    let matcher = Matcher::AllTrimmed;
    assert_eq!(matcher.find("\u{3000} é \u{2028}"), Some("é".to_string()));
    assert_eq!(matcher.find(" \t\n"), Some(String::new()));
}
