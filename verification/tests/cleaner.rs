use gallery_fetch::cleaner::{collapse_separator, SepCleaner};

#[test]
fn collapse_doubled_separator() {
    assert_eq!(collapse_separator("a -  - b", " - "), "a - b");
    assert_eq!(collapse_separator("T - A -  - I.png", " - "), "T - A - I.png");
}

#[test]
fn collapse_leaves_clean_text() {
    assert_eq!(collapse_separator("a - b - c", " - "), "a - b - c");
    assert_eq!(collapse_separator("", " - "), "");
    assert_eq!(collapse_separator(" - ", " - "), " - ");
}

#[test]
fn collapse_goes_on_until_none_is_doubled() {
    assert_eq!(collapse_separator("a -  -  - b", " - "), "a - b");
    assert_eq!(collapse_separator("a -  -  -  - b", " - "), "a - b");
    assert_eq!(collapse_separator("xxxx", "x"), "x");
    assert_eq!(collapse_separator("ababab", "ab"), "ab");
}

#[test]
fn collapse_with_empty_separator_changes_nothing() {
    assert_eq!(collapse_separator("a//b", ""), "a//b");
}

#[test]
fn collapse_result_holds_no_doubled_separator() {
    for s in ["--", "a----b", "-a--b---c----", "- - -- -"] {
        assert!(!collapse_separator(s, "-").contains("--"));
    }
}

#[test]
fn clear_separator_strips_components() {
    let path = String::from("T - A/ - I.png");
    assert_eq!(path.try_clear_separator(" - ").unwrap(), "T - A/I.png");
    let path = String::from(" - A - /x - ");
    assert_eq!(path.try_clear_separator(" - ").unwrap(), "A/x");
}

#[test]
fn clear_separator_collapses_first() {
    let path = String::from("a -  - b/c");
    assert_eq!(path.try_clear_separator(" - ").unwrap(), "a - b/c");
}

#[test]
fn clear_separator_keeps_empty_components() {
    let path = String::from("a//b/");
    assert_eq!(path.try_clear_separator("-").unwrap(), "a//b/");
    assert_eq!(String::new().try_clear_separator("-").unwrap(), "");
}

#[test]
fn clear_separator_component_that_is_a_separator() {
    let path = String::from("a/-/b");
    assert_eq!(path.try_clear_separator("-").unwrap(), "a//b");
}

#[test]
fn clear_separator_strips_one_at_each_end() {
    let path = String::from("-a-/b");
    assert_eq!(path.try_clear_separator("-").unwrap(), "a/b");
    let path = String::from("aba");
    assert_eq!(path.try_clear_separator("ab").unwrap(), "a");
}

#[test]
fn clear_separator_with_empty_separator_changes_nothing() {
    let path = String::from("a - /b");
    assert_eq!(path.try_clear_separator("").unwrap(), "a - /b");
}
