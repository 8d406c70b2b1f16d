use gallery_fetch::text::{chars_of, same_text, text_of};

#[test]
fn chars_of_text() {
    assert_eq!(chars_of("aé/"), vec!['a', 'é', '/']);
    assert_eq!(chars_of(""), Vec::<char>::new());
}

#[test]
fn text_of_range() {
    let chars = vec!['a', 'é', '/', 'b'];
    assert_eq!(text_of(&chars, 1, 3), "é/");
    assert_eq!(text_of(&chars, 0, 4), "aé/b");
    assert_eq!(text_of(&chars, 2, 2), "");
}

#[test]
fn same_text_compares_characters() {
    assert!(same_text("imgur.com", "imgur.com"));
    assert!(!same_text("imgur.com", "imgur.co"));
    assert!(same_text("", ""));
}
