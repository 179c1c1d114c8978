use gphoto_sort::text::{has_prefix, text_equals};

#[test]
fn equal_texts() {
    assert!(text_equals("", ""));
    assert!(text_equals("jpg", "jpg"));
    assert!(text_equals("Früh\u{1F600}", "Früh\u{1F600}"));
    assert!(!text_equals("jpg", "JPG"));
    assert!(!text_equals("jpg", "jpg "));
    assert!(!text_equals("jpg", "jp"));
    assert!(!text_equals("é", "e"));
}

#[test]
fn prefixes() {
    assert!(has_prefix("Hangout: family", "Hangout"));
    assert!(has_prefix("Hangout", "Hangout"));
    assert!(has_prefix("anything", ""));
    assert!(!has_prefix("Hangou", "Hangout"));
    assert!(!has_prefix("hangout", "Hangout"));
    assert!(!has_prefix(" Hangout", "Hangout"));
    assert!(has_prefix("éa", "é"));
    assert!(!has_prefix("ea", "é"));
}
