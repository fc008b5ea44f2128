use dupe_finder::extract::Matcher;

#[test]
fn extracts_digit_run() {
    let m = Matcher::new();
    assert_eq!(m.image_number("shutterstock_1001.jpg"), Some(String::from("1001")));
}

#[test]
fn extracts_despite_suffix_after_digits() {
    let m = Matcher::new();
    assert_eq!(m.image_number("shutterstock_1001_copy.png"), Some(String::from("1001")));
}

#[test]
fn extracts_when_digits_end_the_string() {
    let m = Matcher::new();
    assert_eq!(m.image_number("shutterstock_42"), Some(String::from("42")));
}

#[test]
fn preserves_leading_zeros() {
    let m = Matcher::new();
    assert_eq!(m.image_number("shutterstock_007.png"), Some(String::from("007")));
}

#[test]
fn accepts_any_digit_run_length() {
    let m = Matcher::new();
    assert_eq!(m.image_number("shutterstock_1.jpg"), Some(String::from("1")));
    assert_eq!(
        m.image_number("shutterstock_123456789012345678901234567890.jpg"),
        Some(String::from("123456789012345678901234567890"))
    );
}

#[test]
fn rejects_filename_without_prefix() {
    let m = Matcher::new();
    assert_eq!(m.image_number("photo.jpg"), None);
}

#[test]
fn rejects_prefix_without_digits() {
    let m = Matcher::new();
    assert_eq!(m.image_number("shutterstock_.jpg"), None);
    assert_eq!(m.image_number("shutterstock_"), None);
    assert_eq!(m.image_number("shutterstock_x123.jpg"), None);
}

#[test]
fn rejects_pattern_later_in_string() {
    let m = Matcher::new();
    assert_eq!(m.image_number("copy_of_shutterstock_123.jpg"), None);
}

#[test]
fn rejects_different_case() {
    let m = Matcher::new();
    assert_eq!(m.image_number("Shutterstock_123.jpg"), None);
    assert_eq!(m.image_number("SHUTTERSTOCK_123.jpg"), None);
}

#[test]
fn rejects_short_and_empty_names() {
    let m = Matcher::new();
    assert_eq!(m.image_number(""), None);
    assert_eq!(m.image_number("shutterstock"), None);
    assert_eq!(m.image_number("shutterstoc"), None);
}

#[test]
fn extraction_is_deterministic() {
    let m = Matcher::new();
    let first = m.image_number("shutterstock_555.jpg");
    let second = m.image_number("shutterstock_555.jpg");
    assert_eq!(first, second);
    let other = Matcher::new();
    assert_eq!(other.image_number("shutterstock_555.jpg"), first);
}
