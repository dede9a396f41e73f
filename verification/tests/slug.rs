use blog::error::AppError;
use blog::slug::Slug;

fn assert_rejected(input: &str) {
    match Slug::try_from(input.to_string()) {
        Ok(_) => panic!("expected {input:?} to be rejected, but it was accepted"),
        Err(AppError::NotFound) => {}
        Err(other) => panic!(
            "expected NotFound for {input:?}, got {other:?} (anti-oracle: malformed slugs must be indistinguishable from absent slugs)"
        ),
    }
}

#[test]
fn accepts_lowercase_alphanumeric_with_single_hyphens() {
    let slug = Slug::try_from("hello-world-2026".to_string()).unwrap();
    assert_eq!(slug.as_str(), "hello-world-2026");
}

#[test]
fn accepts_single_word() {
    assert_eq!(Slug::try_from("rust".to_string()).unwrap().as_str(), "rust");
}

#[test]
fn accepts_digits_only() {
    assert_eq!(Slug::try_from("2026".to_string()).unwrap().as_str(), "2026");
}

#[test]
fn rejects_empty() {
    assert_rejected("");
}

#[test]
fn rejects_uppercase() {
    assert_rejected("Hello-World");
    assert_rejected("HELLO");
}

#[test]
fn rejects_path_traversal_dotdot() {
    assert_rejected("..");
    assert_rejected("../etc/passwd");
    assert_rejected("foo/../bar");
}

#[test]
fn rejects_forward_slash() {
    assert_rejected("foo/bar");
    assert_rejected("/foo");
}

#[test]
fn rejects_leading_hyphen() {
    assert_rejected("-foo");
}

#[test]
fn rejects_trailing_hyphen() {
    assert_rejected("foo-");
}

#[test]
fn rejects_double_hyphen() {
    assert_rejected("foo--bar");
    assert_rejected("--");
}

#[test]
fn rejects_non_ascii() {
    assert_rejected("olá");
    assert_rejected("café");
}

#[test]
fn rejects_special_chars() {
    assert_rejected("foo bar");
    assert_rejected("foo.bar");
    assert_rejected("foo_bar");
    assert_rejected("foo!bar");
    assert_rejected("foo?bar");
    assert_rejected("foo%2fbar");
    assert_rejected("foo<script>");
}

#[test]
fn rejects_too_long() {
    let max = "a".repeat(64);
    assert!(Slug::try_from(max).is_ok());

    let over = "a".repeat(65);
    assert_rejected(&over);
}

#[test]
fn accepts_single_character_and_inner_hyphens() {
    assert_eq!(Slug::try_from("a".to_string()).unwrap().as_str(), "a");
    assert_eq!(Slug::try_from("a-b-c-1".to_string()).unwrap().as_str(), "a-b-c-1");
    assert_rejected("-");
}

#[test]
fn rejects_sixty_five_characters_of_multibyte_text_and_short_multibyte_text() {
    // 32 two-byte characters: 64 bytes, but not slug characters.
    assert_rejected(&"é".repeat(32));
    assert_rejected("ü");
}
