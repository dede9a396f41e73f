use blog::error::AppError;
use blog::frontmatter::split_frontmatter;

const VALID: &str = "---\n\
title: \"Olá\"\n\
date: 2026-04-01\n\
summary: \"Resumo\"\n\
---\n\
# Conteúdo\n";

#[test]
fn splits_valid_frontmatter_and_returns_body() {
    let (yaml, body) = split_frontmatter("post", VALID).unwrap();
    assert_eq!(yaml, "title: \"Olá\"\ndate: 2026-04-01\nsummary: \"Resumo\"");
    assert!(body.starts_with("# Conteúdo"));
    assert_eq!(body, "# Conteúdo\n");
}

#[test]
fn missing_opening_fence_returns_bad_post_with_slug() {
    let raw = "title: foo\ndate: 2026-04-01\nsummary: x\n";
    match split_frontmatter("my-slug", raw) {
        Err(AppError::BadPost { slug, reason }) => {
            assert_eq!(slug, "my-slug");
            assert!(reason.contains("opening"), "reason was: {reason}");
        }
        Ok(_) => panic!("expected BadPost, got Ok"),
        Err(other) => panic!("expected BadPost, got {other:?}"),
    }
}

#[test]
fn missing_closing_fence_returns_bad_post() {
    let raw = "---\ntitle: foo\ndate: 2026-04-01\nsummary: x\n";
    match split_frontmatter("my-slug", raw) {
        Err(AppError::BadPost { slug, reason }) => {
            assert_eq!(slug, "my-slug");
            assert!(reason.contains("closing"), "reason was: {reason}");
        }
        Ok(_) => panic!("expected BadPost, got Ok"),
        Err(other) => panic!("expected BadPost, got {other:?}"),
    }
}

#[test]
fn reasons_name_the_missing_fence_exactly() {
    match split_frontmatter("s", "") {
        Err(AppError::BadPost { reason, .. }) => assert_eq!(reason, "missing opening --- fence"),
        _ => panic!("expected BadPost"),
    }
    match split_frontmatter("s", "---\n") {
        Err(AppError::BadPost { reason, .. }) => assert_eq!(reason, "missing closing --- fence"),
        _ => panic!("expected BadPost"),
    }
}

#[test]
fn framing_round_trips_and_strips_every_leading_newline() {
    let raw = "---\na: 1\n---\n\n\nbody\n\ntext";
    let (yaml, body) = split_frontmatter("s", raw).unwrap();
    assert_eq!(yaml, "a: 1");
    assert_eq!(body, "body\n\ntext");
}

#[test]
fn front_matter_ends_at_the_first_closing_fence() {
    let raw = "---\nx\n---y\n---\nz";
    let (yaml, body) = split_frontmatter("s", raw).unwrap();
    assert_eq!(yaml, "x");
    assert_eq!(body, "y\n---\nz");
}

#[test]
fn empty_front_matter_and_empty_body() {
    // The closing fence brings its own newline: it cannot share the opening one.
    assert!(split_frontmatter("s", "---\n---").is_err());
    let (yaml, body) = split_frontmatter("s", "---\n\n---").unwrap();
    assert_eq!(yaml, "");
    assert_eq!(body, "");
}
