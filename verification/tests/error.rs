use std::io;

use blog::error::{fallback_error_html, AppError};
use blog::templates::ErrorTemplate;

#[test]
fn io_not_found_maps_to_app_not_found() {
    let io_err = io::Error::new(io::ErrorKind::NotFound, "missing");
    match AppError::from(io_err) {
        AppError::NotFound => {}
        other => panic!("expected NotFound, got {other:?}"),
    }
}

#[test]
fn io_permission_denied_maps_to_internal() {
    let io_err = io::Error::new(io::ErrorKind::PermissionDenied, "nope");
    match AppError::from(io_err) {
        AppError::Internal(msg) => {
            assert!(msg.contains("nope"), "expected msg propagated, got: {msg}");
        }
        other => panic!("expected Internal, got {other:?}"),
    }
}

#[test]
fn io_other_kinds_map_to_internal() {
    let io_err = io::Error::other("disk on fire");
    match AppError::from(io_err) {
        AppError::Internal(_) => {}
        other => panic!("expected Internal, got {other:?}"),
    }
}

#[test]
fn from_io_parts_picks_the_variant() {
    match AppError::from_io_parts(true, "ignored".to_string()) {
        AppError::NotFound => {}
        other => panic!("expected NotFound, got {other:?}"),
    }
    match AppError::from_io_parts(false, "boom".to_string()) {
        AppError::Internal(m) => assert_eq!(m, "boom"),
        other => panic!("expected Internal, got {other:?}"),
    }
}

#[test]
fn not_found_page_is_404_with_pt_br_message() {
    let e = AppError::NotFound;
    assert_eq!(e.status_code(), 404);
    assert_eq!(e.public_message(), "Página não encontrada");
    let page = ErrorTemplate::for_error(&e, "abcd1234");
    assert_eq!(page.status, 404);
    assert_eq!(page.message, "Página não encontrada");
    assert_eq!(page.layout.active_nav, "");
    assert_eq!(page.layout.style_hash, "abcd1234");
}

#[test]
fn internal_page_is_500_and_does_not_leak_reason() {
    let e = AppError::Internal("connection refused to internal-only-host:5432".into());
    assert_eq!(e.status_code(), 500);
    let page = ErrorTemplate::for_error(&e, "h");
    assert_eq!(page.status, 500);
    assert_eq!(page.message, "Erro interno do servidor");
    assert!(!page.message.contains("connection refused"));
}

#[test]
fn bad_post_page_is_500_and_does_not_leak_reason_or_slug() {
    let e = AppError::BadPost {
        slug: "leaked-slug".to_string(),
        reason: "yml: very specific parse failure".to_string(),
    };
    let page = ErrorTemplate::for_error(&e, "h");
    assert_eq!(page.status, 500);
    assert_eq!(page.message, "Erro interno do servidor");
    assert!(!page.message.contains("leaked-slug"));
    assert!(!page.message.contains("very specific parse failure"));
}

#[test]
fn fallback_page_shows_status_and_message() {
    assert_eq!(
        fallback_error_html(404, "Página não encontrada"),
        "<h1>404</h1><p>Página não encontrada</p>"
    );
    assert_eq!(fallback_error_html(500, "x"), "<h1>500</h1><p>x</p>");
}

#[test]
fn content_dir_error_mentions_the_directory() {
    match AppError::content_dir_unreadable("No such file or directory (os error 2)") {
        AppError::Internal(m) => {
            assert_eq!(m, "content dir unreadable: No such file or directory (os error 2)")
        }
        other => panic!("expected Internal, got {other:?}"),
    }
}
