use blog::blog::{post_slug_for_file, BlogStore, Post};
use blog::date::PostDate;
use blog::error::AppError;
use blog::slug::Slug;

fn post(slug: &str, y: i32, m: u32, d: u32, title: &str) -> Post {
    Post {
        slug: slug.to_string(),
        title: title.to_string(),
        date: PostDate::from_ymd_opt(y, m, d).unwrap(),
        summary: "s".to_string(),
        content_html: String::new(),
    }
}

#[test]
fn keeps_valid_posts_in_all_and_by_slug() {
    let store = BlogStore::from_loaded(vec![
        Ok(post("a", 2026, 1, 1, "A")),
        Ok(post("b", 2026, 2, 1, "B")),
    ]);
    assert_eq!(store.all.len(), 2);
    assert!(store.by_slug("a").is_some());
    assert!(store.by_slug("b").is_some());
    assert_eq!(store.by_slug("a").unwrap().title, "A");
    assert!(store.by_slug("c").is_none());
}

#[test]
fn sorts_posts_newest_first() {
    let store = BlogStore::from_loaded(vec![
        Ok(post("old", 2025, 1, 1, "Old")),
        Ok(post("new", 2026, 4, 1, "New")),
        Ok(post("mid", 2026, 1, 15, "Mid")),
    ]);
    let titles: Vec<&str> = store.all.iter().map(|p| p.title.as_str()).collect();
    assert_eq!(titles, vec!["New", "Mid", "Old"]);
}

#[test]
fn posts_of_the_same_day_keep_their_order() {
    let store = BlogStore::from_loaded(vec![
        Ok(post("x", 2026, 1, 1, "X")),
        Ok(post("y", 2026, 3, 1, "Y")),
        Ok(post("z", 2026, 1, 1, "Z")),
        Ok(post("w", 2026, 3, 1, "W")),
    ]);
    let titles: Vec<&str> = store.all.iter().map(|p| p.title.as_str()).collect();
    assert_eq!(titles, vec!["Y", "W", "X", "Z"]);
}

#[test]
fn skips_broken_posts_without_failing_index() {
    let store = BlogStore::from_loaded(vec![
        Ok(post("good", 2026, 4, 1, "Good")),
        Err(AppError::BadPost { slug: "broken".to_string(), reason: "missing opening --- fence".to_string() }),
        Err(AppError::NotFound),
    ]);
    assert_eq!(store.all.len(), 1);
    assert_eq!(store.all[0].slug, "good");
    assert!(store.by_slug("broken").is_none());
}

#[test]
fn empty_input_yields_empty_store() {
    let store = BlogStore::from_loaded(Vec::new());
    assert!(store.all.is_empty());
    assert!(store.by_slug("anything").is_none());
}

#[test]
fn find_answers_not_found_for_unknown_slugs() {
    let store = BlogStore::from_loaded(vec![Ok(post("real", 2026, 4, 1, "Real"))]);
    let found = store.find(&Slug::try_from("real".to_string()).unwrap()).unwrap();
    assert_eq!(found.title, "Real");
    match store.find(&Slug::try_from("does-not-exist".to_string()).unwrap()) {
        Err(AppError::NotFound) => {}
        _ => panic!("expected NotFound"),
    }
}

#[test]
fn duplicate_slugs_resolve_to_the_last_in_order() {
    let store = BlogStore::from_loaded(vec![
        Ok(post("dup", 2026, 4, 1, "Newer")),
        Ok(post("dup", 2025, 4, 1, "Older")),
    ]);
    assert_eq!(store.by_slug("dup").unwrap().title, "Older");
}

#[test]
fn only_markdown_files_are_posts() {
    assert_eq!(post_slug_for_file("real.md"), Some("real".to_string()));
    assert_eq!(post_slug_for_file("a.b.md"), Some("a.b".to_string()));
    assert_eq!(post_slug_for_file("README.txt"), None);
    assert_eq!(post_slug_for_file("draft.markdown"), None);
    assert_eq!(post_slug_for_file("noext"), None);
    assert_eq!(post_slug_for_file(".md"), None);
    assert_eq!(post_slug_for_file("x.MD"), None);
    assert_eq!(post_slug_for_file("..md"), Some(".".to_string()));
    assert_eq!(post_slug_for_file(""), None);
}
