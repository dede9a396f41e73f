use blog::blog::{post_from_parts, Frontmatter, Post};
use blog::date::PostDate;
use blog::error::AppError;
use blog::frontmatter::split_frontmatter;
use blog::render::PostRenderer;
use chrono::{Datelike, NaiveDate};

/// Decodes a front matter as the server does, without a derive (which tests
/// cannot use): `title`, `date` (a `NaiveDate`) and `summary` are required,
/// other fields are ignored; the error is the decoder's message.
fn decode_frontmatter(yaml: &str) -> Result<Frontmatter, String> {
    let value: serde_yaml_ng::Value = serde_yaml_ng::from_str(yaml).map_err(|e| e.to_string())?;
    let field = |name: &str| -> Result<String, String> {
        match value.get(name) {
            Some(v) => v
                .as_str()
                .map(str::to_string)
                .ok_or_else(|| format!("invalid type for field `{name}`")),
            None => Err(format!("missing field `{name}`")),
        }
    };
    let title = field("title")?;
    let date: NaiveDate = field("date")?
        .parse()
        .map_err(|e: chrono::ParseError| format!("date: {e}"))?;
    let summary = field("summary")?;
    Ok(Frontmatter {
        title,
        date: PostDate::from_ymd_opt(date.year(), date.month(), date.day()).unwrap(),
        summary,
    })
}

/// Parses a post: frames it, decodes its front matter, renders its body.
fn parse_post(slug: &str, raw: &str) -> Result<Post, AppError> {
    let (yaml, body) = split_frontmatter(slug, raw)?;
    post_from_parts(&PostRenderer::new(), slug, decode_frontmatter(&yaml), &body)
}

#[test]
fn parses_valid_frontmatter_and_returns_body() {
    let raw = "---\ntitle: \"Olá\"\ndate: 2026-04-01\nsummary: \"Resumo\"\n---\n# Conteúdo\n";
    let (yaml, body) = split_frontmatter("post", raw).unwrap();
    let fm = decode_frontmatter(&yaml).unwrap();
    assert_eq!(fm.title, "Olá");
    assert_eq!((fm.date.year(), fm.date.month(), fm.date.day()), (2026, 4, 1));
    assert_eq!(fm.summary, "Resumo");
    assert!(body.starts_with("# Conteúdo"));
}

#[test]
fn invalid_yaml_returns_bad_post_tagged_yml() {
    let raw = "---\ntitle: foo\ndate: not-a-date\nsummary: x\n---\n";
    match parse_post("my-slug", raw) {
        Err(AppError::BadPost { slug, reason }) => {
            assert_eq!(slug, "my-slug");
            assert!(reason.starts_with("yml:"), "reason was: {reason}");
        }
        Ok(_) => panic!("expected BadPost, got Ok"),
        Err(other) => panic!("expected BadPost, got {other:?}"),
    }
}

#[test]
fn missing_required_field_returns_bad_post() {
    let raw = "---\ntitle: foo\ndate: 2026-04-01\n---\n";
    match parse_post("p", raw) {
        Err(AppError::BadPost { reason, .. }) => {
            assert!(reason.starts_with("yml:"), "reason was: {reason}");
        }
        Ok(_) => panic!("expected BadPost, got Ok"),
        Err(other) => panic!("expected BadPost, got {other:?}"),
    }
}

#[test]
fn decoded_post_carries_its_fields() {
    let post = parse_post("hello", "---\ntitle: \"T\"\ndate: 2026-04-01\nsummary: \"S\"\ntags: [rust]\n---\nhi").unwrap();
    assert_eq!(post.title, "T");
    assert_eq!(post.summary, "S");
    assert_eq!(post.content_html, "<p>hi</p>\n");
}

fn raw(body: &str) -> String {
    format!("---\ntitle: \"T\"\ndate: 2026-04-01\nsummary: \"S\"\n---\n{body}")
}

/// Frames the post and builds it from the front matter that `raw` writes
/// (title "T", 2026-04-01, summary "S"), decoded by hand.
fn post_with_known_frontmatter(slug: &str, raw: &str) -> Result<Post, AppError> {
    let (yaml, body) = split_frontmatter(slug, raw)?;
    assert_eq!(yaml, "title: \"T\"\ndate: 2026-04-01\nsummary: \"S\"");
    let fm = Frontmatter {
        title: "T".to_string(),
        date: PostDate::from_ymd_opt(2026, 4, 1).unwrap(),
        summary: "S".to_string(),
    };
    post_from_parts(&PostRenderer::new(), slug, Ok(fm), &body)
}

#[test]
fn returns_post_with_frontmatter_fields() {
    let post = post_with_known_frontmatter("hello", &raw("hi")).unwrap();
    assert_eq!(post.slug, "hello");
    assert_eq!(post.title, "T");
    assert_eq!(post.summary, "S");
    assert_eq!((post.date.year(), post.date.month(), post.date.day()), (2026, 4, 1));
    assert_eq!(post.content_html, "<p>hi</p>\n");
}

#[test]
fn undecodable_frontmatter_is_bad_post_tagged_yml() {
    match post_from_parts(&PostRenderer::new(), "my-slug", Err("invalid date".to_string()), "") {
        Err(AppError::BadPost { slug, reason }) => {
            assert_eq!(slug, "my-slug");
            assert_eq!(reason, "yml: invalid date");
            assert!(reason.starts_with("yml:"));
        }
        Ok(_) => panic!("expected BadPost, got Ok"),
        Err(other) => panic!("expected BadPost, got {other:?}"),
    }
}

#[test]
fn strips_script_tags() {
    let post = post_with_known_frontmatter("p", &raw("<script>alert(1)</script>")).unwrap();
    assert!(
        !post.content_html.contains("<script"),
        "ammonia must strip <script>, body was: {}",
        post.content_html
    );
    assert!(!post.content_html.contains("alert(1)"));
}

#[test]
fn strips_iframe_tags() {
    let post =
        post_with_known_frontmatter("p", &raw("<iframe src=\"http://evil\"></iframe>")).unwrap();
    assert!(!post.content_html.contains("<iframe"));
}

#[test]
fn strips_javascript_urls() {
    let post = post_with_known_frontmatter("p", &raw("[click](javascript:alert(1))")).unwrap();
    assert!(
        !post.content_html.to_lowercase().contains("javascript:"),
        "javascript: URL leaked into output: {}",
        post.content_html
    );
}

#[test]
fn preserves_syntect_span_classes() {
    let post = post_with_known_frontmatter("p", &raw("```rust\nfn main() {}\n```\n")).unwrap();
    assert!(
        post.content_html.contains("class=\"sy-"),
        "syntect span classes were stripped: {}",
        post.content_html
    );
}

#[test]
fn preserves_code_block_language_class() {
    let post = post_with_known_frontmatter("p", &raw("```rust\nfn main() {}\n```\n")).unwrap();
    assert!(
        post.content_html.contains("class=\"highlight language-rust\""),
        "language class was stripped: {}",
        post.content_html
    );
}

#[test]
fn preserves_paragraphs_and_headings() {
    let post = post_with_known_frontmatter("p", &raw("# Título\n\nUm parágrafo.\n")).unwrap();
    assert!(post.content_html.contains("<h1>Título</h1>"));
    assert!(post.content_html.contains("<p>Um parágrafo.</p>"));
}

#[test]
fn markdown_renders_each_event_and_highlights_code() {
    let r = PostRenderer::new();
    assert_eq!(r.render_markdown_to_html("# Título\n"), "<h1>Título</h1>\n");
    let html = r.render_markdown_to_html("```\nplain <x>\n```\n");
    assert!(html.starts_with("<pre><code class=\"highlight language-text\">"), "{html}");
    assert!(html.contains("plain &lt;x&gt;"), "{html}");
    // An indented block has no language either.
    let html = r.render_markdown_to_html("    indented\n");
    assert!(html.starts_with("<pre><code class=\"highlight language-text\">"), "{html}");
    // The info string is trimmed; an unsafe one still collapses to text.
    let html = r.render_markdown_to_html("```  rust  \nx\n```\n");
    assert!(html.contains("language-rust"), "{html}");
    let html = r.render_markdown_to_html("```rust x\nx\n```\n");
    assert!(html.contains("language-text"), "{html}");
}

#[test]
fn text_outside_code_is_escaped() {
    let r = PostRenderer::new();
    assert_eq!(r.render_markdown_to_html("a < b & c\n"), "<p>a &lt; b &amp; c</p>\n");
}
