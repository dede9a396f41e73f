use blog::render::PostRenderer;

fn highlight_code(code: &str, lang: Option<&str>) -> String {
    PostRenderer::new().highlight_code(code, lang)
}

#[test]
fn allows_alphanumeric_lang() {
    let html = highlight_code("x", Some("rust"));
    assert!(html.contains("language-rust"));
}

#[test]
fn allows_lang_with_plus_and_hyphen() {
    assert!(highlight_code("x", Some("c++")).contains("language-c++"));
    assert!(highlight_code("x", Some("objective-c")).contains("language-objective-c"));
}

#[test]
fn allows_lang_with_underscore() {
    assert!(highlight_code("x", Some("c_sharp")).contains("language-c_sharp"));
}

#[test]
fn collapses_to_text_when_lang_is_none() {
    assert!(highlight_code("x", None).contains("language-text"));
}

#[test]
fn collapses_to_text_when_lang_has_quote() {
    let payload = "rust\" onerror=\"alert(1)";
    let html = highlight_code("x", Some(payload));
    assert!(
        html.contains("language-text"),
        "lang with quote must collapse to text, got: {html}"
    );
    assert!(!html.contains("onerror"));
}

#[test]
fn collapses_to_text_when_lang_has_angle_brackets() {
    let html = highlight_code("x", Some("<script>"));
    assert!(html.contains("language-text"));
    assert!(!html.contains("<script"));
}

#[test]
fn collapses_to_text_when_lang_has_space() {
    let html = highlight_code("x", Some("rust autofocus"));
    assert!(html.contains("language-text"));
    assert!(!html.contains("autofocus"));
}

#[test]
fn highlighted_block_has_the_exact_frame() {
    let html = highlight_code("let x = 1;\n", Some("rust"));
    assert!(html.starts_with("<pre><code class=\"highlight language-rust\">"));
    assert!(html.ends_with("</code></pre>"));
    // syntect's classed output for rust code carries prefixed classes.
    assert!(html.contains("class=\"sy-"), "no syntect classes in: {html}");
}

#[test]
fn plain_text_code_is_escaped_by_the_highlighter() {
    let html = highlight_code("<b>hi</b>\n", None);
    assert!(html.contains("&lt;b&gt;"), "code was not escaped: {html}");
    assert!(!html.contains("<b>"));
}

#[test]
fn non_ascii_language_collapses_to_text() {
    assert!(highlight_code("x", Some("rústico")).contains("language-text"));
    // An empty language tag is made only of allowed characters.
    assert!(highlight_code("x", Some("")).contains("class=\"highlight language-\""));
}
