use vstd::prelude::*;
use vstd::string::*;

use crate::highlight::{
    highlighted_html, opt_view, syntect_classed_html, syntect_plain_text_syntax,
    syntect_syntax_by_token, Highlighter,
};
use syntect::parsing::SyntaxSet;
use crate::markdown::{markdown_event_html, markdown_events, CodeBlockKind, MarkdownEvents, MdEvent, MdEventView};
use crate::sanitize::{ammonia_clean, highlight_class_attributes, Sanitizer};
use crate::text::chars_of;

verus! {

/// A character with the Unicode `White_Space` property, as
/// `char::is_whitespace` tests it.
pub open spec fn is_white_space(c: char) -> bool {
    ('\u{9}' <= c && c <= '\u{d}') || c == ' ' || c == '\u{85}' || c == '\u{a0}' || c == '\u{1680}'
        || ('\u{2000}' <= c && c <= '\u{200a}') || c == '\u{2028}' || c == '\u{2029}' || c
        == '\u{202f}' || c == '\u{205f}' || c == '\u{3000}'
}

/// `s` without its leading white space.
pub open spec fn trim_start_ws(s: Seq<char>) -> Seq<char>
    decreases s.len(),
{
    if s.len() > 0 && is_white_space(s[0]) {
        trim_start_ws(s.drop_first())
    } else {
        s
    }
}

/// `s` without its trailing white space.
pub open spec fn trim_end_ws(s: Seq<char>) -> Seq<char>
    decreases s.len(),
{
    if s.len() > 0 && is_white_space(s.last()) {
        trim_end_ws(s.drop_last())
    } else {
        s
    }
}

/// `s` without white space at either end, as `str::trim` gives it.
pub open spec fn trim_ws(s: Seq<char>) -> Seq<char> {
    trim_end_ws(trim_start_ws(s))
}

fn is_white_space_char(c: char) -> (r: bool)
    ensures
        r == is_white_space(c),
{
    ('\u{9}' <= c && c <= '\u{d}') || c == ' ' || c == '\u{85}' || c == '\u{a0}' || c == '\u{1680}'
        || ('\u{2000}' <= c && c <= '\u{200a}') || c == '\u{2028}' || c == '\u{2029}' || c
        == '\u{202f}' || c == '\u{205f}' || c == '\u{3000}'
}

proof fn lemma_trim_start(s: Seq<char>, a: int)
    requires
        0 <= a <= s.len(),
        forall|i: int| 0 <= i < a ==> is_white_space(#[trigger] s[i]),
        a == s.len() || !is_white_space(s[a]),
    ensures
        trim_start_ws(s) == s.skip(a),
    decreases a,
{
    if a == 0 {
        assert(s.skip(0) =~= s);
    } else {
        assert(is_white_space(s[0]));
        assert forall|i: int| 0 <= i < a - 1 implies is_white_space(#[trigger] s.drop_first()[i]) by {
            assert(s.drop_first()[i] == s[i + 1]);
        }
        lemma_trim_start(s.drop_first(), a - 1);
        assert(s.drop_first().skip(a - 1) =~= s.skip(a));
    }
}

proof fn lemma_trim_end(s: Seq<char>, b: int)
    requires
        0 <= b <= s.len(),
        forall|i: int| b <= i < s.len() ==> is_white_space(#[trigger] s[i]),
        b == 0 || !is_white_space(s[b - 1]),
    ensures
        trim_end_ws(s) == s.take(b),
    decreases s.len() - b,
{
    if b == s.len() {
        assert(s.take(b) =~= s);
    } else {
        assert(is_white_space(s.last()));
        assert forall|i: int| b <= i < s.len() - 1 implies is_white_space(#[trigger] s.drop_last()[i]) by {
            assert(s.drop_last()[i] == s[i]);
        }
        lemma_trim_end(s.drop_last(), b);
        assert(s.drop_last().take(b) =~= s.take(b));
    }
}

/// `s` without white space at either end.
pub fn trim_text(s: &str) -> (r: String)
    ensures
        r@ == trim_ws(s@),
{
    let cs = chars_of(s);
    let n = cs.len();
    let mut a: usize = 0;
    while a < n && is_white_space_char(cs[a])
        invariant
            a <= n,
            n == cs@.len(),
            forall|i: int| 0 <= i < a ==> is_white_space(#[trigger] cs@[i]),
        decreases n - a,
    {
        a = a + 1;
    }
    let mut b: usize = n;
    while b > a && is_white_space_char(cs[b - 1])
        invariant
            a <= b <= n,
            n == cs@.len(),
            forall|i: int| b <= i < n ==> is_white_space(#[trigger] cs@[i]),
        decreases b,
    {
        b = b - 1;
    }
    proof {
        lemma_trim_start(s@, a as int);
        let t = s@.skip(a as int);
        assert forall|i: int| b - a <= i < t.len() implies is_white_space(#[trigger] t[i]) by {
            assert(t[i] == cs@[i + a]);
        }
        if b > a {
            assert(t[b - a - 1] == cs@[b - 1]);
        }
        lemma_trim_end(t, b - a);
        assert(t.take(b - a) =~= s@.subrange(a as int, b as int));
    }
    String::from_str(s.substring_char(a, b))
}

/// A character allowed in the language class of a code block: an ASCII
/// letter or digit, `_`, `+` or `-`.
pub open spec fn is_language_char(c: char) -> bool {
    ('a' <= c && c <= 'z') || ('A' <= c && c <= 'Z') || ('0' <= c && c <= '9') || c == '_' || c
        == '+' || c == '-'
}

/// The language named in the `class` attribute of a highlighted block: the
/// given language when it is made only of language characters, otherwise
/// `text`, so that no language tag can break out of the attribute.
pub open spec fn language_class(lang: Option<Seq<char>>) -> Seq<char> {
    match lang {
        Some(l) => if forall|i: int| 0 <= i < l.len() ==> is_language_char(#[trigger] l[i]) {
            l
        } else {
            "text"@
        },
        None => "text"@,
    }
}

/// The class prefix of the highlighter's spans.
pub open spec fn highlight_prefix() -> Seq<char> {
    "sy-"@
}

/// A highlighted code block: syntect's classed HTML for `code`, inside a
/// `pre` and a `code` element whose class names the language.
pub open spec fn highlighted_block(s: SyntaxSet, code: Seq<char>, lang: Option<Seq<char>>) -> Seq<char> {
    "<pre><code class=\"highlight language-"@ + language_class(lang) + "\">"@
        + highlighted_html(s, code, lang, highlight_prefix()) + "</code></pre>"@
}

fn language_class_of(lang: Option<&str>) -> (r: &str)
    ensures
        r@ == language_class(opt_view(lang)),
{
    match lang {
        Some(l) => {
            let cs = chars_of(l);
            let mut i: usize = 0;
            while i < cs.len()
                invariant
                    cs@ == l@,
                    opt_view(lang) == Some(l@),
                    i <= cs@.len(),
                    forall|j: int| 0 <= j < i ==> is_language_char(#[trigger] l@[j]),
                decreases cs@.len() - i,
            {
                let c = cs[i];
                if !(('a' <= c && c <= 'z') || ('A' <= c && c <= 'Z') || ('0' <= c && c <= '9') || c
                    == '_' || c == '+' || c == '-') {
                    assert(!is_language_char(l@[i as int]));
                    assert(!(forall|j: int| 0 <= j < l@.len() ==> is_language_char(#[trigger] l@[j])));
                    return "text";
                }
                i = i + 1;
            }
            l
        },
        None => "text",
    }
}

/// The language named in a highlighted block's class is made only of ASCII
/// letters and digits, `_`, `+` and `-`: never a quote, a space or an angle
/// bracket, so it cannot end the attribute. A language made only of those
/// characters is kept as it is; any other becomes `text`.
pub proof fn law_language_class_is_safe(lang: Option<Seq<char>>)
    ensures
        forall|i: int|
            0 <= i < language_class(lang).len() ==> is_language_char(#[trigger] language_class(lang)[i]),
        match lang {
            Some(l) => if forall|i: int| 0 <= i < l.len() ==> is_language_char(#[trigger] l[i]) {
                language_class(lang) == l
            } else {
                language_class(lang) == "text"@
            },
            None => language_class(lang) == "text"@,
        },
{
    reveal_strlit("text");
}

/// The state of the markdown rendering after some events: the HTML written
/// so far, and the code block being collected, if any.
pub struct RenderState {
    pub html: Seq<char>,
    pub code: Seq<char>,
    pub lang: Option<Seq<char>>,
    pub in_code: bool,
}

/// The language of a code block: the trimmed info string of a fenced block,
/// when it is not empty.
pub open spec fn code_block_language(fenced: bool, info: Seq<char>) -> Option<Seq<char>> {
    if fenced && trim_ws(info).len() > 0 {
        Some(trim_ws(info))
    } else {
        None
    }
}

/// One event of the rendering: a code block's start opens an empty block
/// with its language; text inside a block is collected; a block's end writes
/// the highlighted block; every other event (text outside a block too) is
/// written as pulldown_cmark writes it alone.
pub open spec fn render_step(s: SyntaxSet, source: Seq<char>, st: RenderState, i: int) -> RenderState {
    match markdown_events(source)[i] {
        MdEventView::CodeBlockStart { fenced, info } => RenderState {
            html: st.html,
            code: Seq::empty(),
            lang: code_block_language(fenced, info),
            in_code: true,
        },
        MdEventView::Text(t) => if st.in_code {
            RenderState { code: st.code + t, ..st }
        } else {
            RenderState { html: st.html + markdown_event_html(source, i), ..st }
        },
        MdEventView::CodeBlockEnd => RenderState {
            html: st.html + highlighted_block(s, st.code, st.lang),
            code: Seq::empty(),
            lang: None,
            in_code: false,
        },
        MdEventView::Other => RenderState { html: st.html + markdown_event_html(source, i), ..st },
    }
}

/// The rendering state after the first `n` events of `source`.
pub open spec fn render_prefix(s: SyntaxSet, source: Seq<char>, n: nat) -> RenderState
    decreases n,
{
    if n == 0 {
        RenderState { html: Seq::empty(), code: Seq::empty(), lang: None, in_code: false }
    } else {
        render_step(s, source, render_prefix(s, source, (n - 1) as nat), n - 1)
    }
}

/// Event `j` of `source` opens a code block that no event before `n` closes.
pub open spec fn block_open_between(source: Seq<char>, j: int, n: int) -> bool {
    &&& 0 <= j < n
    &&& markdown_events(source)[j] is CodeBlockStart
    &&& forall|k: int| j < k < n ==> !(#[trigger] markdown_events(source)[k] is CodeBlockEnd)
}

/// The rendering is inside a code block after the first `n` events exactly
/// when one of them opened a block that none after it closed: a block's end
/// always leaves code mode.
pub proof fn law_in_code_exactly_inside_open_block(s: SyntaxSet, source: Seq<char>, n: nat)
    requires
        n <= markdown_events(source).len(),
    ensures
        render_prefix(s, source, n).in_code <==> exists|j: int| block_open_between(source, j, n as int),
    decreases n,
{
    if n > 0 {
        let m = (n - 1) as nat;
        law_in_code_exactly_inside_open_block(s, source, m);
        let ev = markdown_events(source)[m as int];
        match ev {
            MdEventView::CodeBlockStart { .. } => {
                assert(block_open_between(source, m as int, n as int));
            },
            MdEventView::CodeBlockEnd => {
                assert forall|j: int| !block_open_between(source, j, n as int) by {
                    if block_open_between(source, j, n as int) {
                        if j < m {
                            assert(!(markdown_events(source)[m as int] is CodeBlockEnd));
                        }
                    }
                }
            },
            _ => {
                if exists|j: int| block_open_between(source, j, n as int) {
                    let j = choose|j: int| block_open_between(source, j, n as int);
                    assert(j != m);
                    assert(block_open_between(source, j, m as int));
                }
                if exists|j: int| block_open_between(source, j, m as int) {
                    let j = choose|j: int| block_open_between(source, j, m as int);
                    assert(block_open_between(source, j, n as int));
                }
            },
        }
    }
}

/// After the end of a code block the rendering is outside any block.
pub proof fn law_block_end_leaves_code(s: SyntaxSet, source: Seq<char>, n: nat)
    requires
        0 < n <= markdown_events(source).len(),
        markdown_events(source)[n - 1] is CodeBlockEnd,
    ensures
        !render_prefix(s, source, n).in_code,
{
    law_in_code_exactly_inside_open_block(s, source, n);
    assert forall|j: int| !block_open_between(source, j, n as int) by {
        if block_open_between(source, j, n as int) && j < n - 1 {
            assert(!(markdown_events(source)[n - 1] is CodeBlockEnd));
        }
    }
}

/// Text outside every code block (none open since the last block's end) is
/// written as pulldown_cmark writes it; text inside a block adds nothing to
/// the HTML yet, it joins the block's code.
pub proof fn law_text_outside_blocks_is_written(s: SyntaxSet, source: Seq<char>, i: nat)
    requires
        i < markdown_events(source).len(),
        markdown_events(source)[i as int] is Text,
    ensures
        !(exists|j: int| block_open_between(source, j, i as int)) ==> render_prefix(s, source, i + 1).html
            == render_prefix(s, source, i).html + markdown_event_html(source, i as int),
        (exists|j: int| block_open_between(source, j, i as int)) ==> render_prefix(s, source, i + 1).html
            == render_prefix(s, source, i).html && render_prefix(s, source, i + 1).code
            == render_prefix(s, source, i).code + markdown_events(source)[i as int]->Text_0,
{
    law_in_code_exactly_inside_open_block(s, source, i);
    assert(render_prefix(s, source, i + 1) == render_step(s, source, render_prefix(s, source, i), i as int));
}

/// A highlighted block is the `pre`/`code` frame naming the safe language
/// class, around syntect's classed HTML of the code in the syntax syntect
/// finds for the block's language (plain text when it has none or none is
/// found), with the `sy-` class prefix.
pub proof fn law_block_is_highlighted_in_its_language(s: SyntaxSet, code: Seq<char>, lang: Option<Seq<char>>)
    ensures
        highlighted_block(s, code, lang) == "<pre><code class=\"highlight language-"@ + language_class(
            lang,
        ) + "\">"@ + syntect_classed_html(
            s,
            match lang {
                Some(l) => match syntect_syntax_by_token(s, l) {
                    Some(found) => found,
                    None => syntect_plain_text_syntax(s),
                },
                None => syntect_plain_text_syntax(s),
            },
            code,
            "sy-"@,
        ) + "</code></pre>"@,
{
}

/// The HTML of a markdown text, code blocks highlighted.
pub open spec fn rendered_markdown(s: SyntaxSet, source: Seq<char>) -> Seq<char> {
    render_prefix(s, source, markdown_events(source).len()).html
}

/// The HTML of a post's body: the rendered markdown, sanitised last so that
/// the highlighter's HTML is held to the same allowlist as the author's.
pub open spec fn post_body_html(s: SyntaxSet, source: Seq<char>) -> Seq<char> {
    ammonia_clean(highlight_class_attributes(), rendered_markdown(s, source))
}

/// Turns markdown into safe HTML: parse, highlight code blocks, sanitise.
pub struct PostRenderer {
    highlighter: Highlighter,
    sanitizer: Sanitizer,
}

impl PostRenderer {
    /// Whether code is highlighted with syntect's default syntax definitions.
    pub closed spec fn uses_default_syntaxes(&self) -> bool {
        self.highlighter.has_default_syntaxes()
    }

    /// The syntax definitions code is highlighted with.
    pub closed spec fn syntax_set(&self) -> SyntaxSet {
        self.highlighter.syntax_set()
    }

    /// The tag attributes the sanitiser allows beyond ammonia's defaults.
    pub closed spec fn sanitizer_attributes(&self) -> Set<(Seq<char>, Seq<char>)> {
        self.sanitizer.added_attributes()
    }

    /// A renderer that highlights with syntect's default syntaxes and
    /// sanitises with ammonia's defaults plus `class` on `code` and `span`.
    pub fn new() -> (r: PostRenderer)
        ensures
            r.uses_default_syntaxes(),
            r.sanitizer_attributes() == highlight_class_attributes(),
    {
        PostRenderer { highlighter: Highlighter::new(), sanitizer: Sanitizer::new() }
    }

    /// A highlighted code block, as `highlighted_block` says.
    pub fn highlight_code(&self, code: &str, lang: Option<&str>) -> (r: String)
        ensures
            r@ == highlighted_block(self.syntax_set(), code@, opt_view(lang)),
    {
        let inner = self.highlighter.classed_html(code, lang, "sy-");
        let mut out = String::from_str("<pre><code class=\"highlight language-");
        out.append(language_class_of(lang));
        out.append("\">");
        out.append(inner.as_str());
        out.append("</code></pre>");
        out
    }

    /// The HTML of markdown `body`, as `rendered_markdown` says: every event
    /// rendered on its own, code blocks collected and highlighted.
    pub fn render_markdown_to_html(&self, body: &str) -> (r: String)
        ensures
            r@ == rendered_markdown(self.syntax_set(), body@),
    {
        let doc = MarkdownEvents::parse(body);
        let n = doc.len();
        let mut html = String::new();
        let mut code = String::new();
        let mut lang: Option<String> = None;
        let mut in_code = false;
        let mut i: usize = 0;
        while i < n
            invariant
                i <= n,
                n == markdown_events(body@).len(),
                doc.spec_source() == body@,
                doc.spec_len() == n,
                ({
                    let st = render_prefix(self.syntax_set(), body@, i as nat);
                    &&& st.html == html@
                    &&& st.code == code@
                    &&& st.lang == match lang {
                        Some(l) => Some(l@),
                        None => None::<Seq<char>>,
                    }
                    &&& st.in_code == in_code
                }),
            decreases n - i,
        {
            match doc.kind(i) {
                MdEvent::CodeBlockStart(kind) => {
                    in_code = true;
                    lang = match kind {
                        CodeBlockKind::Fenced(info) => {
                            let t = trim_text(info.as_str());
                            if t.as_str().is_empty() {
                                None
                            } else {
                                Some(t)
                            }
                        },
                        CodeBlockKind::Indented => None,
                    };
                    code = String::new();
                },
                MdEvent::Text(t) => {
                    if in_code {
                        code.append(t.as_str());
                    } else {
                        let piece = doc.html_of(i);
                        html.append(piece.as_str());
                    }
                },
                MdEvent::CodeBlockEnd => {
                    let block = match &lang {
                        Some(l) => self.highlight_code(code.as_str(), Some(l.as_str())),
                        None => self.highlight_code(code.as_str(), None),
                    };
                    html.append(block.as_str());
                    code = String::new();
                    lang = None;
                    in_code = false;
                },
                MdEvent::Other => {
                    let piece = doc.html_of(i);
                    html.append(piece.as_str());
                },
            }
            i = i + 1;
        }
        html
    }

    /// The HTML of a post's body, as `post_body_html` says.
    pub fn render_post_html(&self, body: &str) -> (r: String)
        ensures
            r@ == post_body_html(self.syntax_set(), body@),
    {
        let html = self.render_markdown_to_html(body);
        self.sanitizer.clean(html.as_str())
    }
}

} // verus!
