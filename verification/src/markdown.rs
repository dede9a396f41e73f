use vstd::prelude::*;
use vstd::string::*;
use pulldown_cmark::{Event, Tag, TagEnd};

verus! {

/// `pulldown_cmark::Event`, carried opaque.
#[verifier::external_type_specification]
#[verifier::external_body]
pub struct ExEvent<'a>(pulldown_cmark::Event<'a>);

/// How a code block is opened.
pub enum CodeBlockKind {
    Indented,
    /// A fenced block, with the info string written after the fence.
    Fenced(String),
}

/// What the rendering reads of a markdown event: the start and end of a code
/// block, a text node, or any other event.
pub enum MdEvent {
    CodeBlockStart(CodeBlockKind),
    Text(String),
    CodeBlockEnd,
    Other,
}

/// The view of an `MdEvent`.
pub enum MdEventView {
    CodeBlockStart { fenced: bool, info: Seq<char> },
    Text(Seq<char>),
    CodeBlockEnd,
    Other,
}

impl View for MdEvent {
    type V = MdEventView;

    open spec fn view(&self) -> MdEventView {
        match self {
            MdEvent::CodeBlockStart(CodeBlockKind::Indented) => MdEventView::CodeBlockStart {
                fenced: false,
                info: Seq::empty(),
            },
            MdEvent::CodeBlockStart(CodeBlockKind::Fenced(info)) => MdEventView::CodeBlockStart {
                fenced: true,
                info: info@,
            },
            MdEvent::Text(t) => MdEventView::Text(t@),
            MdEvent::CodeBlockEnd => MdEventView::CodeBlockEnd,
            MdEvent::Other => MdEventView::Other,
        }
    }
}

/// The events that `pulldown_cmark::Parser::new(source)` yields, as the
/// rendering reads them.
pub uninterp spec fn markdown_events(source: Seq<char>) -> Seq<MdEventView>;

/// The HTML that `pulldown_cmark::html::push_html` writes for the `i`-th
/// event of `source` alone.
pub uninterp spec fn markdown_event_html(source: Seq<char>, i: int) -> Seq<char>;

/// The events of a markdown text, parsed once.
pub struct MarkdownEvents<'a> {
    source: &'a str,
    events: Vec<pulldown_cmark::Event<'a>>,
}

/// `pulldown_cmark::Parser::new(source)`, collected: one value per event.
#[verifier::external_body]
fn parse_events<'a>(source: &'a str) -> (r: Vec<pulldown_cmark::Event<'a>>)
    ensures
        r@.len() == markdown_events(source@).len(),
{
    pulldown_cmark::Parser::new(source).collect()
}

/// The `i`-th event of `doc`, told apart as the rendering needs: a code
/// block's start (with its kind and info string), a text node, a code
/// block's end, or any other event.
#[verifier::external_body]
fn event_kind<'a>(doc: &MarkdownEvents<'a>, i: usize) -> (r: MdEvent)
    requires
        i < doc.events@.len(),
    ensures
        r@ == markdown_events(doc.source@)[i as int],
{
    match &doc.events[i] {
        Event::Start(Tag::CodeBlock(pulldown_cmark::CodeBlockKind::Indented)) => MdEvent::CodeBlockStart(CodeBlockKind::Indented),
        Event::Start(Tag::CodeBlock(pulldown_cmark::CodeBlockKind::Fenced(info))) => MdEvent::CodeBlockStart(CodeBlockKind::Fenced(info.to_string())),
        Event::Text(text) => MdEvent::Text(text.to_string()),
        Event::End(TagEnd::CodeBlock) => MdEvent::CodeBlockEnd,
        _ => MdEvent::Other,
    }
}

/// `pulldown_cmark::html::push_html` on the `i`-th event of `doc` alone,
/// into a new string.
#[verifier::external_body]
fn event_html<'a>(doc: &MarkdownEvents<'a>, i: usize) -> (r: String)
    requires
        i < doc.events@.len(),
    ensures
        r@ == markdown_event_html(doc.source@, i as int),
{
    let mut html = String::new();
    pulldown_cmark::html::push_html(&mut html, std::iter::once(doc.events[i].clone()));
    html
}

impl<'a> MarkdownEvents<'a> {
    pub closed spec fn spec_source(&self) -> Seq<char> {
        self.source@
    }

    pub closed spec fn spec_len(&self) -> nat {
        self.events@.len()
    }

    pub fn parse(source: &'a str) -> (r: MarkdownEvents<'a>)
        ensures
            r.spec_source() == source@,
            r.spec_len() == markdown_events(source@).len(),
    {
        MarkdownEvents { source, events: parse_events(source) }
    }

    pub fn len(&self) -> (r: usize)
        ensures
            r == self.spec_len(),
    {
        self.events.len()
    }

    pub fn kind(&self, i: usize) -> (r: MdEvent)
        requires
            i < self.spec_len(),
        ensures
            r@ == markdown_events(self.spec_source())[i as int],
    {
        event_kind(self, i)
    }

    pub fn html_of(&self, i: usize) -> (r: String)
        requires
            i < self.spec_len(),
        ensures
            r@ == markdown_event_html(self.spec_source(), i as int),
    {
        event_html(self, i)
    }
}

} // verus!
