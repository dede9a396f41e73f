use vstd::prelude::*;
use vstd::string::*;

use syntect::parsing::{SyntaxReference, SyntaxSet};

verus! {

/// `syntect::parsing::SyntaxSet`, carried opaque.
#[verifier::external_type_specification]
#[verifier::external_body]
pub struct ExSyntaxSet(syntect::parsing::SyntaxSet);

/// `syntect::parsing::SyntaxReference`, one syntax definition, carried opaque.
#[verifier::external_type_specification]
#[verifier::external_body]
pub struct ExSyntaxReference(syntect::parsing::SyntaxReference);

/// Whether `s` holds exactly the syntax definitions that
/// `SyntaxSet::load_defaults_newlines()` loads.
pub uninterp spec fn is_default_syntax_set(s: SyntaxSet) -> bool;

/// What `SyntaxSet::find_syntax_by_token(token)` finds in `s`.
pub uninterp spec fn syntect_syntax_by_token(s: SyntaxSet, token: Seq<char>) -> Option<SyntaxReference>;

/// What `SyntaxSet::find_syntax_plain_text()` gives for `s`.
pub uninterp spec fn syntect_plain_text_syntax(s: SyntaxSet) -> SyntaxReference;

/// What syntect's `ClassedHTMLGenerator`, made with `syntax` of `s` and
/// classes spaced and prefixed by `prefix`, writes for `code` fed line by
/// line (`LinesWithEndings`) and finalized.
pub uninterp spec fn syntect_classed_html(
    s: SyntaxSet,
    syntax: SyntaxReference,
    code: Seq<char>,
    prefix: Seq<char>,
) -> Seq<char>;

/// `syntax` is one of the definitions of `s`, as the lookups hand them out.
pub open spec fn is_syntax_of(s: SyntaxSet, syntax: SyntaxReference) -> bool {
    syntax == syntect_plain_text_syntax(s) || exists|t: Seq<char>|
        #[trigger] syntect_syntax_by_token(s, t) == Some(syntax)
}

/// `syntect::parsing::SyntaxSet::load_defaults_newlines()`: the syntax
/// definitions bundled with syntect, for lines that keep their newline.
#[verifier::external_body]
fn load_default_syntaxes() -> (r: SyntaxSet)
    ensures
        is_default_syntax_set(r),
{
    SyntaxSet::load_defaults_newlines()
}

/// `SyntaxSet::find_syntax_by_token(token)`: a syntax whose file extension
/// or (case-insensitively) name is `token`, if any.
#[verifier::external_body]
fn find_syntax_by_token<'a>(s: &'a SyntaxSet, token: &str) -> (r: Option<&'a SyntaxReference>)
    ensures
        match r {
            Some(syntax) => syntect_syntax_by_token(*s, token@) == Some(*syntax),
            None => syntect_syntax_by_token(*s, token@) is None,
        },
{
    s.find_syntax_by_token(token)
}

/// `SyntaxSet::find_syntax_plain_text()`: the "Plain Text" syntax. It panics
/// on a set without one; the default set has one.
#[verifier::external_body]
fn find_syntax_plain_text<'a>(s: &'a SyntaxSet) -> (r: &'a SyntaxReference)
    requires
        is_default_syntax_set(*s),
    ensures
        *r == syntect_plain_text_syntax(*s),
{
    s.find_syntax_plain_text()
}

/// syntect's classed HTML for `code` in `syntax`:
/// `ClassedHTMLGenerator::new_with_class_style` with
/// `ClassStyle::SpacedPrefixed { prefix }`, then
/// `parse_html_for_line_which_includes_newline` on each line of
/// `LinesWithEndings` (a line that fails to parse adds nothing, as the
/// generator leaves it), then `finalize`, which closes the open spans.
#[verifier::external_body]
fn generate_classed_html(s: &SyntaxSet, syntax: &SyntaxReference, code: &str, prefix: &'static str) -> (r: String)
    requires
        is_syntax_of(*s, *syntax),
    ensures
        r@ == syntect_classed_html(*s, *syntax, code@, prefix@),
{
    let mut generator = syntect::html::ClassedHTMLGenerator::new_with_class_style(
        syntax, s, syntect::html::ClassStyle::SpacedPrefixed { prefix });
    for line in syntect::util::LinesWithEndings::from(code) {
        let _ = generator.parse_html_for_line_which_includes_newline(line);
    }
    generator.finalize()
}

/// The view of an optional string slice.
pub open spec fn opt_view(o: Option<&str>) -> Option<Seq<char>> {
    match o {
        Some(s) => Some(s@),
        None => None,
    }
}

/// The syntax a code block is highlighted in: the one syntect finds for its
/// language, or plain text when it has no language or none is found.
pub open spec fn chosen_syntax(s: SyntaxSet, lang: Option<Seq<char>>) -> SyntaxReference {
    match lang {
        Some(l) => match syntect_syntax_by_token(s, l) {
            Some(syntax) => syntax,
            None => syntect_plain_text_syntax(s),
        },
        None => syntect_plain_text_syntax(s),
    }
}

/// The highlighted HTML of `code` in language `lang`, classes prefixed by
/// `prefix`.
pub open spec fn highlighted_html(
    s: SyntaxSet,
    code: Seq<char>,
    lang: Option<Seq<char>>,
    prefix: Seq<char>,
) -> Seq<char> {
    syntect_classed_html(s, chosen_syntax(s, lang), code, prefix)
}

/// The default syntax definitions of syntect, loaded once and reused.
pub struct Highlighter {
    syntaxes: SyntaxSet,
}

impl Highlighter {
    #[verifier::type_invariant]
    spec fn holds_default_syntaxes(self) -> bool {
        is_default_syntax_set(self.syntaxes)
    }

    /// The syntax definitions this highlighter uses.
    pub closed spec fn syntax_set(&self) -> SyntaxSet {
        self.syntaxes
    }

    /// Whether this highlighter holds syntect's default syntax definitions.
    pub open spec fn has_default_syntaxes(&self) -> bool {
        is_default_syntax_set(self.syntax_set())
    }

    /// A highlighter with syntect's default syntax definitions.
    pub fn new() -> (r: Highlighter)
        ensures
            r.has_default_syntaxes(),
    {
        Highlighter { syntaxes: load_default_syntaxes() }
    }

    /// The classed HTML of `code`, as `highlighted_html` says: the syntax is
    /// looked up by the language when there is one, plain text otherwise or
    /// when the lookup finds none.
    pub fn classed_html(&self, code: &str, lang: Option<&str>, prefix: &'static str) -> (r: String)
        ensures
            r@ == highlighted_html(self.syntax_set(), code@, opt_view(lang), prefix@),
    {
        proof {
            use_type_invariant(self);
        }
        let s = &self.syntaxes;
        let found = match lang {
            Some(l) => find_syntax_by_token(s, l),
            None => None,
        };
        let syntax = match found {
            Some(syntax) => syntax,
            None => find_syntax_plain_text(s),
        };
        proof {
            if let Some(l) = lang {
                if let Some(f) = found {
                    assert(syntect_syntax_by_token(*s, l@) == Some(*f));
                }
            }
        }
        generate_classed_html(s, syntax, code, prefix)
    }
}

} // verus!
