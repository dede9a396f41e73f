use vstd::prelude::*;
use vstd::string::*;

verus! {

/// `ammonia::Builder`, carried opaque.
#[verifier::external_type_specification]
#[verifier::external_body]
pub struct ExBuilder<'a>(ammonia::Builder<'a>);

/// The `(tag, attribute)` pairs that `add_tag_attributes` has allowed on
/// `b` beyond those of `ammonia::Builder::default()`.
pub uninterp spec fn ammonia_added_tag_attributes(b: ammonia::Builder<'static>) -> Set<(Seq<char>, Seq<char>)>;

/// The HTML that `Builder::clean(html).to_string()` gives for a builder that
/// has the default settings of ammonia plus the tag attributes `added`.
pub uninterp spec fn ammonia_clean(added: Set<(Seq<char>, Seq<char>)>, html: Seq<char>) -> Seq<char>;

/// Settings under which `Builder::clean` runs to the end: its assertions
/// refuse a tag attribute on a tag whose content is removed (`script` and
/// `style` by default) and the `rel` attribute of `a` while `link_rel` is set
/// (it is by default).
pub open spec fn clean_accepts(added: Set<(Seq<char>, Seq<char>)>) -> bool {
    forall|p: (Seq<char>, Seq<char>)|
        #[trigger] added.contains(p) ==> p.0 != "script"@ && p.0 != "style"@ && !(p.0 == "a"@
            && p.1 == "rel"@)
}

/// `ammonia::Builder::default()`: ammonia's default settings.
#[verifier::external_body]
fn builder_default() -> (b: ammonia::Builder<'static>)
    ensures
        ammonia_added_tag_attributes(b) == Set::<(Seq<char>, Seq<char>)>::empty(),
{
    ammonia::Builder::default()
}

/// `Builder::add_tag_attributes(tag, [attr])`: allows `attr` on `tag`, and
/// changes nothing else.
#[verifier::external_body]
fn builder_add_tag_attribute(b: &mut ammonia::Builder<'static>, tag: &'static str, attr: &'static str)
    ensures
        ammonia_added_tag_attributes(*final(b)) == ammonia_added_tag_attributes(*old(b)).insert(
            (tag@, attr@),
        ),
{
    b.add_tag_attributes(tag, [attr]);
}

/// `Builder::clean(html).to_string()`.
#[verifier::external_body]
fn builder_clean(b: &ammonia::Builder<'static>, html: &str) -> (r: String)
    requires
        clean_accepts(ammonia_added_tag_attributes(*b)),
    ensures
        r@ == ammonia_clean(ammonia_added_tag_attributes(*b), html@),
{
    b.clean(html).to_string()
}

/// The tag attributes allowed on top of ammonia's defaults: `class` on
/// `code` and on `span`, which syntax highlighting writes.
pub open spec fn highlight_class_attributes() -> Set<(Seq<char>, Seq<char>)> {
    set![("code"@, "class"@), ("span"@, "class"@)]
}

/// The HTML sanitiser of posts: ammonia with `class` allowed on `code` and
/// `span`, so that the classes of the syntax highlighter survive.
pub struct Sanitizer {
    builder: ammonia::Builder<'static>,
}

impl Sanitizer {
    #[verifier::type_invariant]
    spec fn allows_highlight_classes(self) -> bool {
        ammonia_added_tag_attributes(self.builder) == highlight_class_attributes()
    }

    /// The tag attributes this sanitiser allows beyond ammonia's defaults.
    pub closed spec fn added_attributes(&self) -> Set<(Seq<char>, Seq<char>)> {
        ammonia_added_tag_attributes(self.builder)
    }

    /// Ammonia's defaults, plus `class` on `code` and on `span`.
    pub fn new() -> (r: Sanitizer)
        ensures
            r.added_attributes() == highlight_class_attributes(),
    {
        let mut builder = builder_default();
        builder_add_tag_attribute(&mut builder, "code", "class");
        builder_add_tag_attribute(&mut builder, "span", "class");
        assert(ammonia_added_tag_attributes(builder) =~= highlight_class_attributes());
        Sanitizer { builder }
    }

    /// Sanitises `html` with ammonia under the settings above.
    pub fn clean(&self, html: &str) -> (r: String)
        ensures
            r@ == ammonia_clean(highlight_class_attributes(), html@),
    {
        proof {
            use_type_invariant(self);
            reveal_strlit("code");
            reveal_strlit("span");
            reveal_strlit("script");
            reveal_strlit("style");
            reveal_strlit("a");
            assert forall|p: (Seq<char>, Seq<char>)| #[trigger]
                highlight_class_attributes().contains(p) implies p.0 != "script"@ && p.0
                != "style"@ && !(p.0 == "a"@ && p.1 == "rel"@) by {
                assert(p.0.len() == 4);
            }
        }
        builder_clean(&self.builder, html)
    }
}

} // verus!
