use vstd::prelude::*;
use vstd::string::*;

use crate::error::AppError;

verus! {

/// Longest slug accepted, in bytes.
pub const MAX_SLUG_LEN: usize = 64;

/// A character allowed in a slug: ASCII lowercase letter, ASCII digit or `-`.
pub open spec fn is_slug_char(c: char) -> bool {
    ('a' <= c && c <= 'z') || ('0' <= c && c <= '9') || c == '-'
}

/// The canonical URL form of a post name: non-empty, at most 64 characters,
/// only slug characters, no `-` at either end and never two `-` in a row.
pub open spec fn is_valid_slug(s: Seq<char>) -> bool {
    &&& 0 < s.len() <= MAX_SLUG_LEN
    &&& forall|i: int| 0 <= i < s.len() ==> is_slug_char(#[trigger] s[i])
    &&& s[0] != '-'
    &&& s[s.len() - 1] != '-'
    &&& forall|i: int| 0 <= i < s.len() - 1 ==> !(#[trigger] s[i] == '-' && s[i + 1] == '-')
}

/// A validated post slug.
pub struct Slug(String);

impl View for Slug {
    type V = Seq<char>;

    closed spec fn view(&self) -> Seq<char> {
        self.0@
    }
}

impl Slug {
    /// The slug that holds `v`; only meaningful when `v` is a valid slug.
    pub closed spec fn spec_wrap(v: String) -> Slug {
        Slug(v)
    }

    pub fn as_str(&self) -> (r: &str)
        ensures
            r@ == self@,
    {
        self.0.as_str()
    }
}

fn slug_text_is_valid(value: &str) -> (ok: bool)
    ensures
        ok == is_valid_slug(value@),
{
    let n = value.unicode_len();
    if n == 0 || n > MAX_SLUG_LEN {
        return false;
    }
    let mut i: usize = 0;
    while i < n
        invariant
            n == value@.len(),
            0 < n <= MAX_SLUG_LEN,
            i <= n,
            forall|j: int| 0 <= j < i ==> is_slug_char(#[trigger] value@[j]),
            forall|j: int| 0 <= j < i as int - 1 ==> !(#[trigger] value@[j] == '-' && value@[j + 1] == '-'),
            i > 0 ==> value@[0] != '-',
            forall|j: int| 0 <= j < i && #[trigger] value@[j] == '-' ==> j + 1 != n,
        decreases n - i,
    {
        let c = value.get_char(i);
        if !(('a' <= c && c <= 'z') || ('0' <= c && c <= '9') || c == '-') {
            return false;
        }
        if c == '-' && (i == 0 || i + 1 == n || value.get_char(i - 1) == '-') {
            return false;
        }
        i = i + 1;
    }
    true
}

impl TryFrom<String> for Slug {
    type Error = AppError;

    /// Accepts `value` exactly when it is a valid slug. Every rejection is
    /// `NotFound`, so a malformed slug cannot be told apart from an absent one.
    fn try_from(value: String) -> (r: Result<Slug, AppError>)
        ensures
            r matches Ok(s) ==> s@ == value@,
    {
        if slug_text_is_valid(value.as_str()) {
            Ok(Slug(value))
        } else {
            Err(AppError::NotFound)
        }
    }
}

impl vstd::std_specs::convert::TryFromSpecImpl<String> for Slug {
    open spec fn obeys_try_from_spec() -> bool {
        true
    }

    open spec fn try_from_spec(v: String) -> Result<Slug, AppError> {
        if is_valid_slug(v@) {
            Ok(Slug::spec_wrap(v))
        } else {
            Err(AppError::NotFound)
        }
    }
}

/// A slug is accepted exactly when it is valid, and then reads back as the
/// text it was made from; every rejection is `NotFound`, the answer for a
/// slug no post has, so a malformed slug cannot be told from an absent one.
pub proof fn law_slug_acceptance(v: String)
    ensures
        is_valid_slug(v@) ==> (<Slug as vstd::std_specs::convert::TryFromSpec<String>>::try_from_spec(v) matches Ok(s) && s@ == v@),
        !is_valid_slug(v@) ==> (<Slug as vstd::std_specs::convert::TryFromSpec<String>>::try_from_spec(v) matches Err(e) && e is NotFound),
{
}

/// The slug alphabet is exactly the ASCII lowercase letters `a` to `z`,
/// the digits `0` to `9` and `-`.
pub proof fn law_slug_alphabet(c: char)
    ensures
        is_slug_char(c) <==> (('a' as u32 <= c as u32 <= 'z' as u32) || ('0' as u32 <= c as u32
            <= '9' as u32) || c == '-'),
        'a' <= c <= 'z' ==> is_slug_char(c),
        '0' <= c <= '9' ==> is_slug_char(c),
{
    assert('a' as u32 == 97 && 'z' as u32 == 122 && '0' as u32 == 48 && '9' as u32 == 57);
}

/// Any word of 1 to 64 lowercase letters and digits is a valid slug, and so
/// is any two such words joined by one `-`.
pub proof fn law_lowercase_words_are_slugs(a: Seq<char>, b: Seq<char>)
    requires
        0 < a.len(),
        0 < b.len(),
        a.len() + 1 + b.len() <= MAX_SLUG_LEN,
        forall|i: int| 0 <= i < a.len() ==> ('a' <= #[trigger] a[i] <= 'z' || '0' <= a[i] <= '9'),
        forall|i: int| 0 <= i < b.len() ==> ('a' <= #[trigger] b[i] <= 'z' || '0' <= b[i] <= '9'),
    ensures
        is_valid_slug(a),
        is_valid_slug(a + seq!['-'] + b),
{
    let s = a + seq!['-'] + b;
    assert forall|i: int| 0 <= i < s.len() implies is_slug_char(#[trigger] s[i]) by {
        if i < a.len() {
            assert(s[i] == a[i]);
        } else if i > a.len() {
            assert(s[i] == b[i - a.len() - 1]);
        }
    }
    assert forall|i: int| 0 <= i < s.len() - 1 implies !(#[trigger] s[i] == '-' && s[i + 1] == '-') by {
        if i < a.len() {
            assert(s[i] == a[i]);
        } else {
            assert(s[i + 1] == b[i - a.len()]);
        }
    }
    assert(s[s.len() - 1] == b[b.len() - 1]);
}

/// A valid slug holds no `/`, `.` or other path character, so it can never
/// name a file outside the posts' directory.
pub proof fn law_valid_slug_has_no_path_characters(s: Seq<char>)
    requires
        is_valid_slug(s),
    ensures
        forall|i: int| 0 <= i < s.len() ==> s[i] != '/' && s[i] != '.' && s[i] != '\\' && s[i] != '%',
{
    assert forall|i: int| 0 <= i < s.len() implies s[i] != '/' && s[i] != '.' && s[i] != '\\' && s[i] != '%' by {
        assert(is_slug_char(s[i]));
    }
}

} // verus!
