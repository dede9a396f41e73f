use vstd::prelude::*;
use vstd::string::*;

use crate::error::AppError;
use crate::text::{chars_of, find_from, is_first_occurrence, matches_at, occurs_at};

verus! {

/// The line that opens the front matter: `---` and a newline.
pub open spec fn opening_fence() -> Seq<char> {
    seq!['-', '-', '-', '\n']
}

/// What closes the front matter: a newline and `---`.
pub open spec fn closing_fence() -> Seq<char> {
    seq!['\n', '-', '-', '-']
}

/// `s` with every leading `'\n'` removed.
pub open spec fn trim_leading_newlines(s: Seq<char>) -> Seq<char>
    decreases s.len(),
{
    if s.len() > 0 && s[0] == '\n' {
        trim_leading_newlines(s.drop_first())
    } else {
        s
    }
}

/// Why a post's text has no usable front matter.
pub enum FenceProblem {
    MissingOpening,
    MissingClosing,
}

/// How a post's text splits into front matter and body: it must start with
/// the opening fence; the front matter runs up to the first closing fence
/// after it, and the body is what follows that fence, without leading
/// newlines.
pub open spec fn split_frontmatter_spec(raw: Seq<char>) -> Result<(Seq<char>, Seq<char>), FenceProblem> {
    if !(raw.len() >= 4 && raw.take(4) == opening_fence()) {
        Err(FenceProblem::MissingOpening)
    } else {
        let after = raw.skip(4);
        if exists|k: int| occurs_at(after, closing_fence(), k) {
            let k = choose|k: int| is_first_occurrence(after, closing_fence(), k);
            Ok((after.take(k), trim_leading_newlines(after.skip(k + 4))))
        } else {
            Err(FenceProblem::MissingClosing)
        }
    }
}

/// The reason given for a post without an opening fence.
pub open spec fn missing_opening_reason() -> Seq<char> {
    "missing opening --- fence"@
}

/// The reason given for a post without a closing fence.
pub open spec fn missing_closing_reason() -> Seq<char> {
    "missing closing --- fence"@
}

/// The error of a post named `slug` whose text has no usable front matter.
pub open spec fn fence_error(slug: Seq<char>, problem: FenceProblem, e: AppError) -> bool {
    e matches AppError::BadPost { slug: s, reason } && s@ == slug && reason@ == match problem {
        FenceProblem::MissingOpening => missing_opening_reason(),
        FenceProblem::MissingClosing => missing_closing_reason(),
    }
}

proof fn lemma_trim_run(s: Seq<char>, n: int)
    requires
        0 <= n <= s.len(),
        forall|i: int| 0 <= i < n ==> s[i] == '\n',
        n == s.len() || s[n] != '\n',
    ensures
        trim_leading_newlines(s) == s.skip(n),
    decreases n,
{
    if n == 0 {
        assert(s.skip(0) =~= s);
    } else {
        lemma_trim_run(s.drop_first(), n - 1);
        assert(s.drop_first().skip(n - 1) =~= s.skip(n));
    }
}

/// A first occurrence of `pat` is unique.
pub proof fn lemma_first_occurrence_unique(s: Seq<char>, pat: Seq<char>, i: int, j: int)
    requires
        is_first_occurrence(s, pat, i),
        is_first_occurrence(s, pat, j),
    ensures
        i == j,
{
}

/// Where `pat` occurs, it has a first occurrence.
pub proof fn lemma_first_occurrence_exists(s: Seq<char>, pat: Seq<char>, i: int)
    requires
        occurs_at(s, pat, i),
    ensures
        exists|k: int| is_first_occurrence(s, pat, k),
    decreases i,
{
    if forall|j: int| 0 <= j < i ==> !occurs_at(s, pat, j) {
        assert(is_first_occurrence(s, pat, i));
    } else {
        let j = choose|j: int| 0 <= j < i && occurs_at(s, pat, j);
        lemma_first_occurrence_exists(s, pat, j);
    }
}

proof fn lemma_fence_first_after(yaml: Seq<char>, body: Seq<char>)
    requires
        forall|k: int| !occurs_at(yaml, closing_fence(), k),
    ensures
        is_first_occurrence(yaml + closing_fence() + body, closing_fence(), yaml.len() as int),
{
    let after = yaml + closing_fence() + body;
    let m = yaml.len() as int;
    assert(after.subrange(m, m + 4) =~= closing_fence());
    assert forall|j: int| 0 <= j < m implies !occurs_at(after, closing_fence(), j) by {
        if occurs_at(after, closing_fence(), j) {
            if j + 4 <= m {
                assert(yaml.subrange(j, j + 4) =~= after.subrange(j, j + 4));
                assert(occurs_at(yaml, closing_fence(), j));
            } else {
                let d = m - j;
                assert(after.subrange(j, j + 4)[d] == after[m]);
                assert(closing_fence()[d] == '-');
            }
        }
    }
}

/// Reading back what was framed: a text made of the opening fence, a front
/// matter that holds no closing fence, the closing fence and a body splits
/// into that front matter and that body less its leading newlines.
pub proof fn law_frontmatter_roundtrip(yaml: Seq<char>, body: Seq<char>)
    requires
        forall|k: int| !occurs_at(yaml, closing_fence(), k),
    ensures
        split_frontmatter_spec(opening_fence() + yaml + closing_fence() + body) == Ok::<_, FenceProblem>(
            (yaml, trim_leading_newlines(body)),
        ),
{
    let raw = opening_fence() + yaml + closing_fence() + body;
    let after = raw.skip(4);
    let m = yaml.len() as int;
    assert(raw.take(4) =~= opening_fence());
    assert(after =~= yaml + closing_fence() + body);
    lemma_fence_first_after(yaml, body);
    assert(occurs_at(after, closing_fence(), m));
    let chosen = choose|k: int| is_first_occurrence(after, closing_fence(), k);
    lemma_first_occurrence_unique(after, closing_fence(), chosen, m);
    assert(after.take(m) =~= yaml);
    assert(after.skip(m + 4) =~= body);
}

fn bad_post(slug: &str, reason: &str) -> (e: AppError)
    ensures
        e matches AppError::BadPost { slug: s, reason: r } && s@ == slug@ && r@ == reason@,
{
    AppError::BadPost { slug: String::from_str(slug), reason: String::from_str(reason) }
}

/// Splits a post's text into its front matter and its body, as
/// `split_frontmatter_spec` says; a post without a usable front matter is a
/// `BadPost` error naming `slug` and the missing fence.
pub fn split_frontmatter(slug: &str, raw: &str) -> (r: Result<(String, String), AppError>)
    ensures
        match r {
            Ok((yaml, body)) => split_frontmatter_spec(raw@) == Ok::<_, FenceProblem>((yaml@, body@)),
            Err(e) => match split_frontmatter_spec(raw@) {
                Ok(_) => false,
                Err(p) => fence_error(slug@, p, e),
            },
        },
{
    proof {
        reveal_strlit("missing opening --- fence");
        reveal_strlit("missing closing --- fence");
    }
    let cs = chars_of(raw);
    let open = vec!['-', '-', '-', '\n'];
    let close = vec!['\n', '-', '-', '-'];
    if !matches_at(&cs, &open, 0) {
        assert(!(raw@.len() >= 4 && raw@.take(4) == opening_fence())) by {
            if raw@.len() >= 4 && raw@.take(4) == opening_fence() {
                assert(raw@.subrange(0, 4) =~= raw@.take(4));
            }
        }
        return Err(bad_post(slug, "missing opening --- fence"));
    }
    assert(raw@.take(4) =~= raw@.subrange(0, 4));
    let ghost after = raw@.skip(4);
    assert forall|k: int| 0 <= k implies (#[trigger] occurs_at(after, close@, k) <==> occurs_at(cs@, close@, k + 4)) by {
        if 0 <= k && k + 4 <= after.len() {
            assert(after.subrange(k, k + 4) =~= cs@.subrange(k + 4, k + 8));
        }
    }
    match find_from(&cs, &close, 4) {
        None => {
            assert(!exists|k: int| occurs_at(after, closing_fence(), k)) by {
                if exists|k: int| occurs_at(after, closing_fence(), k) {
                    let k = choose|k: int| occurs_at(after, closing_fence(), k);
                    assert(occurs_at(cs@, close@, k + 4));
                }
            }
            Err(bad_post(slug, "missing closing --- fence"))
        },
        Some(i) => {
            let ghost k = i - 4;
            assert(is_first_occurrence(after, closing_fence(), k)) by {
                assert(occurs_at(cs@, close@, k + 4));
                assert forall|j: int| 0 <= j < k implies !occurs_at(after, closing_fence(), j) by {
                    assert(!occurs_at(cs@, close@, j + 4));
                }
            }
            assert(exists|k: int| occurs_at(after, closing_fence(), k));
            let ghost chosen = choose|k: int| is_first_occurrence(after, closing_fence(), k);
            proof {
                lemma_first_occurrence_unique(after, closing_fence(), chosen, k);
            }
            let n = cs.len();
            let mut j = i + 4;
            while j < n && cs[j] == '\n'
                invariant
                    i + 4 <= j <= n,
                    n == cs@.len(),
                    forall|t: int| i + 4 <= t < j ==> cs@[t] == '\n',
                decreases n - j,
            {
                j = j + 1;
            }
            let ghost rest = after.skip(k + 4);
            proof {
                assert forall|t: int| 0 <= t < j - (i + 4) implies rest[t] == '\n' by {
                    assert(rest[t] == cs@[t + i + 4]);
                }
                lemma_trim_run(rest, j - (i + 4));
                assert(rest.skip(j - (i + 4)) =~= raw@.subrange(j as int, n as int));
                assert(after.take(k) =~= raw@.subrange(4, i as int));
            }
            let yaml = String::from_str(raw.substring_char(4, i));
            let body = String::from_str(raw.substring_char(j, n));
            Ok((yaml, body))
        },
    }
}

} // verus!
