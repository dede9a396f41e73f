use vstd::prelude::*;
use vstd::string::*;
use std::sync::Arc;

use crate::date::{date_before, same_day, PostDate};
use crate::slug::Slug;
use crate::text::{chars_of, str_eq};
use crate::error::AppError;
use crate::render::{post_body_html, PostRenderer};

verus! {

/// A published post.
pub struct Post {
    pub slug: String,
    pub title: String,
    pub date: PostDate,
    pub summary: String,
    pub content_html: String,
}

/// The fields a post's front matter must give.
pub struct Frontmatter {
    pub title: String,
    pub date: PostDate,
    pub summary: String,
}

/// The prefix of the reason given for a front matter that does not decode.
pub open spec fn yaml_reason(message: Seq<char>) -> Seq<char> {
    "yml: "@ + message
}

/// Builds the post named `slug` from its decoded front matter and its
/// markdown body: a front matter that did not decode (with the decoder's
/// `message`) is a `BadPost` error whose reason is `yml: ` and the message;
/// otherwise the post carries the front matter's fields and the body's HTML,
/// rendered and sanitised as `post_body_html` says.
pub fn post_from_parts(
    renderer: &PostRenderer,
    slug: &str,
    frontmatter: Result<Frontmatter, String>,
    body: &str,
) -> (r: Result<Post, AppError>)
    ensures
        match frontmatter {
            Err(message) => r matches Err(AppError::BadPost { slug: s, reason }) && s@ == slug@
                && reason@ == yaml_reason(message@),
            Ok(fm) => r matches Ok(post) && post.slug@ == slug@ && post.title == fm.title
                && post.date == fm.date && post.summary == fm.summary && post.content_html@
                == post_body_html(renderer.syntax_set(), body@),
        },
{
    match frontmatter {
        Err(message) => {
            let mut reason = String::from_str("yml: ");
            reason.append(message.as_str());
            Err(AppError::BadPost { slug: String::from_str(slug), reason })
        },
        Ok(fm) => {
            let content_html = renderer.render_post_html(body);
            Ok(
                Post {
                    slug: String::from_str(slug),
                    title: fm.title,
                    date: fm.date,
                    summary: fm.summary,
                    content_html,
                },
            )
        },
    }
}

/// `sorted` holds the posts of `input`, each once, as `perm` maps them
/// (`sorted[k]` is `input[perm[k]]`), newest first, posts of the same day in
/// their order in `input`.
pub open spec fn newest_first_arrangement(input: Seq<Post>, sorted: Seq<Post>, perm: Seq<int>) -> bool {
    &&& perm.len() == input.len()
    &&& sorted.len() == input.len()
    &&& forall|k: int| 0 <= k < perm.len() ==> 0 <= #[trigger] perm[k] < input.len()
    &&& forall|k: int| 0 <= k < perm.len() ==> #[trigger] sorted[k] == input[perm[k]]
    &&& forall|k: int, l: int| 0 <= k < l < perm.len() ==> #[trigger] perm[k] != #[trigger] perm[l]
    &&& forall|j: int| 0 <= j < input.len() ==> #[trigger] perm.contains(j)
    &&& forall|k: int, l: int|
        0 <= k < l < sorted.len() ==> !date_before(#[trigger] sorted[k].date, #[trigger] sorted[l].date)
    &&& forall|k: int, l: int|
        0 <= k < l < sorted.len() && same_day(#[trigger] sorted[k].date, #[trigger] sorted[l].date)
            ==> perm[k] < perm[l]
}

/// Arranging posts newest first neither loses nor invents one: a post is
/// in the arrangement exactly when it is in the input.
pub proof fn law_arrangement_keeps_every_post(input: Seq<Post>, sorted: Seq<Post>, perm: Seq<int>, p: Post)
    requires
        newest_first_arrangement(input, sorted, perm),
    ensures
        sorted.contains(p) <==> input.contains(p),
{
    if sorted.contains(p) {
        let k = choose|k: int| 0 <= k < sorted.len() && sorted[k] == p;
        assert(input[perm[k]] == p);
    }
    if input.contains(p) {
        let j = choose|j: int| 0 <= j < input.len() && input[j] == p;
        assert(perm.contains(j));
        let k = choose|k: int| 0 <= k < perm.len() && perm[k] == j;
        assert(sorted[k] == p);
    }
}

/// The posts newest first; posts of the same day keep their order (a stable
/// sort by date, descending).
pub fn sort_newest_first(posts: Vec<Post>) -> (r: Vec<Post>)
    ensures
        exists|perm: Seq<int>| newest_first_arrangement(posts@, r@, perm),
{
    let ghost input = posts@;
    let n = posts.len();
    let mut rest = posts;
    let mut out: Vec<Post> = Vec::new();
    let ghost mut perm: Seq<int> = Seq::empty();
    let mut i: usize = 0;
    while i < n
        invariant
            n == input.len(),
            i <= n,
            rest@ == input.skip(i as int),
            out@.len() == i,
            perm.len() == i,
            forall|k: int| 0 <= k < i ==> 0 <= #[trigger] perm[k] < i,
            forall|k: int| 0 <= k < i ==> #[trigger] out@[k] == input[perm[k]],
            forall|k: int, l: int| 0 <= k < l < i ==> #[trigger] perm[k] != #[trigger] perm[l],
            forall|m: int| 0 <= m < i ==> #[trigger] perm.contains(m),
            forall|k: int, l: int|
                0 <= k < l < i ==> !date_before(#[trigger] out@[k].date, #[trigger] out@[l].date),
            forall|k: int, l: int|
                0 <= k < l < i && same_day(#[trigger] out@[k].date, #[trigger] out@[l].date) ==> perm[k]
                    < perm[l],
        decreases n - i,
    {
        let p = rest.remove(0);
        assert(p == input[i as int]);
        let mut j: usize = 0;
        while j < out.len() && !out[j].date.is_before(&p.date)
            invariant
                j <= out@.len(),
                forall|k: int| 0 <= k < j ==> !date_before(#[trigger] out@[k].date, p.date),
            decreases out@.len() - j,
        {
            j = j + 1;
        }
        let ghost old_out = out@;
        let ghost old_perm = perm;
        proof {
            assert forall|l: int| j <= l < old_out.len() implies date_before(#[trigger] old_out[l].date, p.date) by {
                assert(date_before(old_out[j as int].date, p.date));
                if l > j {
                    assert(!date_before(old_out[j as int].date, old_out[l].date));
                }
            }
        }
        out.insert(j, p);
        proof {
            perm = old_perm.insert(j as int, i as int);
            assert(out@ == old_out.insert(j as int, p));
            assert forall|k: int| 0 <= k < i + 1 implies #[trigger] out@[k] == input[perm[k]] by {
                if k < j {
                    assert(out@[k] == old_out[k]);
                } else if k > j {
                    assert(out@[k] == old_out[k - 1]);
                }
            }
            assert forall|k: int, l: int| 0 <= k < l < i + 1 implies !date_before(
                #[trigger] out@[k].date,
                #[trigger] out@[l].date,
            ) by {
                if l < j {
                } else if l == j {
                    assert(out@[k] == old_out[k]);
                } else if k < j {
                    assert(out@[l] == old_out[l - 1]);
                    assert(out@[k] == old_out[k]);
                } else if k == j {
                    assert(out@[l] == old_out[l - 1]);
                    assert(date_before(old_out[l - 1].date, p.date));
                } else {
                    assert(out@[l] == old_out[l - 1]);
                    assert(out@[k] == old_out[k - 1]);
                }
            }
            assert forall|k: int, l: int|
                0 <= k < l < i + 1 && same_day(#[trigger] out@[k].date, #[trigger] out@[l].date)
                    implies perm[k] < perm[l] by {
                if l < j {
                } else if l == j {
                    assert(out@[k] == old_out[k]);
                    assert(perm[k] == old_perm[k]);
                } else if k < j {
                    assert(perm[l] == old_perm[l - 1]);
                    assert(perm[k] == old_perm[k]);
                } else if k == j {
                    assert(out@[l] == old_out[l - 1]);
                    assert(date_before(old_out[l - 1].date, p.date));
                } else {
                    assert(perm[l] == old_perm[l - 1]);
                    assert(perm[k] == old_perm[k - 1]);
                }
            }
            assert forall|k: int, l: int| 0 <= k < l < i + 1 implies #[trigger] perm[k]
                != #[trigger] perm[l] by {
                if l < j {
                } else if l == j {
                    assert(perm[k] == old_perm[k]);
                } else if k < j {
                    assert(perm[l] == old_perm[l - 1]);
                } else if k == j {
                    assert(perm[l] == old_perm[l - 1]);
                } else {
                    assert(perm[l] == old_perm[l - 1]);
                    assert(perm[k] == old_perm[k - 1]);
                }
            }
            assert forall|k: int| 0 <= k < i + 1 implies 0 <= #[trigger] perm[k] < i + 1 by {
                if k < j {
                    assert(perm[k] == old_perm[k]);
                } else if k > j {
                    assert(perm[k] == old_perm[k - 1]);
                }
            }
            assert forall|m: int| 0 <= m < i + 1 implies #[trigger] perm.contains(m) by {
                if m == i {
                    assert(perm[j as int] == m);
                } else {
                    assert(old_perm.contains(m));
                    let k = choose|k: int| 0 <= k < old_perm.len() && old_perm[k] == m;
                    if k < j {
                        assert(perm[k] == m);
                    } else {
                        assert(perm[k + 1] == m);
                    }
                }
            }
            assert(rest@ =~= input.skip(i + 1));
        }
        i = i + 1;
    }
    assert(newest_first_arrangement(input, out@, perm));
    out
}

/// The index of the last `.` in a file name, if any.
pub open spec fn last_dot(name: Seq<char>) -> Option<int> {
    if exists|k: int| 0 <= k < name.len() && name[k] == '.' {
        Some(choose|k: int| 0 <= k < name.len() && name[k] == '.' && forall|l: int| k < l < name.len() ==> name[l] != '.')
    } else {
        None
    }
}

/// The extension of a file name, as `std::path::Path::extension` defines it:
/// the part after the last `.`, unless there is no `.`, or the only `.` is
/// the first character, or the name is `..`.
pub open spec fn file_extension(name: Seq<char>) -> Option<Seq<char>> {
    match last_dot(name) {
        Some(k) => if k == 0 || name == ".."@ {
            None
        } else {
            Some(name.skip(k + 1))
        },
        None => None,
    }
}

/// The stem of a file name, as `std::path::Path::file_stem` defines it: the
/// part before the last `.`, or the whole name when it has no extension.
pub open spec fn file_stem(name: Seq<char>) -> Seq<char> {
    match last_dot(name) {
        Some(k) => if k == 0 || name == ".."@ {
            name
        } else {
            name.take(k)
        },
        None => name,
    }
}

/// The slug of the post held in a file named `name`: its stem, when its
/// extension is exactly `md`; files with any other name are not posts.
pub open spec fn post_slug_of(name: Seq<char>) -> Option<Seq<char>> {
    if file_extension(name) == Some("md"@) {
        Some(file_stem(name))
    } else {
        None
    }
}

/// The slug of the post in the file named `file_name`, or `None` when the
/// file is not a markdown post, as `post_slug_of` says.
pub fn post_slug_for_file(file_name: &str) -> (r: Option<String>)
    ensures
        match r {
            Some(s) => post_slug_of(file_name@) == Some(s@),
            None => post_slug_of(file_name@) is None,
        },
{
    proof {
        reveal_strlit("md");
        reveal_strlit("..");
    }
    let cs = chars_of(file_name);
    let n = cs.len();
    let mut k = n;
    while k > 0 && cs[k - 1] != '.'
        invariant
            k <= n,
            n == cs@.len(),
            cs@ == file_name@,
            forall|l: int| k <= l < n ==> cs@[l] != '.',
        decreases k,
    {
        k = k - 1;
    }
    if k == 0 {
        assert(!exists|j: int| 0 <= j < cs@.len() && cs@[j] == '.');
        return None;
    }
    let dot = k - 1;
    proof {
        let chosen = choose|j: int| 0 <= j < cs@.len() && cs@[j] == '.' && forall|l: int| j < l < cs@.len() ==> cs@[l] != '.';
        assert(chosen == dot) by {
            if chosen < dot {
                assert(cs@[dot as int] == '.');
            }
            if chosen > dot {
                assert(cs@[chosen] != '.');
            }
        }
    }
    if dot == 0 {
        return None;
    }
    if n == 2 && cs[0] == '.' && cs[1] == '.' {
        assert(file_name@ =~= ".."@);
        return None;
    }
    assert(file_name@ != ".."@) by {
        if file_name@ == ".."@ {
            assert(cs@[0] == '.' && cs@[1] == '.');
        }
    }
    let is_md = n - k == 2 && cs[k] == 'm' && cs[k + 1] == 'd';
    assert(is_md == (file_name@.skip(k as int) == "md"@)) by {
        reveal_strlit("md");
        assert("md"@ =~= seq!['m', 'd']);
        assert(file_name@.skip(k as int).len() == n - k);
        if file_name@.skip(k as int) == "md"@ {
            assert(file_name@.skip(k as int)[0] == 'm');
            assert(file_name@.skip(k as int)[1] == 'd');
        }
        if is_md {
            assert(file_name@.skip(k as int) =~= "md"@);
        }
    }
    if is_md {
        Some(String::from_str(file_name.substring_char(0, dot)))
    } else {
        None
    }
}

/// The posts that loaded, in order: failed loads are left out, so one bad
/// post never fails the whole index.
pub open spec fn loaded_posts(results: Seq<Result<Post, AppError>>) -> Seq<Post>
    decreases results.len(),
{
    if results.len() == 0 {
        Seq::empty()
    } else {
        let head = match results.last() {
            Ok(p) => seq![p],
            Err(_) => Seq::empty(),
        };
        loaded_posts(results.drop_last()) + head
    }
}

/// One bad post never takes the index down: the posts kept are exactly the
/// posts of the loads that succeeded, none lost and none added.
pub proof fn law_loaded_posts_are_the_successes(results: Seq<Result<Post, AppError>>, p: Post)
    ensures
        loaded_posts(results).contains(p) <==> exists|k: int|
            0 <= k < results.len() && results[k] == Ok::<Post, AppError>(p),
    decreases results.len(),
{
    if results.len() > 0 {
        let init = results.drop_last();
        law_loaded_posts_are_the_successes(init, p);
        let head = match results.last() {
            Ok(q) => seq![q],
            Err(_) => Seq::empty(),
        };
        assert(loaded_posts(results) == loaded_posts(init) + head);
        if loaded_posts(results).contains(p) {
            let i = choose|i: int| 0 <= i < loaded_posts(results).len() && loaded_posts(results)[i] == p;
            if i < loaded_posts(init).len() {
                assert(loaded_posts(init)[i] == p);
                let k = choose|k: int| 0 <= k < init.len() && init[k] == Ok::<Post, AppError>(p);
                assert(results[k] == init[k]);
            } else {
                assert(results[results.len() - 1] == Ok::<Post, AppError>(p));
            }
        }
        if exists|k: int| 0 <= k < results.len() && results[k] == Ok::<Post, AppError>(p) {
            let k = choose|k: int| 0 <= k < results.len() && results[k] == Ok::<Post, AppError>(p);
            if k < results.len() - 1 {
                assert(init[k] == results[k]);
                let i = choose|i: int| 0 <= i < loaded_posts(init).len() && loaded_posts(init)[i] == p;
                assert(loaded_posts(results)[i] == p);
            } else {
                assert(loaded_posts(results)[loaded_posts(init).len() as int] == p);
            }
        }
    }
}

/// Every post that loaded is in the store, so a lookup of its slug finds a
/// post with that slug.
pub proof fn law_loaded_posts_are_listed(
    results: Seq<Result<Post, AppError>>,
    listed: Seq<Post>,
    perm: Seq<int>,
    k: int,
)
    requires
        newest_first_arrangement(loaded_posts(results), listed, perm),
        0 <= k < results.len(),
        results[k] is Ok,
    ensures
        exists|i: int| 0 <= i < listed.len() && listed[i] == results[k]->Ok_0,
{
    let p = results[k]->Ok_0;
    law_loaded_posts_are_the_successes(results, p);
    law_arrangement_keeps_every_post(loaded_posts(results), listed, perm, p);
    assert(listed.contains(p));
}

/// Keeps the posts that loaded, in order, as `loaded_posts` says.
pub fn keep_loaded(results: Vec<Result<Post, AppError>>) -> (r: Vec<Post>)
    ensures
        r@ == loaded_posts(results@),
{
    let ghost input = results@;
    let n = results.len();
    let mut rest = results;
    let mut out: Vec<Post> = Vec::new();
    let mut i: usize = 0;
    while i < n
        invariant
            n == input.len(),
            i <= n,
            rest@ == input.skip(i as int),
            out@ == loaded_posts(input.take(i as int)),
        decreases n - i,
    {
        let item = rest.remove(0);
        assert(item == input[i as int]);
        assert(input.take(i + 1).drop_last() =~= input.take(i as int));
        match item {
            Ok(p) => out.push(p),
            Err(_) => {},
        }
        assert(rest@ =~= input.skip(i + 1));
        i = i + 1;
    }
    assert(input.take(n as int) =~= input);
    out
}

/// The posts of the blog, newest first, each shared behind an `Arc`.
/// Lookup by slug searches `all`: vstd models `HashMap` keys only for
/// integers and `bool`, so a map keyed by `String` would prove nothing.
pub struct BlogStore {
    pub all: Vec<Arc<Post>>,
}

/// The posts of `all` as plain values.
pub open spec fn shared_posts(all: Seq<Arc<Post>>) -> Seq<Post> {
    Seq::new(all.len(), |k: int| *all[k])
}

impl BlogStore {
    /// The store of the posts that loaded: failed loads are left out and the
    /// rest are ordered newest first, posts of the same day in load order.
    pub fn from_loaded(results: Vec<Result<Post, AppError>>) -> (r: BlogStore)
        ensures
            exists|perm: Seq<int>|
                newest_first_arrangement(loaded_posts(results@), shared_posts(r.all@), perm),
    {
        let ghost input = results@;
        let posts = keep_loaded(results);
        let ghost loaded = posts@;
        let sorted = sort_newest_first(posts);
        let ghost sorted_view = sorted@;
        let n = sorted.len();
        let mut rest = sorted;
        let mut all: Vec<Arc<Post>> = Vec::new();
        let mut i: usize = 0;
        while i < n
            invariant
                n == sorted_view.len(),
                i <= n,
                rest@ == sorted_view.skip(i as int),
                all@.len() == i,
                forall|k: int| 0 <= k < i ==> *#[trigger] all@[k] == sorted_view[k],
            decreases n - i,
        {
            let p = rest.remove(0);
            assert(p == sorted_view[i as int]);
            all.push(Arc::new(p));
            assert(rest@ =~= sorted_view.skip(i + 1));
            i = i + 1;
        }
        assert(shared_posts(all@) =~= sorted_view);
        let ghost perm = choose|perm: Seq<int>| newest_first_arrangement(loaded, sorted_view, perm);
        assert(newest_first_arrangement(loaded_posts(input), shared_posts(all@), perm));
        let r = BlogStore { all };
        assert(newest_first_arrangement(loaded_posts(input), shared_posts(r.all@), perm));
        r
    }

    /// The post with the given slug: when several share it, the last of
    /// them in `all` (the oldest), as a map filled in that order keeps it.
    pub fn by_slug(&self, slug: &str) -> (r: Option<&Arc<Post>>)
        ensures
            match r {
                Some(p) => exists|k: int|
                    0 <= k < self.all@.len() && self.all@[k] == *p && self.all@[k].slug@ == slug@
                        && forall|l: int| k < l < self.all@.len() ==> self.all@[l].slug@ != slug@,
                None => forall|k: int| 0 <= k < self.all@.len() ==> self.all@[k].slug@ != slug@,
            },
    {
        let mut k = self.all.len();
        while k > 0
            invariant
                k <= self.all@.len(),
                forall|l: int| k <= l < self.all@.len() ==> self.all@[l].slug@ != slug@,
            decreases k,
        {
            let p = &self.all[k - 1];
            if str_eq(p.slug.as_str(), slug) {
                return Some(p);
            }
            k = k - 1;
        }
        None
    }

    /// The post for a validated slug, or `NotFound` when no post has it, the
    /// same error an invalid slug gets, so the two cannot be told apart.
    pub fn find(&self, slug: &Slug) -> (r: Result<&Arc<Post>, AppError>)
        ensures
            match r {
                Ok(p) => exists|k: int|
                    0 <= k < self.all@.len() && self.all@[k] == *p && self.all@[k].slug@ == slug@,
                Err(e) => e is NotFound && forall|k: int|
                    0 <= k < self.all@.len() ==> self.all@[k].slug@ != slug@,
            },
    {
        match self.by_slug(slug.as_str()) {
            Some(p) => Ok(p),
            None => Err(AppError::NotFound),
        }
    }
}

} // verus!
