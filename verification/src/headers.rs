use vstd::prelude::*;

use crate::env::Env;

verus! {

/// The content security policy: everything from this origin only, no
/// scripts at all, no framing, no plugins.
pub open spec fn content_security_policy() -> Seq<char> {
    "default-src 'self'; script-src 'none'; style-src 'self'; img-src 'self' data:; font-src 'self'; connect-src 'self'; base-uri 'self'; form-action 'self'; frame-ancestors 'none'; object-src 'none'"@
}

/// The permissions policy: no camera, microphone, geolocation or FLoC.
pub open spec fn permissions_policy() -> Seq<char> {
    "camera=(), microphone=(), geolocation=(), interest-cohort=()"@
}

/// Strict transport security: one year, subdomains included, preloadable.
pub open spec fn strict_transport_security() -> Seq<char> {
    "max-age=31536000; includeSubDomains; preload"@
}

/// The headers set on every response, in order, as (name, value).
pub open spec fn static_security_headers() -> Seq<(Seq<char>, Seq<char>)> {
    seq![
        ("x-content-type-options"@, "nosniff"@),
        ("referrer-policy"@, "strict-origin-when-cross-origin"@),
        ("x-frame-options"@, "DENY"@),
        ("content-security-policy"@, content_security_policy()),
        ("permissions-policy"@, permissions_policy()),
        ("cross-origin-opener-policy"@, "same-origin"@),
        ("cross-origin-resource-policy"@, "same-origin"@),
    ]
}

/// The headers set on every response in `env`: the static ones, and in
/// production only, strict transport security.
pub open spec fn security_headers_spec(env: Env) -> Seq<(Seq<char>, Seq<char>)> {
    if env == Env::Production {
        static_security_headers().push(("strict-transport-security"@, strict_transport_security()))
    } else {
        static_security_headers()
    }
}

/// The views of a list of (name, value) headers.
pub open spec fn header_views(v: Seq<(&str, &str)>) -> Seq<(Seq<char>, Seq<char>)> {
    Seq::new(v.len(), |k: int| (v[k].0@, v[k].1@))
}

/// The security headers to set on a response in `env`, as
/// `security_headers_spec` says; each replaces any header of that name.
pub fn security_headers_for(env: Env) -> (r: Vec<(&'static str, &'static str)>)
    ensures
        header_views(r@) == security_headers_spec(env),
{
    let mut r: Vec<(&'static str, &'static str)> = Vec::new();
    r.push(("x-content-type-options", "nosniff"));
    r.push(("referrer-policy", "strict-origin-when-cross-origin"));
    r.push(("x-frame-options", "DENY"));
    r.push(("content-security-policy", "default-src 'self'; script-src 'none'; style-src 'self'; img-src 'self' data:; font-src 'self'; connect-src 'self'; base-uri 'self'; form-action 'self'; frame-ancestors 'none'; object-src 'none'"));
    r.push(("permissions-policy", "camera=(), microphone=(), geolocation=(), interest-cohort=()"));
    r.push(("cross-origin-opener-policy", "same-origin"));
    r.push(("cross-origin-resource-policy", "same-origin"));
    if env == Env::Production {
        r.push(("strict-transport-security", "max-age=31536000; includeSubDomains; preload"));
    }
    assert(header_views(r@) =~= security_headers_spec(env));
    r
}

/// The directives of the content security policy, in order.
pub open spec fn csp_directives() -> Seq<Seq<char>> {
    seq![
        "default-src 'self'"@,
        "script-src 'none'"@,
        "style-src 'self'"@,
        "img-src 'self' data:"@,
        "font-src 'self'"@,
        "connect-src 'self'"@,
        "base-uri 'self'"@,
        "form-action 'self'"@,
        "frame-ancestors 'none'"@,
        "object-src 'none'"@,
    ]
}

/// The directives joined by `"; "`.
pub open spec fn join_directives(ds: Seq<Seq<char>>) -> Seq<char>
    decreases ds.len(),
{
    if ds.len() == 0 {
        Seq::empty()
    } else if ds.len() == 1 {
        ds[0]
    } else {
        join_directives(ds.drop_last()) + "; "@ + ds.last()
    }
}

/// The policy sent in both environments is exactly these directives: the
/// site's own stylesheets, fonts, images (and `data:` images) and
/// connections are allowed; scripts, plugins and framing are not. In
/// particular the header carries `style-src 'self'` and `script-src 'none'`.
pub proof fn law_csp_is_these_directives(env: Env)
    ensures
        content_security_policy() == join_directives(csp_directives()),
        security_headers_spec(env)[3] == ("content-security-policy"@, join_directives(csp_directives())),
        csp_directives()[2] == "style-src 'self'"@,
        csp_directives()[1] == "script-src 'none'"@,
{
    reveal_strlit("default-src 'self'; script-src 'none'; style-src 'self'; img-src 'self' data:; font-src 'self'; connect-src 'self'; base-uri 'self'; form-action 'self'; frame-ancestors 'none'; object-src 'none'");
    reveal_strlit("default-src 'self'");
    reveal_strlit("script-src 'none'");
    reveal_strlit("style-src 'self'");
    reveal_strlit("img-src 'self' data:");
    reveal_strlit("font-src 'self'");
    reveal_strlit("connect-src 'self'");
    reveal_strlit("base-uri 'self'");
    reveal_strlit("form-action 'self'");
    reveal_strlit("frame-ancestors 'none'");
    reveal_strlit("object-src 'none'");
    reveal_strlit("; ");
    let ds = csp_directives();
    reveal_with_fuel(join_directives, 11);
    assert(ds.drop_last().drop_last().drop_last().drop_last().drop_last().drop_last().drop_last().drop_last().drop_last().len() == 1);
    assert(content_security_policy() =~= join_directives(ds));
}

/// Strict transport security is set in production and only there: a
/// development server on localhost never pins browsers to TLS.
pub proof fn law_hsts_only_in_production(env: Env)
    ensures
        (exists|k: int|
            0 <= k < security_headers_spec(env).len() && (#[trigger] security_headers_spec(env)[k]).0
                == "strict-transport-security"@) <==> env == Env::Production,
{
    reveal_strlit("strict-transport-security");
    reveal_strlit("x-content-type-options");
    reveal_strlit("referrer-policy");
    reveal_strlit("x-frame-options");
    reveal_strlit("content-security-policy");
    reveal_strlit("permissions-policy");
    reveal_strlit("cross-origin-opener-policy");
    reveal_strlit("cross-origin-resource-policy");
    let h = security_headers_spec(env);
    if env == Env::Production {
        assert(h[7].0 == "strict-transport-security"@);
    } else {
        assert forall|k: int| 0 <= k < h.len() implies (#[trigger] h[k]).0 != "strict-transport-security"@ by {
            assert(h[k].0.len() != 25);
        }
    }
}

/// Every response, in either environment, carries the static security
/// headers, first and in the same order.
pub proof fn law_static_headers_always_set(env: Env)
    ensures
        security_headers_spec(env).len() >= static_security_headers().len(),
        forall|k: int|
            0 <= k < static_security_headers().len() ==> #[trigger] security_headers_spec(env)[k]
                == static_security_headers()[k],
{
}

} // verus!
