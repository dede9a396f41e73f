use vstd::prelude::*;
use vstd::string::*;

use std::sync::Arc;

use crate::blog::Post;
use crate::date::PostDate;
use crate::error::{error_message, error_status, AppError};
use crate::text::{decimal, push_decimal, push_signed_decimal, signed_decimal};

verus! {

/// What every page's layout needs: which navigation entry is active and the
/// content hash of the stylesheet, used to bust browser caches.
pub struct LayoutContext {
    pub active_nav: &'static str,
    pub style_hash: &'static str,
}

impl LayoutContext {
    pub fn new(active_nav: &'static str, style_hash: &'static str) -> (r: LayoutContext)
        ensures
            r.active_nav@ == active_nav@,
            r.style_hash@ == style_hash@,
    {
        LayoutContext { active_nav, style_hash }
    }
}

/// The home page.
pub struct HomeTemplate {
    pub layout: LayoutContext,
}

/// The résumé page.
pub struct ResumeTemplate {
    pub layout: LayoutContext,
}

/// The page shown for an error.
pub struct ErrorTemplate {
    pub status: u16,
    pub message: String,
    pub layout: LayoutContext,
}

/// The list of posts.
pub struct BlogListTemplate {
    pub posts: Vec<Arc<Post>>,
    pub layout: LayoutContext,
}

/// One post.
pub struct BlogPostTemplate {
    pub post: Arc<Post>,
    pub layout: LayoutContext,
}

impl ErrorTemplate {
    /// The error page for `err`: its status and public message only, with no
    /// navigation entry active.
    pub fn for_error(err: &AppError, style_hash: &'static str) -> (r: ErrorTemplate)
        ensures
            r.status == error_status(*err),
            r.message@ == error_message(*err),
            r.layout.active_nav@ == ""@,
            r.layout.style_hash@ == style_hash@,
    {
        ErrorTemplate {
            status: err.status_code(),
            message: String::from_str(err.public_message()),
            layout: LayoutContext::new("", style_hash),
        }
    }
}

/// The Brazilian Portuguese name of month `m` (1 to 12).
pub open spec fn month_name_pt(m: int) -> Seq<char> {
    if m == 1 { "janeiro"@ }
    else if m == 2 { "fevereiro"@ }
    else if m == 3 { "março"@ }
    else if m == 4 { "abril"@ }
    else if m == 5 { "maio"@ }
    else if m == 6 { "junho"@ }
    else if m == 7 { "julho"@ }
    else if m == 8 { "agosto"@ }
    else if m == 9 { "setembro"@ }
    else if m == 10 { "outubro"@ }
    else if m == 11 { "novembro"@ }
    else { "dezembro"@ }
}

/// A date as written in Brazil: "20 de março de 2026"; the day has no
/// leading zero.
pub open spec fn date_br(d: PostDate) -> Seq<char> {
    decimal(d.spec_day() as nat) + " de "@ + month_name_pt(d.spec_month()) + " de "@
        + signed_decimal(d.spec_year())
}

fn month_name(m: u32) -> (r: &'static str)
    requires
        1 <= m <= 12,
    ensures
        r@ == month_name_pt(m as int),
{
    match m {
        1 => "janeiro",
        2 => "fevereiro",
        3 => "março",
        4 => "abril",
        5 => "maio",
        6 => "junho",
        7 => "julho",
        8 => "agosto",
        9 => "setembro",
        10 => "outubro",
        11 => "novembro",
        _ => "dezembro",
    }
}

/// Writes `date` the Brazilian way, as `date_br` says.
pub fn render_date_br(date: &PostDate) -> (r: String)
    ensures
        r@ == date_br(*date),
{
    let mut out = String::new();
    push_decimal(&mut out, date.day());
    out.append(" de ");
    out.append(month_name(date.month()));
    out.append(" de ");
    push_signed_decimal(&mut out, date.year());
    out
}

} // verus!
