use vstd::prelude::*;
use vstd::string::*;

use crate::text::{decimal, push_decimal};

verus! {

/// Everything that can go wrong while serving a page.
#[derive(Debug)]
pub enum AppError {
    NotFound,
    Internal(String),
    BadPost { slug: String, reason: String },
}

/// `std::io::Error`, carried opaque.
#[verifier::external_type_specification]
#[verifier::external_body]
pub struct ExIoError(std::io::Error);

/// Whether `std::io::Error::kind` of `e` is `ErrorKind::NotFound`; the kind is
/// fixed when the error is made.
pub uninterp spec fn io_error_kind_is_not_found(e: std::io::Error) -> bool;

/// `std::io::Error::kind(e) == std::io::ErrorKind::NotFound`.
#[verifier::external_body]
fn io_error_is_not_found(e: &std::io::Error) -> (r: bool)
    ensures
        r == io_error_kind_is_not_found(*e),
{
    e.kind() == std::io::ErrorKind::NotFound
}

/// The `Display` text of `e` (`ToString::to_string`). For errors that come
/// from the operating system the text is the system's own message, so
/// nothing is stated of it.
#[verifier::external_body]
fn io_error_text(e: &std::io::Error) -> (r: String) {
    e.to_string()
}

impl AppError {
    /// The error an I/O failure becomes: a missing file is `NotFound`, any
    /// other failure is `Internal` with the failure's text.
    pub fn from_io_parts(not_found: bool, message: String) -> (r: AppError)
        ensures
            r == (if not_found { AppError::NotFound } else { AppError::Internal(message) }),
    {
        if not_found {
            AppError::NotFound
        } else {
            AppError::Internal(message)
        }
    }
}

/// The HTTP status of the page shown for `e`: 404 for `NotFound`, 500 for
/// everything else.
pub open spec fn error_status(e: AppError) -> u16 {
    if e is NotFound {
        404
    } else {
        500
    }
}

/// The message of the page shown for `e`. Internal details (an internal
/// error's text, a bad post's slug and reason) never reach the page.
pub open spec fn error_message(e: AppError) -> Seq<char> {
    if e is NotFound {
        "Página não encontrada"@
    } else {
        "Erro interno do servidor"@
    }
}

impl AppError {
    /// The HTTP status of the page shown for this error.
    pub fn status_code(&self) -> (r: u16)
        ensures
            r == error_status(*self),
    {
        match self {
            AppError::NotFound => 404,
            _ => 500,
        }
    }

    /// The user-facing message of the page shown for this error.
    pub fn public_message(&self) -> (r: &'static str)
        ensures
            r@ == error_message(*self),
    {
        match self {
            AppError::NotFound => "Página não encontrada",
            _ => "Erro interno do servidor",
        }
    }

    /// The error for a content directory that cannot be read.
    pub fn content_dir_unreadable(message: &str) -> (r: AppError)
        ensures
            r matches AppError::Internal(m) && m@ == "content dir unreadable: "@ + message@,
    {
        let mut m = String::from_str("content dir unreadable: ");
        m.append(message);
        AppError::Internal(m)
    }
}

/// The page shown when the error template itself cannot be rendered.
pub open spec fn fallback_error_page(status: u16, message: Seq<char>) -> Seq<char> {
    "<h1>"@ + decimal(status as nat) + "</h1><p>"@ + message + "</p>"@
}

/// Writes the fallback error page, as `fallback_error_page` says.
pub fn fallback_error_html(status: u16, message: &str) -> (r: String)
    ensures
        r@ == fallback_error_page(status, message@),
{
    let mut out = String::from_str("<h1>");
    push_decimal(&mut out, status as u32);
    out.append("</h1><p>");
    out.append(message);
    out.append("</p>");
    out
}

/// What an error page shows depends only on whether the error is
/// `NotFound`: two other errors, whatever their text, slug or reason, give
/// the same status and message.
pub proof fn law_error_page_reveals_only_the_kind(a: AppError, b: AppError)
    requires
        (a is NotFound) == (b is NotFound),
    ensures
        error_status(a) == error_status(b),
        error_message(a) == error_message(b),
{
}

impl From<std::io::Error> for AppError {
    fn from(e: std::io::Error) -> (r: AppError)
        ensures
            io_error_kind_is_not_found(e) ==> r is NotFound,
            !io_error_kind_is_not_found(e) ==> r is Internal,
    {
        let not_found = io_error_is_not_found(&e);
        if not_found {
            AppError::from_io_parts(true, String::new())
        } else {
            AppError::from_io_parts(false, io_error_text(&e))
        }
    }
}

impl vstd::std_specs::convert::FromSpecImpl<std::io::Error> for AppError {
    /// The text of an `Internal` error is the system's message, of which
    /// nothing is known, so no exact result is promised here; the impl's own
    /// `ensures` states the variant.
    open spec fn obeys_from_spec() -> bool {
        false
    }

    open spec fn from_spec(e: std::io::Error) -> AppError {
        if io_error_kind_is_not_found(e) {
            AppError::NotFound
        } else {
            AppError::Internal(arbitrary())
        }
    }
}

} // verus!
