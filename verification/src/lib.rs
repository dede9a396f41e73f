//! Verified core of a personal blog: slug validation, front-matter framing,
//! markdown rendering with syntax highlighting and sanitisation, post
//! ordering, security headers and error presentation.

pub mod blog;
pub mod date;
pub mod env;
pub mod error;
pub mod frontmatter;
pub mod headers;
pub mod highlight;
pub mod markdown;
pub mod render;
pub mod sanitize;
pub mod slug;
pub mod templates;
pub mod text;
