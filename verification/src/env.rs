use vstd::prelude::*;

verus! {

/// Where the server runs.
#[derive(Debug, PartialEq, Eq, Clone, Copy, Structural)]
pub enum Env {
    Development,
    Production,
}

/// The environment named by the value of `APP_ENV`: only the exact text
/// `production` selects production; anything else, or no value, is
/// development, so a typo fails safe for local work.
pub open spec fn env_of(value: Option<Seq<char>>) -> Env {
    if value == Some("production"@) {
        Env::Production
    } else {
        Env::Development
    }
}

impl Env {
    /// The environment for the value of `APP_ENV` (`None` when it is unset or
    /// not Unicode), as `env_of` says. The match is exact: no trimming, no
    /// case folding.
    pub fn from_env_value(value: Option<&str>) -> (r: Env)
        ensures
            r == env_of(
                match value {
                    Some(v) => Some(v@),
                    None => None,
                },
            ),
    {
        match value {
            Some(v) => {
                if crate::text::str_eq(v, "production") {
                    Env::Production
                } else {
                    Env::Development
                }
            },
            None => Env::Development,
        }
    }
}

} // verus!
