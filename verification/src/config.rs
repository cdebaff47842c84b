use vstd::prelude::*;

verus! {

/// Endpoint and credential for the completion service, resolved once at
/// startup and immutable for the lifetime of the run.
pub struct Config {
    pub api_url: String,
    pub api_key: String,
}

impl Config {
    /// Builds a configuration from already-resolved values; reading the
    /// process environment is the front-end's concern.
    pub fn new(api_url: String, api_key: String) -> (c: Config)
        ensures
            c.api_url@ == api_url@,
            c.api_key@ == api_key@,
    {
        Config { api_url, api_key }
    }
}

/// The authorization header value carrying a bearer token.
pub fn bearer_value(api_key: &str) -> (s: String)
    ensures
        s@ == "Bearer "@ + api_key@,
{
    String::from_str("Bearer ").concat(api_key)
}

} // verus!
