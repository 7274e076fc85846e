//! Configuration.

use vstd::prelude::*;
use vstd::string::*;
use crate::text::{opt_str, same_text};

verus! {

/// GitHub OAuth configuration, constructed at startup.
pub struct OAuthConfig {
    pub client_id: String,
    pub client_secret: String,
    pub base_url: String,
    /// URL to exchange an authorization code for an access token.
    /// Defaults to `https://github.com/login/oauth/access_token`.
    pub token_url: String,
    /// URL to fetch the authenticated GitHub user profile.
    /// Defaults to `https://api.github.com/user`.
    pub userinfo_url: String,
}

impl OAuthConfig {
    /// Create a new config pointing at the real GitHub endpoints.
    pub fn new(client_id: String, client_secret: String, base_url: String) -> (r: Self)
        ensures
            r.client_id == client_id,
            r.client_secret == client_secret,
            r.base_url == base_url,
            r.token_url@ == "https://github.com/login/oauth/access_token"@,
            r.userinfo_url@ == "https://api.github.com/user"@,
    {
        OAuthConfig {
            client_id,
            client_secret,
            base_url,
            token_url: String::from_str("https://github.com/login/oauth/access_token"),
            userinfo_url: String::from_str("https://api.github.com/user"),
        }
    }
}

/// Stripe configuration for credit purchases.
pub struct StripeConfig {
    pub secret_key: String,
    pub webhook_secret: String,
    pub base_url: String,
}

/// Configuration of the service that runs sandboxes.
pub struct SpritesConfig {
    pub token: String,
    pub base_url: String,
}

/// Whether this instance is the primary writer: it runs outside Fly.io, or in the primary region,
/// which is `sjc` unless another is named.
pub fn is_primary(fly_region: Option<&str>, primary_region: Option<&str>) -> (r: bool)
    ensures
        r == match opt_str(fly_region) {
            None => true,
            Some(here) => here == match opt_str(primary_region) {
                Some(p) => p,
                None => "sjc"@,
            },
        },
{
    match fly_region {
        None => true,
        Some(here) => match primary_region {
            Some(p) => same_text(here, p),
            None => same_text(here, "sjc"),
        },
    }
}

} // verus!
