//! The Mastodon channel.
use vstd::prelude::*;
use crate::text::concat;

verus! {

/// An account on a Mastodon instance.
pub struct Mastodon {
    pub base_uri: String,
    pub access_token: String,
}

impl Mastodon {
    pub fn new(base_uri: &str, access_token: &str) -> (r: Mastodon)
        ensures
            r.base_uri@ == base_uri@,
            r.access_token@ == access_token@,
    {
        Mastodon { base_uri: String::from_str(base_uri), access_token: String::from_str(access_token) }
    }

    /// The address statuses are posted to.
    pub fn statuses_url(&self) -> (r: String)
        ensures
            r@ == self.base_uri@ + "/api/v1/statuses"@,
    {
        concat(self.base_uri.as_str(), "/api/v1/statuses")
    }

    /// The value of the authorisation header.
    pub fn authorization(&self) -> (r: String)
        ensures
            r@ == "Bearer "@ + self.access_token@,
    {
        concat("Bearer ", self.access_token.as_str())
    }
}

} // verus!
