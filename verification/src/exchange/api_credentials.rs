//! The credentials of one account.

use vstd::prelude::*;

verus! {

/// The name of an account and the three secrets that open its session at the venue.
#[derive(Debug)]
pub struct ApiCredentials {
    pub name: String,
    pub api_key: String,
    pub api_secret: String,
    pub api_pass: String,
}

impl Clone for ApiCredentials {
    fn clone(&self) -> (copy: ApiCredentials)
        ensures
            copy == *self,
    {
        ApiCredentials {
            name: self.name.clone(),
            api_key: self.api_key.clone(),
            api_secret: self.api_secret.clone(),
            api_pass: self.api_pass.clone(),
        }
    }
}

} // verus!
