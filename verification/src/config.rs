//! Remote endpoint configuration: built once at startup and injected into
//! whatever drives the engine, rather than read from global state.

use vstd::prelude::*;
use vstd::string::StringExecFns;

use crate::status::str_eq;

verus! {

/// Where the remote service lives and which environment is being talked to.
#[derive(Debug)]
pub struct ApiConfig {
    pub base_url: String,
    pub environment: String,
}

pub ghost struct ApiConfigModel {
    pub base_url: Seq<char>,
    pub environment: Seq<char>,
}

impl View for ApiConfig {
    type V = ApiConfigModel;

    open spec fn view(&self) -> ApiConfigModel {
        ApiConfigModel { base_url: self.base_url@, environment: self.environment@ }
    }
}

impl Clone for ApiConfig {
    fn clone(&self) -> (r: ApiConfig)
        ensures
            r == *self,
    {
        ApiConfig { base_url: self.base_url.clone(), environment: self.environment.clone() }
    }
}

impl ApiConfig {
    /// The configuration of a named environment: production talks to the
    /// hosted service, anything else to a local development server.
    pub fn for_environment(environment: String) -> (r: ApiConfig)
        ensures
            r@.environment == environment@,
            r@.base_url == (if environment@ == "production"@ {
                "https://api.ai-creator.com"@
            } else {
                "http://localhost:8010"@
            }),
    {
        let base_url = if str_eq(environment.as_str(), "production") {
            "https://api.ai-creator.com".to_owned()
        } else {
            "http://localhost:8010".to_owned()
        };
        ApiConfig { base_url: base_url, environment: environment }
    }

    /// The full URL of an API path.
    pub fn endpoint(&self, path: &str) -> (r: String)
        ensures
            r@ == self@.base_url + "/api/v1"@ + path@,
    {
        let mut r = self.base_url.clone();
        r.append("/api/v1");
        r.append(path);
        r
    }
}

} // verus!
