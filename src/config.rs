//! Configuration of the client: where the service is, with which key.

use crate::text::{chars_of, has_prefix, push_char, push_text, starts_with};
use vstd::prelude::*;

verus! {

#[derive(Debug, PartialEq, Eq)]
pub enum ConfigError {
    EmptyApiKey,
    ErrorKeyRing { message: String },
    InvalidApiKey,
    UnknownApiKey,
    UnsetApiKey,
    /// The endpoint names plain http, which is refused.
    InsecureEndpoint,
}

#[derive(Debug)]
pub struct Config {
    pub version: &'static str,
    pub commit: &'static str,
    pub config_location: String,
    pub default_project: Option<String>,
    pub api: Api,
}

/// Where the service is and the key that opens it.
#[derive(Debug)]
pub struct Api {
    pub key: String,
    pub endpoint: String,
}

/// The endpoint as used: always https, always ending in a slash; none for
/// an http endpoint.
pub open spec fn endpoint_text(e: Seq<char>) -> Option<Seq<char>> {
    if has_prefix(e, "http://"@) {
        None
    } else if has_prefix(e, "https://"@) {
        if e.len() > 0 && e.last() == '/' {
            Some(e)
        } else {
            Some(e.push('/'))
        }
    } else {
        Some("https://"@ + e + "/"@)
    }
}

/// Normalises the endpoint of the configuration: an address without a
/// scheme gets `https://`, every address ends in `/`, and plain http is
/// refused.
pub fn set_endpoint(endpoint: &str) -> (r: Result<String, ConfigError>)
    ensures
        match endpoint_text(endpoint@) {
            Some(t) => r matches Ok(s) && s@ == t,
            None => r == Err::<String, ConfigError>(ConfigError::InsecureEndpoint),
        },
{
    let e = chars_of(endpoint);
    let http = chars_of("http://");
    let https = chars_of("https://");
    proof {
        reveal_strlit("http://");
        reveal_strlit("https://");
    }
    if starts_with(&e, &http) {
        return Err(ConfigError::InsecureEndpoint);
    }
    if starts_with(&e, &https) {
        let mut s = endpoint.to_owned();
        if !(e.len() > 0 && e[e.len() - 1] == '/') {
            push_char(&mut s, '/');
        }
        return Ok(s);
    }
    let mut s = "https://".to_owned();
    push_text(&mut s, endpoint);
    push_text(&mut s, "/");
    Ok(s)
}

} // verus!
