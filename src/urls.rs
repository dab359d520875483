use vstd::prelude::*;
use crate::errors::ApiError;
use crate::model::{LinkTarget, opt_text};

verus! {

/// The serialization of the absolute URL that `s` parses to, if it parses to one.
pub uninterp spec fn parsed_url(s: Seq<char>) -> Option<Seq<char>>;

/// Relies on `url::Url::parse`, which accepts exactly the strings that hold an
/// absolute URL, and on `From<Url> for String`, which hands back the parsed
/// URL's normalized serialization.
#[verifier::external_body]
fn parse_url(s: &str) -> (r: Option<String>)
    ensures
        opt_text(r) == parsed_url(s@),
{
    url::Url::parse(s).ok().map(String::from)
}

/// Checks and normalizes a requested target: a malformed URL is refused before
/// anything is stored.
pub fn validate_target(target: &LinkTarget) -> (r: Result<String, ApiError>)
    ensures
        parsed_url(target.target_url@) is Some <==> r is Ok,
        r is Ok ==> Some(r->Ok_0@) == parsed_url(target.target_url@),
        r is Err ==> r->Err_0 is MalformedUrl,
{
    match parse_url(target.target_url.as_str()) {
        Some(u) => Ok(u),
        None => Err(ApiError::MalformedUrl),
    }
}

} // verus!
