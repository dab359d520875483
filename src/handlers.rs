use vstd::prelude::*;
use crate::errors::{ApiError, GatewayError, internal_error, surfaces_as};
use crate::model::{Link, CountedLinkStatistic};

verus! {

/// The `Cache-Control` value sent with every redirect.
pub open spec fn cache_control_text() -> Seq<char> {
    "public, max-age=300, s-maxage=300, stale-while-revalidate=300, stale-if-error=300"@
}

/// A temporary redirect to `location`, cacheable as `cache_control` says.
#[derive(Debug)]
pub struct Redirect {
    pub location: String,
    pub cache_control: String,
}

impl Redirect {
    /// A redirect answers with 307 Temporary Redirect.
    pub fn status_code(&self) -> (r: u16)
        ensures
            r == 307,
    {
        307
    }
}

/// The outcome of a redirect request given the result of looking its
/// identifier up: the link's target, not found, or the store's failure.
pub open spec fn redirect_answers(lookup: Result<Option<Link>, GatewayError>, r: Result<Redirect, ApiError>) -> bool {
    match lookup {
        Ok(Some(l)) => r is Ok && r->Ok_0.location@ == l.target_url@ && r->Ok_0.cache_control@
            == cache_control_text(),
        Ok(None) => r is Err && r->Err_0 is NotFound,
        Err(g) => r is Err && surfaces_as(g, r->Err_0),
    }
}

/// Decides the answer to a redirect request from the lookup of its identifier.
pub fn redirect_from_lookup(lookup: Result<Option<Link>, GatewayError>) -> (r: Result<Redirect, ApiError>)
    ensures
        redirect_answers(lookup, r),
{
    match lookup {
        Ok(Some(link)) => Ok(
            Redirect {
                location: link.target_url,
                cache_control: String::from_str(
                    "public, max-age=300, s-maxage=300, stale-while-revalidate=300, stale-if-error=300",
                ),
            },
        ),
        Ok(None) => Err(ApiError::NotFound),
        Err(e) => Err(internal_error(e)),
    }
}

/// Decides the answer to a create or update request from the row the store
/// returned: that link, or the store's failure as a server error.
pub fn link_from_reply(reply: Result<Link, GatewayError>) -> (r: Result<Link, ApiError>)
    ensures
        reply is Ok <==> r is Ok,
        reply is Ok ==> r->Ok_0@ == reply->Ok_0@,
        reply is Err ==> surfaces_as(reply->Err_0, r->Err_0),
{
    match reply {
        Ok(link) => Ok(link),
        Err(e) => Err(internal_error(e)),
    }
}

/// Decides the answer to a statistics request from the rows the store
/// returned: all of them, possibly none, or the store's failure.
pub fn statistics_from_reply(reply: Result<Vec<CountedLinkStatistic>, GatewayError>) -> (r: Result<
    Vec<CountedLinkStatistic>,
    ApiError,
>)
    ensures
        reply is Ok <==> r is Ok,
        reply is Ok ==> r->Ok_0@ == reply->Ok_0@,
        reply is Err ==> surfaces_as(reply->Err_0, r->Err_0),
{
    match reply {
        Ok(rows) => Ok(rows),
        Err(e) => Err(internal_error(e)),
    }
}

} // verus!
