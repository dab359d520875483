use vstd::prelude::*;

verus! {

/// What the persistence gateway reports when a statement does not succeed.
#[derive(Debug)]
pub enum GatewayError {
    /// The store did not answer within the operation's time limit.
    Timeout,
    /// A statement expected to return a row returned none.
    NoRows,
    /// The store reported a driver, constraint or connectivity failure.
    Store(String),
}

/// The failures a request can end in, each with its HTTP status.
#[derive(Debug)]
pub enum ApiError {
    /// The target URL could not be parsed as an absolute URL.
    MalformedUrl,
    /// No link has the requested identifier.
    NotFound,
    /// The store did not answer in time.
    Timeout,
    /// The store failed; the text describes the failure.
    Store(String),
}

pub open spec fn status_of(e: ApiError) -> u16 {
    match e {
        ApiError::MalformedUrl => 409,
        ApiError::NotFound => 404,
        ApiError::Timeout => 500,
        ApiError::Store(_) => 500,
    }
}

pub open spec fn message_of(e: ApiError) -> Seq<char> {
    match e {
        ApiError::MalformedUrl => "url malformed"@,
        ApiError::NotFound => "Not found"@,
        ApiError::Timeout => "deadline has elapsed"@,
        ApiError::Store(s) => s@,
    }
}

impl ApiError {
    /// The HTTP status code this failure is answered with.
    pub fn status_code(&self) -> (r: u16)
        ensures
            r == status_of(*self),
    {
        match self {
            ApiError::MalformedUrl => 409,
            ApiError::NotFound => 404,
            ApiError::Timeout => 500,
            ApiError::Store(_) => 500,
        }
    }

    /// The text of the response body for this failure.
    pub fn message(&self) -> (r: String)
        ensures
            r@ == message_of(*self),
    {
        match self {
            ApiError::MalformedUrl => String::from_str("url malformed"),
            ApiError::NotFound => String::from_str("Not found"),
            ApiError::Timeout => String::from_str("deadline has elapsed"),
            ApiError::Store(s) => s.clone(),
        }
    }
}

/// The text that a missing row is reported with.
pub open spec fn no_rows_text() -> Seq<char> {
    "no rows returned by a query that expected to return at least one row"@
}

/// Whether `a` is the request failure that the gateway failure `g` surfaces as.
pub open spec fn surfaces_as(g: GatewayError, a: ApiError) -> bool {
    match g {
        GatewayError::Timeout => a is Timeout,
        GatewayError::NoRows => a is Store && a->Store_0@ == no_rows_text(),
        GatewayError::Store(s) => a is Store && a->Store_0@ == s@,
    }
}

/// Maps a gateway failure of a request's main statement to the request's failure:
/// every such failure is a server error that carries the failure's description.
pub fn internal_error(e: GatewayError) -> (r: ApiError)
    ensures
        surfaces_as(e, r),
        status_of(r) == 500,
{
    match e {
        GatewayError::Timeout => ApiError::Timeout,
        GatewayError::NoRows => ApiError::Store(
            String::from_str("no rows returned by a query that expected to return at least one row"),
        ),
        GatewayError::Store(s) => ApiError::Store(s),
    }
}

} // verus!
