//! HTTP outcomes that the library's decisions produce.
use vstd::prelude::*;

verus! {

/// The HTTP status a request handler answers with.
#[derive(Clone, Copy, Debug, PartialEq, Eq, Structural)]
pub enum Status {
    Success,
    Created,
    Accepted,
    NoContent,
    BadRequest,
    Unauthorized,
    Forbidden,
    NotFound,
    Conflict,
    InternalServerError,
    ServiceUnavailable,
    GatewayTimeout,
}

pub open spec fn status_code(s: Status) -> u16 {
    match s {
        Status::Success => 200,
        Status::Created => 201,
        Status::Accepted => 202,
        Status::NoContent => 204,
        Status::BadRequest => 400,
        Status::Unauthorized => 401,
        Status::Forbidden => 403,
        Status::NotFound => 404,
        Status::Conflict => 409,
        Status::InternalServerError => 500,
        Status::ServiceUnavailable => 503,
        Status::GatewayTimeout => 504,
    }
}

impl Status {
    /// The numeric HTTP status code.
    pub fn code(self) -> (c: u16)
        ensures
            c == status_code(self),
    {
        match self {
            Status::Success => 200,
            Status::Created => 201,
            Status::Accepted => 202,
            Status::NoContent => 204,
            Status::BadRequest => 400,
            Status::Unauthorized => 401,
            Status::Forbidden => 403,
            Status::NotFound => 404,
            Status::Conflict => 409,
            Status::InternalServerError => 500,
            Status::ServiceUnavailable => 503,
            Status::GatewayTimeout => 504,
        }
    }
}

} // verus!
