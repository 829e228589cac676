use vstd::prelude::*;

verus! {

/// The answer of a route that reports only a status.
#[derive(Clone, Copy, Debug, PartialEq, Eq, Structural)]
pub enum CustomResponse {
    OK,
    Unauthorized,
    Forbidden,
    BadRequest,
}

/// The HTTP status code of each response.
pub open spec fn http_status_of(r: CustomResponse) -> u16 {
    match r {
        CustomResponse::OK => 200,
        CustomResponse::Unauthorized => 401,
        CustomResponse::Forbidden => 403,
        CustomResponse::BadRequest => 400,
    }
}

impl CustomResponse {
    /// The HTTP status code sent for this response.
    pub fn get_http_status(&self) -> (status: u16)
        ensures
            status == http_status_of(*self),
    {
        match self {
            CustomResponse::OK => 200,
            CustomResponse::Unauthorized => 401,
            CustomResponse::Forbidden => 403,
            CustomResponse::BadRequest => 400,
        }
    }
}

} // verus!
