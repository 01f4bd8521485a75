//! The status code of an observed response.

use vstd::prelude::*;

verus! {

/// A three-digit status code: an integer from 100 to 999.
#[derive(Clone, Copy, Debug)]
pub struct StatusCode {
    code: u16,
}

impl View for StatusCode {
    type V = u16;

    /// The integer that the status code stands for.
    closed spec fn view(&self) -> u16 {
        self.code
    }
}

impl StatusCode {
    #[verifier::type_invariant]
    spec fn in_bounds(self) -> bool {
        100 <= self.code <= 999
    }

    /// Whether an integer is a status code.
    pub open spec fn is_code(code: u16) -> bool {
        100 <= code <= 999
    }

    /// Makes a status code of an integer from 100 to 999, and of no other.
    pub fn from_u16(code: u16) -> (status: Option<StatusCode>)
        ensures
            status.is_some() <==> Self::is_code(code),
            status matches Some(s) ==> s@ == code,
    {
        if 100 <= code && code <= 999 {
            Some(StatusCode { code })
        } else {
            None
        }
    }

    /// Returns the integer that the status code stands for.
    pub fn as_u16(&self) -> (code: u16)
        ensures
            code == self@,
            Self::is_code(code),
    {
        proof {
            use_type_invariant(self);
        }
        self.code
    }

    /// 200, the request succeeded.
    pub fn ok() -> (status: StatusCode)
        ensures
            status@ == 200,
    {
        StatusCode { code: 200 }
    }

    /// 204, the request succeeded and the response has no body.
    pub fn no_content() -> (status: StatusCode)
        ensures
            status@ == 204,
    {
        StatusCode { code: 204 }
    }

    /// 404, the server found nothing at the target.
    pub fn not_found() -> (status: StatusCode)
        ensures
            status@ == 404,
    {
        StatusCode { code: 404 }
    }

    /// 500, the server failed to handle the request.
    pub fn internal_server_error() -> (status: StatusCode)
        ensures
            status@ == 500,
    {
        StatusCode { code: 500 }
    }
}

} // verus!
