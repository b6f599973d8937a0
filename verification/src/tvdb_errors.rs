//! The closed set of failures a fetch can end in.

use vstd::prelude::*;
use vstd::string::*;

use crate::text::{decimal, decimal_string};

verus! {

/// Why an operation failed. Each kind carries its cause for display.
#[derive(Debug)]
pub enum TvdbError {
    /// The connection or the reading of the response failed.
    Transport(String),
    /// The service answered with a client or server error status.
    HttpStatus(u16),
    /// The response body did not have the expected JSON shape.
    Deserialization(String),
    /// The request itself was not acceptable.
    Validation(String),
}

/// First status code of the client-error class.
pub const CLIENT_ERROR_FIRST: u16 = 400;

/// Last status code of the server-error class.
pub const SERVER_ERROR_LAST: u16 = 599;

/// Whether `status` lies in the client-error or server-error class.
pub open spec fn is_error_status(status: u16) -> bool {
    CLIENT_ERROR_FIRST <= status <= SERVER_ERROR_LAST
}

/// Accepts a response status unless it is a client or server error.
pub fn check_status(status: u16) -> (r: Result<(), TvdbError>)
    ensures
        is_error_status(status) <==> r is Err,
        r is Err ==> r->Err_0 == TvdbError::HttpStatus(status),
{
    if CLIENT_ERROR_FIRST <= status && status <= SERVER_ERROR_LAST {
        Err(TvdbError::HttpStatus(status))
    } else {
        Ok(())
    }
}

impl TvdbError {
    /// The line shown for this failure.
    pub open spec fn message_text(self) -> Seq<char> {
        match self {
            TvdbError::Transport(cause) => "Transport Error: "@ + cause@,
            TvdbError::HttpStatus(status) => "Error: response error: "@ + decimal(status as nat)
                + " ("@ + decimal(status as nat) + ")"@,
            TvdbError::Deserialization(cause) => "Deserialization Error: "@ + cause@,
            TvdbError::Validation(cause) => "Error: "@ + cause@,
        }
    }

    /// Renders the line shown for this failure.
    pub fn message(&self) -> (r: String)
        ensures
            r@ == self.message_text(),
    {
        match self {
            TvdbError::Transport(cause) => String::from_str("Transport Error: ").concat(
                cause.as_str(),
            ),
            TvdbError::HttpStatus(status) => {
                let code = decimal_string(*status as u64);
                String::from_str("Error: response error: ").concat(code.as_str()).concat(
                    " (",
                ).concat(code.as_str()).concat(")")
            },
            TvdbError::Deserialization(cause) => String::from_str("Deserialization Error: ").concat(
                cause.as_str(),
            ),
            TvdbError::Validation(cause) => String::from_str("Error: ").concat(cause.as_str()),
        }
    }
}

} // verus!
