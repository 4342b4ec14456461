//! Why a lookup failed.

use rustc_serialize::json::ParserError;
use vstd::prelude::*;

verus! {

/// The error that `rustc_serialize` reports for text that is not JSON.
#[verifier::external_type_specification]
#[verifier::external_body]
pub struct ExParserError(rustc_serialize::json::ParserError);

/// A failed lookup. None of these ends the connection: the client is sent
/// the failure byte instead of candidates.
#[derive(Debug)]
pub enum SearchError {
    /// Reading the service's answer failed.
    Io(String),
    /// The answer is not JSON.
    Json(ParserError),
    /// The answer is JSON of another shape than expected.
    Msg(&'static str),
    /// The request to the service failed.
    Request(String),
}

impl From<&'static str> for SearchError {
    fn from(err: &'static str) -> (error: SearchError)
        ensures
            error == SearchError::Msg(err),
    {
        SearchError::Msg(err)
    }
}

impl vstd::std_specs::convert::FromSpecImpl<&'static str> for SearchError {
    open spec fn obeys_from_spec() -> bool {
        true
    }

    open spec fn from_spec(err: &'static str) -> SearchError {
        SearchError::Msg(err)
    }
}

} // verus!
