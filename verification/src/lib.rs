//! A small message-board web service core: routing, form and query parsing,
//! time-range filtering, and response rendering, with verified contracts.
//! The surrounding process (HTTP listener, database) drives these functions
//! and performs the I/O itself.

use vstd::prelude::*;

pub mod form;
pub mod json;
pub mod messages;
pub mod num;
pub mod response;
pub mod strutil;

verus! {

use vstd::string::StringSliceAdditionalSpecFns;
use crate::form::QueryError;
use crate::form::form_pairs_of;
use crate::form::parse_query;
use crate::form::time_range_of;
use crate::messages::TimeRange;
use crate::strutil::str_eq;

/// The request handler: stateless; one value serves every request.
pub struct Microservice;

/// The request methods the service distinguishes.
#[derive(Clone, Copy, PartialEq, Eq, Structural, Debug)]
pub enum Method {
    Get,
    Post,
    Other,
}

/// Where a request is dispatched, by method and path.
#[derive(Clone, Copy, PartialEq, Eq, Structural, Debug)]
pub enum Route {
    PostMessage,
    GetMessages,
    NotFound,
}

impl Microservice {
    /// Dispatch: POST on the root path stores a message, GET on the root
    /// path lists messages, and everything else is unknown.
    pub fn route(method: &Method, path: &str) -> (r: Route)
        ensures
            r is PostMessage <==> (method is Post && path@ == "/"@),
            r is GetMessages <==> (method is Get && path@ == "/"@),
            r is NotFound <==> !((method is Post || method is Get) && path@ == "/"@),
    {
        if str_eq(path, "/") {
            match method {
                Method::Post => Route::PostMessage,
                Method::Get => Route::GetMessages,
                Method::Other => Route::NotFound,
            }
        } else {
            Route::NotFound
        }
    }

    /// The time range a listing request asks for: an absent query string
    /// means no bounds at all, a present one is decoded and may be
    /// rejected.
    pub fn get_time_range(query: Option<&str>) -> (r: Result<TimeRange, QueryError>)
        ensures
            match query {
                None => r matches Ok(tr) && tr.before is None && tr.after is None,
                Some(q) => r == time_range_of(form_pairs_of(q.spec_bytes())),
            },
    {
        match query {
            Some(q) => parse_query(q),
            None => Ok(TimeRange { before: None, after: None }),
        }
    }
}

} // verus!
