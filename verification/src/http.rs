//! HTTP request and response values exchanged with handlers.

use vstd::prelude::*;
use std::collections::HashMap;
use serde_json::Value;

verus! {

/// An HTTP method.
#[derive(Debug, Clone, Copy, PartialEq, Eq, Structural)]
pub enum HttpMethod {
    Get,
    Post,
    Put,
    Delete,
}

/// A request: its method, path parameters, query parameters and JSON body.
pub struct HttpRequest {
    pub method: HttpMethod,
    pub path: HashMap<String, String>,
    pub query: HashMap<String, String>,
    pub body: Option<Value>,
}

/// A response: status code and optional JSON body.
pub struct HttpResponse {
    pub status: u16,
    pub body: Option<Value>,
}

impl HttpResponse {
    /// `200 OK` with no body.
    pub fn ok() -> (r: Self)
        ensures
            r.status == 200,
            r.body is None,
    {
        HttpResponse { status: 200, body: None }
    }

    /// `200 OK` with the given JSON body.
    pub fn json(body: Value) -> (r: Self)
        ensures
            r.status == 200,
            r.body == Some(body),
    {
        HttpResponse { status: 200, body: Some(body) }
    }
}

} // verus!
