//! Custom HTTP endpoints: their method, path, description, handler and the
//! responses handlers give. The builder is generic in the handler's type.

use vstd::prelude::*;
use crate::json::JsonValue;
use crate::text::owned;

verus! {

/// The HTTP methods an endpoint can answer.
#[derive(Debug, Clone, Copy, PartialEq, Eq, Structural)]
pub enum HttpMethod {
    /// GET.
    Get,
    /// POST.
    Post,
    /// PUT.
    Put,
    /// DELETE.
    Delete,
    /// PATCH.
    Patch,
}

/// A response of a custom endpoint: a status code and a JSON body.
#[derive(Debug)]
pub struct EndpointResponse {
    /// The HTTP status code.
    pub status: u16,
    /// The JSON body.
    pub body: JsonValue,
}

/// The body `{"error": message}`.
pub open spec fn is_error_body(b: JsonValue, message: Seq<char>) -> bool {
    b matches JsonValue::Object(ms) && ms@.len() == 1 && ms@[0].0@ == "error"@ && (ms@[0].1 matches JsonValue::String(
        s,
    ) && s@ == message)
}

fn error_body(message: &str) -> (b: JsonValue)
    ensures
        is_error_body(b, message@),
{
    let mut ms: Vec<(String, JsonValue)> = Vec::new();
    ms.push((owned("error"), JsonValue::String(owned(message))));
    JsonValue::Object(ms)
}

impl EndpointResponse {
    /// 200 OK with `body`.
    pub fn ok(body: JsonValue) -> (r: Self)
        ensures
            r.status == 200 && r.body == body,
    {
        EndpointResponse { status: 200, body }
    }

    /// 201 Created with `body`.
    pub fn created(body: JsonValue) -> (r: Self)
        ensures
            r.status == 201 && r.body == body,
    {
        EndpointResponse { status: 201, body }
    }

    /// 202 Accepted with `body`.
    pub fn accepted(body: JsonValue) -> (r: Self)
        ensures
            r.status == 202 && r.body == body,
    {
        EndpointResponse { status: 202, body }
    }

    /// 400 Bad Request with `{"error": message}`.
    pub fn bad_request(message: &str) -> (r: Self)
        ensures
            r.status == 400 && is_error_body(r.body, message@),
    {
        EndpointResponse { status: 400, body: error_body(message) }
    }

    /// 404 Not Found with `{"error": message}`.
    pub fn not_found(message: &str) -> (r: Self)
        ensures
            r.status == 404 && is_error_body(r.body, message@),
    {
        EndpointResponse { status: 404, body: error_body(message) }
    }

    /// 500 Internal Server Error with `{"error": message}`.
    pub fn internal_error(message: &str) -> (r: Self)
        ensures
            r.status == 500 && is_error_body(r.body, message@),
    {
        EndpointResponse { status: 500, body: error_body(message) }
    }

    /// A response with the given status and body.
    pub fn with_status(status: u16, body: JsonValue) -> (r: Self)
        ensures
            r.status == status && r.body == body,
    {
        EndpointResponse { status, body }
    }
}

/// Builds a custom endpoint whose handler has type `H`.
#[derive(Debug)]
pub struct EndpointBuilder<H> {
    /// The path the endpoint answers.
    pub path: String,
    /// The method it answers.
    pub method: HttpMethod,
    /// The handler, once set.
    pub handler: Option<H>,
    /// A description, if given.
    pub description: Option<String>,
}

/// A custom endpoint.
#[derive(Debug)]
pub struct CustomEndpoint<H> {
    /// The path it answers.
    pub path: String,
    /// The method it answers.
    pub method: HttpMethod,
    /// What answers a request.
    pub handler: H,
    /// A description, if given.
    pub description: Option<String>,
}

impl<H> EndpointBuilder<H> {
    /// A builder for `method` requests on `path`, without handler or description.
    pub fn with_method(method: HttpMethod, path: &str) -> (b: Self)
        ensures
            b.path@ == path@,
            b.method == method,
            b.handler is None,
            b.description is None,
    {
        EndpointBuilder { path: owned(path), method, handler: None, description: None }
    }

    /// A builder for GET requests on `path`.
    pub fn get(path: &str) -> (b: Self)
        ensures
            b.path@ == path@ && b.method == HttpMethod::Get && b.handler is None && b.description is None,
    {
        Self::with_method(HttpMethod::Get, path)
    }

    /// A builder for POST requests on `path`.
    pub fn post(path: &str) -> (b: Self)
        ensures
            b.path@ == path@ && b.method == HttpMethod::Post && b.handler is None && b.description is None,
    {
        Self::with_method(HttpMethod::Post, path)
    }

    /// A builder for PUT requests on `path`.
    pub fn put(path: &str) -> (b: Self)
        ensures
            b.path@ == path@ && b.method == HttpMethod::Put && b.handler is None && b.description is None,
    {
        Self::with_method(HttpMethod::Put, path)
    }

    /// A builder for DELETE requests on `path`.
    pub fn delete(path: &str) -> (b: Self)
        ensures
            b.path@ == path@ && b.method == HttpMethod::Delete && b.handler is None && b.description is None,
    {
        Self::with_method(HttpMethod::Delete, path)
    }

    /// A builder for PATCH requests on `path`.
    pub fn patch(path: &str) -> (b: Self)
        ensures
            b.path@ == path@ && b.method == HttpMethod::Patch && b.handler is None && b.description is None,
    {
        Self::with_method(HttpMethod::Patch, path)
    }

    /// Sets the handler.
    pub fn handle(self, handler: H) -> (b: Self)
        ensures
            b.handler == Some(handler) && b.path == self.path && b.method == self.method
                && b.description == self.description,
    {
        EndpointBuilder { handler: Some(handler), ..self }
    }

    /// Sets the description.
    pub fn description(self, description: &str) -> (b: Self)
        ensures
            (b.description matches Some(d) && d@ == description@) && b.path == self.path && b.method == self.method
                && b.handler == self.handler,
    {
        EndpointBuilder { description: Some(owned(description)), ..self }
    }

    /// Builds the endpoint. The handler must have been set.
    pub fn build(self) -> (e: CustomEndpoint<H>)
        requires
            self.handler is Some,
        ensures
            e.path == self.path && e.method == self.method && Some(e.handler) == self.handler
                && e.description == self.description,
    {
        let h = self.handler.expect("Handler must be set with .json() or .handle()");
        CustomEndpoint { path: self.path, method: self.method, handler: h, description: self.description }
    }
}

impl EndpointBuilder<JsonValue> {
    /// Answers every request with the fixed body `response`.
    pub fn json(self, response: JsonValue) -> (b: Self)
        ensures
            b.handler == Some(response) && b.path == self.path && b.method == self.method
                && b.description == self.description,
    {
        self.handle(response)
    }
}

/// The endpoint whose `method` requests on `path` are answered with the fixed body `response`.
pub open spec fn static_endpoint(e: CustomEndpoint<JsonValue>, method: HttpMethod, path: Seq<char>, response: JsonValue) -> bool {
    e.path@ == path && e.method == method && e.handler == response && e.description is None
}

/// A GET endpoint on `path` that answers with `response`.
pub fn get(path: &str, response: JsonValue) -> (e: CustomEndpoint<JsonValue>)
    ensures
        static_endpoint(e, HttpMethod::Get, path@, response),
{
    EndpointBuilder::get(path).json(response).build()
}

/// A POST endpoint on `path` that answers with `response`.
pub fn post(path: &str, response: JsonValue) -> (e: CustomEndpoint<JsonValue>)
    ensures
        static_endpoint(e, HttpMethod::Post, path@, response),
{
    EndpointBuilder::post(path).json(response).build()
}

/// A PUT endpoint on `path` that answers with `response`.
pub fn put(path: &str, response: JsonValue) -> (e: CustomEndpoint<JsonValue>)
    ensures
        static_endpoint(e, HttpMethod::Put, path@, response),
{
    EndpointBuilder::put(path).json(response).build()
}

/// A DELETE endpoint on `path` that answers with `response`.
pub fn delete(path: &str, response: JsonValue) -> (e: CustomEndpoint<JsonValue>)
    ensures
        static_endpoint(e, HttpMethod::Delete, path@, response),
{
    EndpointBuilder::delete(path).json(response).build()
}

/// A PATCH endpoint on `path` that answers with `response`.
pub fn patch(path: &str, response: JsonValue) -> (e: CustomEndpoint<JsonValue>)
    ensures
        static_endpoint(e, HttpMethod::Patch, path@, response),
{
    EndpointBuilder::patch(path).json(response).build()
}

} // verus!
