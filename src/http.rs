//! The HTTP surface: which requests the server answers, and how.
use vstd::prelude::*;

use crate::env::JSEnv;

verus! {

/// The HTTP methods the server tells apart.
#[derive(Clone, Copy, Debug, PartialEq, Eq, Structural)]
pub enum HttpMethod {
    Get,
    Post,
    Other,
}

/// What the server does with a request.
#[derive(Clone, Copy, Debug, PartialEq, Eq, Structural)]
pub enum Route {
    /// Answer 200 with the greeting text.
    Greeting,
    /// Answer 200 with the liveness text.
    Health,
    /// Decode the body, run the command, answer 200 with the response.
    Execute,
    /// Answer 404.
    NotFound,
}

/// `GET /` greets, `GET /Health` reports liveness, `POST /Ateles/Execute`
/// runs a command; every other request is not found.
pub open spec fn route_of(method: HttpMethod, path: Seq<char>) -> Route {
    if method == HttpMethod::Get && path == "/"@ {
        Route::Greeting
    } else if method == HttpMethod::Get && path == "/Health"@ {
        Route::Health
    } else if method == HttpMethod::Post && path == "/Ateles/Execute"@ {
        Route::Execute
    } else {
        Route::NotFound
    }
}

/// Whether two texts are the same.
fn same_text(a: &str, b: &str) -> (r: bool)
    ensures
        r == (a@ == b@),
{
    a.to_owned() == b.to_owned()
}

/// Decides what to do with a request of `method` on `path`.
pub fn route(method: HttpMethod, path: &str) -> (r: Route)
    ensures
        r == route_of(method, path@),
{
    if method == HttpMethod::Get && same_text(path, "/") {
        Route::Greeting
    } else if method == HttpMethod::Get && same_text(path, "/Health") {
        Route::Health
    } else if method == HttpMethod::Post && same_text(path, "/Ateles/Execute") {
        Route::Execute
    } else {
        Route::NotFound
    }
}

/// The body of the greeting.
pub fn greeting_text() -> (r: String)
    ensures
        r@ == "HELLO Ateles on Rust with V8!!!!"@,
{
    "HELLO Ateles on Rust with V8!!!!".to_owned()
}

/// The body of the liveness answer.
pub fn health_text() -> (r: String)
    ensures
        r@ == "OK"@,
{
    "OK".to_owned()
}

/// Makes one session per accepted connection, each from the same
/// environment.
pub struct MakeService {
    pub js_env: JSEnv,
}

impl MakeService {
    /// A maker of sessions from `js_env`.
    pub fn new(js_env: JSEnv) -> (r: MakeService)
        ensures
            r.js_env.startup_data@ == js_env.startup_data@,
    {
        MakeService { js_env }
    }
}

} // verus!
