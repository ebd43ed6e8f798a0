//! Composition of the request chain and its CORS policy.

use vstd::prelude::*;

verus! {

/// The stages of the request chain.
#[derive(Clone, Copy, Debug, PartialEq, Eq, Structural)]
pub enum Stage {
    ErrorHandle,
    Cors,
    Auth,
    AccessLog,
    Handler,
}

/// The chain order, outermost first. Responses pass back in reverse order.
pub open spec fn chain_order() -> Seq<Stage> {
    seq![Stage::ErrorHandle, Stage::Cors, Stage::Auth, Stage::AccessLog, Stage::Handler]
}

/// The stages in the order a request meets them.
pub fn middleware_chain() -> (r: Vec<Stage>)
    ensures
        r@ == chain_order(),
{
    let mut r: Vec<Stage> = Vec::new();
    r.push(Stage::ErrorHandle);
    r.push(Stage::Cors);
    r.push(Stage::Auth);
    r.push(Stage::AccessLog);
    r.push(Stage::Handler);
    proof {
        assert(r@ =~= chain_order());
    }
    r
}

/// The CORS stage: preflight requests are answered at once, and every
/// response gets the same access-control headers.
#[derive(Clone, Copy, Debug)]
pub struct CorsMiddleware;

pub open spec fn cors_header_list() -> Seq<(Seq<char>, Seq<char>)> {
    seq![
        ("Access-Control-Allow-Origin"@, "http://localhost:5173"@),
        ("Access-Control-Allow-Headers"@, "Origin, X-Requested-With, Content-Type, Accept"@),
        ("Access-Control-Allow-Methods"@, "GET, POST, PUT, DELETE, OPTIONS"@),
        ("Access-Control-Max-Age"@, "7200"@),
        ("Access-Control-Allow-Credentials"@, "true"@),
    ]
}

fn header(name: &str, value: &str) -> (r: (String, String))
    ensures
        r.0@ == name@,
        r.1@ == value@,
{
    (String::from_str(name), String::from_str(value))
}

impl CorsMiddleware {
    /// A request with method `method` is a preflight: it is answered with 200
    /// and an empty body, and the rest of the chain does not run.
    pub fn is_preflight(&self, method: &str) -> (r: bool)
        ensures
            r == (method@ == "OPTIONS"@),
    {
        crate::text::same_text(method, "OPTIONS")
    }

    /// What the stage answers by itself for a request of `method`: a
    /// preflight gets status 200 and an empty body, and the rest of the chain
    /// does not run; any other request goes on down the chain (`None`).
    pub fn preflight_response(&self, method: &str) -> (r: Option<(u16, String)>)
        ensures
            match r {
                Some((status, body)) => method@ == "OPTIONS"@ && status == 200 && body@ == Seq::<char>::empty(),
                None => method@ != "OPTIONS"@,
            },
    {
        if self.is_preflight(method) {
            Some((200, String::new()))
        } else {
            None
        }
    }

    /// The headers added to every response, in order.
    pub fn headers(&self) -> (r: Vec<(String, String)>)
        ensures
            r@.len() == cors_header_list().len(),
            forall|i: int| 0 <= i < r@.len() ==> (#[trigger] r@[i]).0@ == cors_header_list()[i].0 && r@[i].1@
                == cors_header_list()[i].1,
    {
        let mut r: Vec<(String, String)> = Vec::new();
        r.push(header("Access-Control-Allow-Origin", "http://localhost:5173"));
        r.push(header("Access-Control-Allow-Headers", "Origin, X-Requested-With, Content-Type, Accept"));
        r.push(header("Access-Control-Allow-Methods", "GET, POST, PUT, DELETE, OPTIONS"));
        r.push(header("Access-Control-Max-Age", "7200"));
        r.push(header("Access-Control-Allow-Credentials", "true"));
        r
    }
}

} // verus!
