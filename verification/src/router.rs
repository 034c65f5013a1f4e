//! The HTTP side of the service: the address it binds and its health answer.
use vstd::prelude::*;

use crate::json::Json;
use crate::proxy::Reply;
use crate::text::{decimal_text, push_decimal};

verus! {

/// `std::io::Error`, the reason a socket could not be bound.
#[verifier::external_type_specification]
#[verifier::external_body]
pub struct ExIoError(std::io::Error);

/// Why the HTTP server could not start.
#[derive(Debug)]
pub enum RouteError {
    /// The port could not be bound.
    FailedToBind { port: u16, error: std::io::Error },
}

/// `200 OK`.
pub const OK: u16 = 200;

/// The address the server binds for `port`: every interface, `0.0.0.0:port`.
pub fn bind_address(port: u16) -> (res: String)
    ensures
        res@ == "0.0.0.0:"@ + decimal_text(port as nat),
{
    let mut address = String::from_str("0.0.0.0:");
    push_decimal(&mut address, port as u64);
    address
}

/// The answer of `/health`: `200` with `{"health": "healthy"}`.
pub fn health_reply() -> (res: Reply)
    ensures
        res.status == OK,
        res.body is Object,
        res.body.member_count() == 1,
        res.body.str_field("health"@) == Some("healthy"@),
{
    let mut body = Json::empty_object();
    body.insert(String::from_str("health"), Json::String(String::from_str("healthy")));
    Reply { status: OK, body }
}

} // verus!
