//! What the service answers: a greeting in plain text, or a record of the
//! connection.

use crate::headers::shown;
use crate::resolver::{
    client_address, client_id, forwarded_for_name, ip, user_agent, user_agent_name,
};
use axum::http::HeaderMap;
use vstd::prelude::*;

verus! {

/// The facts reported about one connection.
#[derive(Debug, PartialEq, Eq)]
pub struct Data {
    /// The address of the client.
    pub ip: String,
    /// The port that the connection comes from.
    pub port: u16,
    /// What the client declared itself to be.
    pub user_agent: String,
}

/// The words in front of the address in the plain answer.
pub open spec fn greeting_prefix() -> Seq<char> {
    "Hello, "@
}

/// The plain answer for a client at address `ip`.
pub fn greeting(ip: &str) -> (r: String)
    ensures
        r@ == greeting_prefix() + ip@,
{
    let mut text = "Hello, ".to_owned();
    text.append(ip);
    text
}

/// The plain answer to a request over a connection from `address` that sent
/// `headers`: the greeting of the client's address.
pub fn plain_answer(address: &str, headers: &HeaderMap) -> (r: String)
    ensures
        r@ == greeting_prefix() + client_address(
            address@,
            shown(*headers, forwarded_for_name()),
        ),
{
    let client = ip(address, headers);
    greeting(client.as_str())
}

/// The record of a connection from `address` and `port` that sent `headers`.
/// The port is the connection's own, whatever the headers say.
pub fn connection_data(address: &str, port: u16, headers: &HeaderMap) -> (data: Data)
    ensures
        data.ip@ == client_address(address@, shown(*headers, forwarded_for_name())),
        data.port == port,
        data.user_agent@ == client_id(shown(*headers, user_agent_name())),
{
    Data { ip: ip(address, headers), port, user_agent: user_agent(headers) }
}

/// The port in a record is the one the connection comes from: nothing in the
/// headers, a port in the forwarding header least of all, changes it.
pub proof fn lemma_port_is_the_connections_own(
    address: &str,
    port: u16,
    headers: &HeaderMap,
    data: Data,
)
    requires
        call_ensures(connection_data, (address, port, headers), data),
    ensures
        data.port == port,
{
}

/// No header changes the port: two requests over connections from one port
/// are recorded with the same port, whatever either of them sent.
pub proof fn lemma_port_ignores_the_headers(
    first_address: &str,
    second_address: &str,
    port: u16,
    first_headers: &HeaderMap,
    second_headers: &HeaderMap,
    first: Data,
    second: Data,
)
    requires
        call_ensures(connection_data, (first_address, port, first_headers), first),
        call_ensures(connection_data, (second_address, port, second_headers), second),
    ensures
        first.port == second.port,
{
}

} // verus!
