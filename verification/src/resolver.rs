//! The address and the declared identity of the client behind a request.

use crate::forwarded::{forwarded_client, parse_forwarded_for};
use crate::headers::{is_plain_name, lookup, shown};
use axum::http::HeaderMap;
use vstd::prelude::*;

verus! {

/// The name of the header in which proxies record the hops of a request.
pub open spec fn forwarded_for_name() -> Seq<char> {
    "x-forwarded-for"@
}

/// The name of the header in which a client says what it is.
pub open spec fn user_agent_name() -> Seq<char> {
    "user-agent"@
}

/// The address to report for a client: the one its forwarding header names,
/// else the one its connection comes from.
pub open spec fn client_address(peer: Seq<char>, forwarded: Option<Seq<char>>) -> Seq<char> {
    match forwarded {
        Some(value) => forwarded_client(value),
        None => peer,
    }
}

/// The identity to report for a client: what it declared, else nothing.
pub open spec fn client_id(declared: Option<Seq<char>>) -> Seq<char> {
    match declared {
        Some(agent) => agent,
        None => Seq::empty(),
    }
}

/// Both header names are plain names, as a lookup asks.
proof fn lemma_names_are_plain()
    ensures
        is_plain_name(forwarded_for_name()),
        is_plain_name(user_agent_name()),
{
    reveal_strlit("x-forwarded-for");
    reveal_strlit("user-agent");
}

/// Decides the address to report for a client, given the address of its
/// connection as text and the value of its forwarding header, if it sent one.
pub fn resolve_client_ip(peer: &str, forwarded: Option<&str>) -> (r: String)
    ensures
        r@ == client_address(
            peer@,
            match forwarded {
                Some(value) => Some(value@),
                None => None,
            },
        ),
{
    match forwarded {
        Some(value) => parse_forwarded_for(value),
        None => peer.to_owned(),
    }
}

/// Decides the identity to report for a client, given what it declared.
pub fn extract_client_id(declared: Option<&str>) -> (r: String)
    ensures
        r@ == client_id(
            match declared {
                Some(agent) => Some(agent@),
                None => None,
            },
        ),
{
    match declared {
        Some(agent) => agent.to_owned(),
        None => String::new(),
    }
}

/// The address of the client behind a request: the first hop of its
/// forwarding header, else `address`, the address its connection comes from.
/// Every request has one, whatever its headers hold.
pub fn ip(address: &str, headers: &HeaderMap) -> (r: String)
    ensures
        r@ == client_address(address@, shown(*headers, forwarded_for_name())),
{
    proof {
        lemma_names_are_plain();
    }
    match lookup(headers, "x-forwarded-for") {
        Some(value) => resolve_client_ip(address, Some(value.as_str())),
        None => resolve_client_ip(address, None),
    }
}

/// What the client behind a request declared itself to be: the value of that
/// header as it is, else the empty string.
pub fn user_agent(headers: &HeaderMap) -> (r: String)
    ensures
        r@ == client_id(shown(*headers, user_agent_name())),
{
    proof {
        lemma_names_are_plain();
    }
    match lookup(headers, "user-agent") {
        Some(agent) => extract_client_id(Some(agent.as_str())),
        None => extract_client_id(None),
    }
}

/// A client that connects directly is reported under the address of its
/// connection, unchanged.
pub proof fn lemma_direct_client_keeps_its_address(
    address: &str,
    headers: &HeaderMap,
    reported: String,
)
    requires
        shown(*headers, forwarded_for_name()) is None,
        call_ensures(ip, (address, headers), reported),
    ensures
        reported@ == address@,
{
}

/// Where a request carries a forwarding header, the address reported for it
/// does not depend on where the connection comes from.
pub proof fn lemma_forwarded_client_hides_the_peer(
    first_peer: &str,
    second_peer: &str,
    headers: &HeaderMap,
    first: String,
    second: String,
)
    requires
        shown(*headers, forwarded_for_name()) is Some,
        call_ensures(ip, (first_peer, headers), first),
        call_ensures(ip, (second_peer, headers), second),
    ensures
        first@ == second@,
{
}

/// The reported address depends on the peer and the forwarding header alone:
/// two requests that agree on both are reported alike, whatever else they
/// carry.
pub proof fn lemma_ip_reads_its_header_alone(
    address: &str,
    first_headers: &HeaderMap,
    second_headers: &HeaderMap,
    first: String,
    second: String,
)
    requires
        shown(*first_headers, forwarded_for_name()) == shown(
            *second_headers,
            forwarded_for_name(),
        ),
        call_ensures(ip, (address, first_headers), first),
        call_ensures(ip, (address, second_headers), second),
    ensures
        first@ == second@,
{
}

/// The declared identity depends on the user-agent header alone: two requests
/// that agree on it are answered alike, whatever else they carry.
pub proof fn lemma_user_agent_reads_its_header_alone(
    first_headers: &HeaderMap,
    second_headers: &HeaderMap,
    first: String,
    second: String,
)
    requires
        shown(*first_headers, user_agent_name()) == shown(*second_headers, user_agent_name()),
        call_ensures(user_agent, (first_headers,), first),
        call_ensures(user_agent, (second_headers,), second),
    ensures
        first@ == second@,
{
}

/// Given the same peer and the same header value twice, `resolve_client_ip`
/// decides the same both times.
pub proof fn lemma_resolve_client_ip_answers_alike(
    peer: &str,
    forwarded: Option<&str>,
    first: String,
    second: String,
)
    requires
        call_ensures(resolve_client_ip, (peer, forwarded), first),
        call_ensures(resolve_client_ip, (peer, forwarded), second),
    ensures
        first@ == second@,
{
}

/// Asked twice about one request, `ip` gives the same text both times.
pub proof fn lemma_ip_answers_alike(
    address: &str,
    headers: &HeaderMap,
    first: String,
    second: String,
)
    requires
        call_ensures(ip, (address, headers), first),
        call_ensures(ip, (address, headers), second),
    ensures
        first@ == second@,
{
}

/// Asked twice about one request, `user_agent` gives the same text both
/// times.
pub proof fn lemma_user_agent_answers_alike(headers: &HeaderMap, first: String, second: String)
    requires
        call_ensures(user_agent, (headers,), first),
        call_ensures(user_agent, (headers,), second),
    ensures
        first@ == second@,
{
}

} // verus!
