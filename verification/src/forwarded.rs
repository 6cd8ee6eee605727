//! Reading the originating client out of a forwarding header value.
//!
//! A forwarding header lists the hops a request went through, separated by
//! commas, the originating client first. A hop is an address that may carry a
//! port (`1.2.3.4:80`) and, for IPv6, brackets (`[::1]` or `[::1]:80`). No
//! hop is checked to be a well-formed address: whatever text the steps below
//! leave is the answer.

use crate::text::{
    before, before_pair, has_char, lemma_before_absent, lemma_before_cut,
    lemma_before_pair_cut, lemma_before_pair_missing, lemma_joined_holds, lemma_without_absent,
    lemma_without_holds, lemma_without_joined, lemma_without_one, pair_at, strip_char,
    take_before, take_before_pair, without,
};
use vstd::prelude::*;

verus! {

/// The first hop of a forwarding header value: the text in front of the first
/// comma, untrimmed.
pub open spec fn first_hop(value: Seq<char>) -> Seq<char> {
    before(value, ',')
}

/// The address part of one hop, brackets still in place where the hop had no
/// port behind them.
///
/// A hop with `]:` in it is a bracketed IPv6 address with a port: the address
/// is what stands in front of `]:`, less any `[`. Any other hop without a dot
/// is taken for a bare IPv6 address and kept whole. A hop with a dot is an
/// IPv4 address, cut at its first colon if it has one.
pub open spec fn hop_address(hop: Seq<char>) -> Seq<char> {
    match before_pair(hop, ']', ':') {
        Some(inner) => without(inner, '['),
        None => if hop.contains('.') {
            before(hop, ':')
        } else {
            hop
        },
    }
}

/// The client that a forwarding header value names: the address of its first
/// hop, free of brackets.
pub open spec fn forwarded_client(value: Seq<char>) -> Seq<char> {
    without(without(hop_address(first_hop(value)), '['), ']')
}

/// Text that holds no bracket.
pub open spec fn is_unbracketed(s: Seq<char>) -> bool {
    !s.contains('[') && !s.contains(']')
}

/// Reads the originating client out of a forwarding header value.
///
/// Only the first hop counts. Its port, if any, and its brackets are dropped;
/// nothing else is trimmed or checked.
pub fn parse_forwarded_for(value: &str) -> (r: String)
    ensures
        r@ == forwarded_client(value@),
{
    let hop = take_before(value, ',');
    let address = match take_before_pair(hop.as_str(), ']', ':') {
        Some(inner) => strip_char(inner.as_str(), '['),
        None => if has_char(hop.as_str(), '.') {
            take_before(hop.as_str(), ':')
        } else {
            hop
        },
    };
    let opened = strip_char(address.as_str(), '[');
    strip_char(opened.as_str(), ']')
}

/// The client read out of a value holds no bracket.
pub proof fn lemma_client_is_unbracketed(value: Seq<char>)
    ensures
        is_unbracketed(forwarded_client(value)),
{
    let address = hop_address(first_hop(value));
    let opened = without(address, '[');
    assert(!opened.contains('[')) by {
        lemma_without_holds(address, '[', '[');
    }
    assert(!without(opened, ']').contains('[')) by {
        lemma_without_holds(opened, ']', '[');
    }
    assert(!without(opened, ']').contains(']')) by {
        lemma_without_holds(opened, ']', ']');
    }
}

/// Only the first hop of a value counts: what follows its first comma changes
/// nothing.
pub proof fn lemma_first_hop_wins(hop: Seq<char>, rest: Seq<char>)
    requires
        !hop.contains(','),
    ensures
        forwarded_client(hop + seq![','] + rest) == forwarded_client(hop),
{
    lemma_before_cut(hop, ',', rest);
    lemma_before_absent(hop, ',');
}

/// A single hop with `]:` in it is read as what stands in front of `]:`,
/// less its brackets.
pub proof fn lemma_hop_with_bracketed_port(hop: Seq<char>, inner: Seq<char>)
    requires
        !hop.contains(','),
        before_pair(hop, ']', ':') == Some(inner),
    ensures
        forwarded_client(hop) == without(without(without(inner, '['), '['), ']'),
{
    lemma_before_absent(hop, ',');
}

/// A single hop without `]:` and without a dot is read whole, less its
/// brackets.
pub proof fn lemma_hop_without_dot(hop: Seq<char>)
    requires
        !hop.contains(','),
        before_pair(hop, ']', ':') is None,
        !hop.contains('.'),
    ensures
        forwarded_client(hop) == without(without(hop, '['), ']'),
{
    lemma_before_absent(hop, ',');
}

/// A single hop without `]:` and with a dot is read up to its first colon,
/// less its brackets.
pub proof fn lemma_hop_with_dot(hop: Seq<char>)
    requires
        !hop.contains(','),
        before_pair(hop, ']', ':') is None,
        hop.contains('.'),
    ensures
        forwarded_client(hop) == without(without(before(hop, ':'), '['), ']'),
{
    lemma_before_absent(hop, ',');
}

/// Text without `]` has no `]:` in it.
proof fn lemma_no_pair_without_bracket(s: Seq<char>)
    requires
        !s.contains(']'),
    ensures
        before_pair(s, ']', ':') is None,
{
    assert forall|j: int| !pair_at(s, j, ']', ':') by {
        if pair_at(s, j, ']', ':') {
            assert(s.contains(s[j]));
        }
    }
    lemma_before_pair_missing(s, ']', ':');
}

/// Taking the brackets out of text that has none changes nothing.
proof fn lemma_unbracketed_is_kept(s: Seq<char>)
    requires
        is_unbracketed(s),
    ensures
        without(without(s, '['), ']') == s,
{
    lemma_without_absent(s, '[');
    lemma_without_absent(s, ']');
}

/// An address without brackets, and with no colon if it has a dot, is the
/// client as it stands: an IPv4 address without a port, or a bare IPv6
/// address.
pub proof fn lemma_bare_address_is_kept(address: Seq<char>)
    requires
        !address.contains(','),
        is_unbracketed(address),
        !address.contains('.') || !address.contains(':'),
    ensures
        forwarded_client(address) == address,
{
    lemma_no_pair_without_bracket(address);
    lemma_unbracketed_is_kept(address);
    if address.contains('.') {
        lemma_hop_with_dot(address);
        lemma_before_absent(address, ':');
    } else {
        lemma_hop_without_dot(address);
    }
}

/// The port behind an IPv4 address is dropped: of `address:port`, where
/// `address` has a dot and neither colon nor bracket, `address` is left.
pub proof fn lemma_ipv4_port_is_dropped(address: Seq<char>, port: Seq<char>)
    requires
        address.contains('.'),
        !address.contains(':'),
        !address.contains(','),
        is_unbracketed(address),
        !port.contains(','),
        !port.contains(']'),
    ensures
        forwarded_client(address + seq![':'] + port) == address,
{
    let hop = address + seq![':'] + port;
    assert(!hop.contains(',')) by {
        lemma_joined_holds(address, seq![':'], ',');
        lemma_joined_holds(address + seq![':'], port, ',');
    }
    assert(hop.contains('.')) by {
        lemma_joined_holds(address, seq![':'], '.');
        lemma_joined_holds(address + seq![':'], port, '.');
    }
    assert(before_pair(hop, ']', ':') is None) by {
        lemma_joined_holds(address, seq![':'], ']');
        lemma_joined_holds(address + seq![':'], port, ']');
        lemma_no_pair_without_bracket(hop);
    }
    assert(before(hop, ':') == address) by {
        lemma_before_cut(address, ':', port);
    }
    lemma_unbracketed_is_kept(address);
    lemma_hop_with_dot(hop);
}

/// The brackets and the port of an IPv6 address are dropped: of
/// `[address]:port`, where `address` holds no bracket, `address` is left.
pub proof fn lemma_bracketed_port_is_dropped(address: Seq<char>, port: Seq<char>)
    requires
        !address.contains(','),
        is_unbracketed(address),
        !port.contains(','),
    ensures
        forwarded_client(seq!['['] + address + seq![']', ':'] + port) == address,
{
    let front = seq!['['] + address;
    let hop = front + seq![']', ':'] + port;
    assert(!hop.contains(',')) by {
        lemma_joined_holds(seq!['['], address, ',');
        lemma_joined_holds(front, seq![']', ':'], ',');
        lemma_joined_holds(front + seq![']', ':'], port, ',');
    }
    assert(before_pair(hop, ']', ':') == Some(front)) by {
        lemma_joined_holds(seq!['['], address, ']');
        lemma_before_pair_cut(front, ']', ':', port);
    }
    assert(without(front, '[') == address) by {
        lemma_without_joined(seq!['['], address, '[');
        lemma_without_one('[', '[');
        lemma_without_absent(address, '[');
        assert(without(front, '[') =~= address);
    }
    lemma_unbracketed_is_kept(address);
    lemma_hop_with_bracketed_port(hop, front);
}

/// The brackets round an IPv6 address are dropped: of `[address]`, where
/// `address` holds neither bracket nor dot, `address` is left.
pub proof fn lemma_brackets_are_dropped(address: Seq<char>)
    requires
        !address.contains(','),
        !address.contains('.'),
        is_unbracketed(address),
    ensures
        forwarded_client(seq!['['] + address + seq![']']) == address,
{
    let front = seq!['['] + address;
    let hop = front + seq![']'];
    assert(!hop.contains(',')) by {
        lemma_joined_holds(seq!['['], address, ',');
        lemma_joined_holds(front, seq![']'], ',');
    }
    assert(!hop.contains('.')) by {
        lemma_joined_holds(seq!['['], address, '.');
        lemma_joined_holds(front, seq![']'], '.');
    }
    assert(before_pair(hop, ']', ':') is None) by {
        lemma_joined_holds(seq!['['], address, ']');
        assert forall|j: int| !pair_at(hop, j, ']', ':') by {
            if pair_at(hop, j, ']', ':') {
                assert(hop[j] == front[j]);
                assert(front.contains(']'));
            }
        }
        lemma_before_pair_missing(hop, ']', ':');
    }
    assert(without(hop, '[') == address + seq![']']) by {
        lemma_without_joined(front, seq![']'], '[');
        lemma_without_joined(seq!['['], address, '[');
        lemma_without_one('[', '[');
        lemma_without_one(']', '[');
        lemma_without_absent(address, '[');
        assert(without(hop, '[') =~= address + seq![']']);
    }
    assert(without(address + seq![']'], ']') == address) by {
        lemma_without_joined(address, seq![']'], ']');
        lemma_without_one(']', ']');
        lemma_without_absent(address, ']');
        assert(without(address + seq![']'], ']') =~= address);
    }
    lemma_hop_without_dot(hop);
}

} // verus!
