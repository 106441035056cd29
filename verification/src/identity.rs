//! Who is asking: the caller's address, taken from the connection or, when
//! the service runs behind a trusted proxy, from the headers the proxy sets.
use vstd::prelude::*;
use vstd::string::*;

use crate::text::{
    chars_of, find_first, first_index_of, non_empty, non_empty_spec, opt_str_view, opt_view,
    string_of_range, trim_bounds, trimmed,
};

verus! {

/// The headers that a proxy may set, each as sent or `None` when it is
/// absent or not text.
#[derive(Debug)]
pub struct ProxyHeaders {
    /// `x-forwarded-for`
    pub forwarded_for: Option<String>,
    /// `cf-connecting-ip`
    pub cf_connecting_ip: Option<String>,
    /// `x-real-ip`
    pub real_ip: Option<String>,
}

/// The value of a header, trimmed, if it holds more than whitespace.
pub open spec fn header_value(raw: Option<Seq<char>>) -> Option<Seq<char>> {
    match raw {
        Some(text) => non_empty_spec(text),
        None => None,
    }
}

/// The first address of a forwarding chain: what stands before the first
/// comma, trimmed, if it holds more than whitespace.
pub open spec fn first_forwarded(chain: Seq<char>) -> Option<Seq<char>> {
    non_empty_spec(chain.take(first_index_of(chain, ',')))
}

/// The caller's address according to the proxy headers: the first address
/// of `x-forwarded-for`, else `cf-connecting-ip`, else `x-real-ip`.
pub open spec fn forwarded_client_ip(headers: ProxyHeaders) -> Option<Seq<char>> {
    let first = match header_value(opt_view(headers.forwarded_for)) {
        Some(chain) => first_forwarded(chain),
        None => None,
    };
    if first is Some {
        first
    } else if header_value(opt_view(headers.cf_connecting_ip)) is Some {
        header_value(opt_view(headers.cf_connecting_ip))
    } else {
        header_value(opt_view(headers.real_ip))
    }
}

fn header_text(raw: &Option<String>) -> (value: Option<&str>)
    ensures
        opt_str_view(value) == header_value(opt_view(*raw)),
{
    match raw {
        Some(text) => non_empty(text.as_str()),
        None => None,
    }
}

fn first_of_chain(chain: &str) -> (first: Option<String>)
    ensures
        opt_view(first) == first_forwarded(chain@),
{
    let chars = chars_of(chain);
    let comma = find_first(&chars, ',');
    let mut head: Vec<char> = Vec::new();
    let mut i: usize = 0;
    while i < comma
        invariant
            i <= comma <= chars.len(),
            head@ == chars@.take(i as int),
        decreases comma - i,
    {
        head.push(chars[i]);
        i += 1;
        assert(head@ =~= chars@.take(i as int));
    }
    let (start, end) = trim_bounds(&head);
    if start == end {
        None
    } else {
        Some(string_of_range(&head, start, end))
    }
}

pub fn extract_client_ip(headers: &ProxyHeaders) -> (ip: Option<String>)
    ensures
        opt_view(ip) == forwarded_client_ip(*headers),
{
    match header_text(&headers.forwarded_for) {
        Some(chain) => {
            let first = first_of_chain(chain);
            if first.is_some() {
                return first;
            }
        },
        None => {},
    }
    match header_text(&headers.cf_connecting_ip) {
        Some(ip) => Some(ip.to_owned()),
        None => match header_text(&headers.real_ip) {
            Some(ip) => Some(ip.to_owned()),
            None => None,
        },
    }
}

/// The identity of the caller: the address of the connection, unless proxy
/// headers are trusted and name another.
pub fn client_ip_for_request(
    trust_proxy_headers: bool,
    headers: &ProxyHeaders,
    socket_ip: &str,
) -> (ip: String)
    ensures
        ip@ == if trust_proxy_headers && forwarded_client_ip(*headers) is Some {
            forwarded_client_ip(*headers)->0
        } else {
            socket_ip@
        },
{
    if trust_proxy_headers {
        match extract_client_ip(headers) {
            Some(ip) => ip,
            None => socket_ip.to_owned(),
        }
    } else {
        socket_ip.to_owned()
    }
}

} // verus!
