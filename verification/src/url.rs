//! The host that a URL names, and whether it is one that nodes must not call.

use crate::text::{
    before, chars_of, find_char, first_place, has_prefix, is_text, lemma_before,
    lemma_first_place_behind, lowercased, number_in, parse_number, starts_with, string_of, strip,
    to_lowercase,
};
use vstd::prelude::*;
use vstd::slice::slice_subrange;

verus! {

/// A URL without its scheme, where that is `https` or `http`.
pub open spec fn without_scheme(url: Seq<char>) -> Seq<char> {
    if has_prefix(url, "https://"@) {
        url.skip("https://"@.len() as int)
    } else if has_prefix(url, "http://"@) {
        url.skip("http://"@.len() as int)
    } else {
        url
    }
}

/// The host that a URL names: what stands behind its scheme up to the first slash
/// and the first colon.
pub open spec fn host_of(url: Seq<char>) -> Seq<char> {
    before(before(without_scheme(url), '/'), ':')
}

/// What stands between the first dot of a text and the next.
pub open spec fn second_label(s: Seq<char>) -> Option<Seq<char>> {
    let dot = first_place(s, '.');
    if dot < s.len() {
        Some(before(s.skip(dot + 1), '.'))
    } else {
        None
    }
}

/// Whether a host is this machine or lies in a private network.
pub open spec fn is_private_host(host: Seq<char>) -> bool {
    ||| host == "localhost"@
    ||| host == "127.0.0.1"@
    ||| host == "0.0.0.0"@
    ||| host == "::1"@
    ||| host == "[::1]"@
    ||| has_prefix(host, "10."@)
    ||| has_prefix(host, "192.168."@)
    ||| has_prefix(host, "172."@) && (second_label(host) matches Some(label) && (number_in(
        label,
        255,
    ) matches Some(n) && 16 <= n <= 31))
}

fn skip_scheme<'a>(url: &'a [char]) -> (r: &'a [char])
    ensures
        r@ == without_scheme(url@),
{
    if starts_with(url, "https://") {
        strip(url, "https://")
    } else {
        strip(url, "http://")
    }
}

fn take_before<'a>(s: &'a [char], c: char) -> (r: &'a [char])
    ensures
        r@ == before(s@, c),
{
    let at = find_char(s, c);
    let head = slice_subrange(s, 0, at);
    assert(head@ =~= s@.take(at as int));
    head
}

fn host_chars<'a>(url: &'a [char]) -> (r: &'a [char])
    ensures
        r@ == host_of(url@),
{
    take_before(take_before(skip_scheme(url), '/'), ':')
}

/// The host that a URL names.
pub fn extract_host(url: &str) -> (r: String)
    ensures
        r@ == host_of(url@),
{
    let chars = chars_of(url);
    string_of(host_chars(chars.as_slice()))
}

/// Whether a URL in lower case names this machine or a host in a private network.
pub fn names_private_host(lower: &str) -> (r: bool)
    ensures
        r == is_private_host(host_of(lower@)),
{
    let chars = chars_of(lower);
    let host = host_chars(chars.as_slice());
    if is_text(host, "localhost") || is_text(host, "127.0.0.1") || is_text(host, "0.0.0.0")
        || is_text(host, "::1") || is_text(host, "[::1]") {
        return true;
    }
    if starts_with(host, "10.") || starts_with(host, "192.168.") {
        return true;
    }
    if !starts_with(host, "172.") {
        return false;
    }
    let dot = find_char(host, '.');
    if dot == host.len() {
        return false;
    }
    let rest = slice_subrange(host, dot + 1, host.len());
    assert(rest@ =~= host@.skip(dot + 1));
    match parse_number(take_before(rest, '.'), 255) {
        Some(n) => 16 <= n && n <= 31,
        None => false,
    }
}

/// Whether a URL names this machine or a host in a private network.
pub fn is_private_url(url: &str) -> (r: bool)
    ensures
        r == is_private_host(host_of(lowercased(url@))),
{
    let lower = to_lowercase(url);
    names_private_host(lower.as_str())
}

/// A host holds neither a slash nor a colon: no path and no port is part of it.
pub proof fn law_a_host_has_no_path_and_no_port(url: Seq<char>)
    ensures
        !host_of(url).contains('/'),
        !host_of(url).contains(':'),
{
    let s = before(without_scheme(url), '/');
    lemma_before(without_scheme(url), '/');
    lemma_before(s, ':');
    if host_of(url).contains('/') {
        let i = choose|i: int| 0 <= i < host_of(url).len() && host_of(url)[i] == '/';
        assert(s[i] == '/');
    }
}

proof fn lemma_before_ignores_what_follows(head: Seq<char>, c: char, tail: Seq<char>)
    requires
        !head.contains(c),
    ensures
        before(head + seq![c] + tail, c) == head,
        before(head, c) == head,
    decreases head.len(),
{
    lemma_first_place_behind(head, c, tail);
    assert((head + seq![c] + tail).take(head.len() as int) =~= head);
    assert(head.take(head.len() as int) =~= head);
}

/// A URL that is made of `https://`, a host and a path names that host, with a port
/// or without one.
pub proof fn law_a_url_names_the_host_it_is_made_of(
    host: Seq<char>,
    port: Seq<char>,
    path: Seq<char>,
)
    requires
        !host.contains('/'),
        !host.contains(':'),
        !port.contains('/'),
    ensures
        host_of("https://"@ + host) == host,
        host_of("https://"@ + (host + seq!['/'] + path)) == host,
        host_of("https://"@ + (host + seq![':'] + port + seq!['/'] + path)) == host,
{
    let s = "https://"@;
    assert((s + host).take(s.len() as int) =~= s);
    assert((s + host).skip(s.len() as int) =~= host);
    lemma_before_ignores_what_follows(host, '/', path);
    lemma_before_ignores_what_follows(host, ':', port);
    let a = host + seq!['/'] + path;
    assert((s + a).take(s.len() as int) =~= s);
    assert((s + a).skip(s.len() as int) =~= a);
    let authority = host + seq![':'] + port;
    assert forall|x: char| authority.contains(x) implies x != '/' by {
        let i = choose|i: int| 0 <= i < authority.len() && authority[i] == x;
        if i < host.len() {
            assert(host[i] == x);
        } else if i > host.len() {
            assert(port[i - host.len() - 1] == x);
        }
    }
    lemma_before_ignores_what_follows(authority, '/', path);
    let b = authority + seq!['/'] + path;
    assert((s + b).take(s.len() as int) =~= s);
    assert((s + b).skip(s.len() as int) =~= b);
}

} // verus!
