//! Which hosts URLs name, and which of them are private.

use crate::text::{
    before, decimal_text, has_prefix, lemma_first_place_behind, number_in,
};
use crate::text_laws::{
    law_a_number_is_written_in_digits, law_a_prefix_is_what_a_text_begins_with,
    law_a_written_number_is_read_back,
};
use crate::url::{host_of, is_private_host};
use vstd::prelude::*;

verus! {

proof fn lemma_before_separator(head: Seq<char>, c: char, tail: Seq<char>)
    requires
        !head.contains(c),
    ensures
        before(head + seq![c] + tail, c) == head,
        before(head, c) == head,
{
    lemma_first_place_behind(head, c, tail);
    assert((head + seq![c] + tail).take(head.len() as int) =~= head);
    assert(head.take(head.len() as int) =~= head);
}

proof fn lemma_no_scheme(host: Seq<char>, rest: Seq<char>)
    requires
        !host.contains('/'),
        !host.contains(':'),
        rest.len() == 0 || rest[0] == '/',
    ensures
        !has_prefix(host + rest, "https://"@),
        !has_prefix(host + rest, "http://"@),
{
    reveal_strlit("https://");
    reveal_strlit("http://");
    let url = host + rest;
    if has_prefix(url, "https://"@) {
        assert(url.take(8)[5] == ':');
        assert(url[5] == ':');
        if host.len() > 5 {
            assert(host[5] == ':');
        } else if host.len() < 5 {
            assert(url[host.len() as int] == rest[0]);
            assert(url.take(8)[host.len() as int] == '/');
        } else {
            assert(url[5] == rest[0]);
        }
    }
    if has_prefix(url, "http://"@) {
        assert(url.take(7)[4] == ':');
        assert(url[4] == ':');
        if host.len() > 4 {
            assert(host[4] == ':');
        } else if host.len() < 4 {
            assert(url[host.len() as int] == rest[0]);
            assert(url.take(7)[host.len() as int] == '/');
        } else {
            assert(url[4] == rest[0]);
        }
    }
}

/// The host is what a URL names whether it begins with `https://`, with `http://` or
/// with no scheme at all, with a path behind it or without one.
pub proof fn law_a_host_is_the_same_under_each_scheme(host: Seq<char>, path: Seq<char>)
    requires
        !host.contains('/'),
        !host.contains(':'),
    ensures
        host_of(host) == host,
        host_of(host + seq!['/'] + path) == host,
        host_of("http://"@ + host) == host,
        host_of("http://"@ + (host + seq!['/'] + path)) == host,
        host_of("https://"@ + host) == host,
        host_of("https://"@ + (host + seq!['/'] + path)) == host,
{
    let long = host + seq!['/'] + path;
    lemma_before_separator(host, '/', path);
    lemma_before_separator(host, ':', path);
    lemma_no_scheme(host, seq![]);
    assert(host + seq![] =~= host);
    lemma_no_scheme(host, seq!['/'] + path);
    assert(host + (seq!['/'] + path) =~= long);
    law_a_prefix_is_what_a_text_begins_with("https://"@ + host, "https://"@, host);
    law_a_prefix_is_what_a_text_begins_with("https://"@ + long, "https://"@, long);
    law_a_prefix_is_what_a_text_begins_with("http://"@ + host, "http://"@, host);
    law_a_prefix_is_what_a_text_begins_with("http://"@ + long, "http://"@, long);
    lemma_http_is_not_https(host);
    lemma_http_is_not_https(long);
}

proof fn lemma_http_is_not_https(rest: Seq<char>)
    ensures
        !has_prefix("http://"@ + rest, "https://"@),
{
    reveal_strlit("https://");
    reveal_strlit("http://");
    let url = "http://"@ + rest;
    if has_prefix(url, "https://"@) {
        assert(url.take(8)[4] == 's');
        assert(url[4] == ':');
    }
}

/// A port is no part of a host.
pub proof fn law_a_port_is_no_part_of_a_host(host: Seq<char>, port: Seq<char>, path: Seq<char>)
    requires
        !host.contains('/'),
        !host.contains(':'),
        !port.contains('/'),
    ensures
        host_of("http://"@ + (host + seq![':'] + port)) == host,
        host_of("http://"@ + (host + seq![':'] + port + seq!['/'] + path)) == host,
        host_of("https://"@ + (host + seq![':'] + port)) == host,
        host_of("https://"@ + (host + seq![':'] + port + seq!['/'] + path)) == host,
{
    let authority = host + seq![':'] + port;
    let long = authority + seq!['/'] + path;
    assert(!authority.contains('/')) by {
        if authority.contains('/') {
            let i = choose|i: int| 0 <= i < authority.len() && authority[i] == '/';
            if i < host.len() {
                assert(host[i] == '/');
            } else if i > host.len() {
                assert(port[i - host.len() - 1] == '/');
            }
        }
    }
    lemma_before_separator(authority, '/', path);
    lemma_before_separator(host, ':', port);
    law_a_prefix_is_what_a_text_begins_with("https://"@ + authority, "https://"@, authority);
    law_a_prefix_is_what_a_text_begins_with("https://"@ + long, "https://"@, long);
    law_a_prefix_is_what_a_text_begins_with("http://"@ + authority, "http://"@, authority);
    law_a_prefix_is_what_a_text_begins_with("http://"@ + long, "http://"@, long);
    lemma_http_is_not_https(authority);
    lemma_http_is_not_https(long);
}

/// The names of this machine are private, and so are all the hosts that begin with
/// `10.` or `192.168.`.
pub proof fn law_this_machine_and_its_networks_are_private(rest: Seq<char>)
    ensures
        is_private_host("localhost"@),
        is_private_host("127.0.0.1"@),
        is_private_host("0.0.0.0"@),
        is_private_host("::1"@),
        is_private_host("[::1]"@),
        is_private_host("10."@ + rest),
        is_private_host("192.168."@ + rest),
{
    law_a_prefix_is_what_a_text_begins_with("10."@ + rest, "10."@, rest);
    law_a_prefix_is_what_a_text_begins_with("192.168."@ + rest, "192.168."@, rest);
}

proof fn lemma_172(label: Seq<char>, tail: Seq<char>)
    requires
        !label.contains('.'),
        tail.len() == 0 || tail[0] == '.',
    ensures
        is_private_host("172."@ + (label + tail)) <==> (number_in(label, 255) matches Some(n) && 16
            <= n <= 31),
{
    reveal_strlit("172.");
    reveal_strlit("localhost");
    reveal_strlit("127.0.0.1");
    reveal_strlit("0.0.0.0");
    reveal_strlit("::1");
    reveal_strlit("[::1]");
    reveal_strlit("10.");
    reveal_strlit("192.168.");
    let rest = label + tail;
    let host = "172."@ + rest;
    law_a_prefix_is_what_a_text_begins_with(host, "172."@, rest);
    assert(host[0] == '1' && host[1] == '7' && host[2] == '2' && host[3] == '.');
    assert("localhost"@[0] != '1');
    assert("127.0.0.1"@[1] != '7');
    assert("0.0.0.0"@[0] != '1');
    assert("::1"@[0] != '1');
    assert("[::1]"@[0] != '1');
    if has_prefix(host, "10."@) {
        assert(host.take(3)[1] == '0');
    }
    if has_prefix(host, "192.168."@) {
        assert(host.take(8)[1] == '9');
    }
    let first = seq!['1', '7', '2'];
    assert(!first.contains('.')) by {
        if first.contains('.') {
            let i = choose|i: int| 0 <= i < first.len() && first[i] == '.';
            assert(false);
        }
    }
    lemma_first_place_behind(first, '.', rest);
    assert(first + seq!['.'] + rest =~= host);
    assert(host.skip(4) =~= rest);
    if tail.len() == 0 {
        lemma_before_separator(label, '.', seq![]);
        assert(rest =~= label);
    } else {
        lemma_before_separator(label, '.', tail.skip(1));
        assert(rest =~= label + seq!['.'] + tail.skip(1));
    }
}

/// Of the hosts that begin with `172.` exactly those whose second label is a number
/// from 16 to 31 are private.
pub proof fn law_172_is_private_from_16_to_31(n: nat, label: Seq<char>, rest: Seq<char>)
    requires
        !label.contains('.'),
    ensures
        is_private_host("172."@ + (decimal_text(n) + (seq!['.'] + rest))) <==> 16 <= n <= 31,
        is_private_host("172."@ + decimal_text(n)) <==> 16 <= n <= 31,
        number_in(label, 255) is None ==> !is_private_host("172."@ + (label + (seq!['.'] + rest))),
{
    let d = decimal_text(n);
    assert(!d.contains('.')) by {
        if d.contains('.') {
            let i = choose|i: int| 0 <= i < d.len() && d[i] == '.';
            law_a_number_is_written_in_digits(n, i);
            let digits = seq!['0', '1', '2', '3', '4', '5', '6', '7', '8', '9'];
            let k = choose|k: int| 0 <= k < digits.len() && digits[k] == '.';
            assert(false);
        }
    }
    law_a_written_number_is_read_back(n, 255);
    lemma_172(d, seq!['.'] + rest);
    lemma_172(d, seq![]);
    assert(d + seq![] =~= d);
    lemma_172(label, seq!['.'] + rest);
}

/// Every other host is public.
pub proof fn law_other_hosts_are_public(host: Seq<char>)
    requires
        host != "localhost"@,
        host != "127.0.0.1"@,
        host != "0.0.0.0"@,
        host != "::1"@,
        host != "[::1]"@,
        !has_prefix(host, "10."@),
        !has_prefix(host, "192.168."@),
        !has_prefix(host, "172."@),
    ensures
        !is_private_host(host),
{
}

} // verus!
