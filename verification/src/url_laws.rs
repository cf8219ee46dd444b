//! What holds of every URL.
use vstd::prelude::*;
use vstd::utf8::*;

use crate::item_type::{type_of, Type};
use crate::text::{lemma_span, lemma_span_unique, occurs, span, trimmed};
use crate::url::{
    authority_of, bracket_body, bracket_cut, bracket_inner, bracket_lead, code_position, has_port,
    has_type_prefix, host_of, is_foreign, is_simple, is_telnet, parseable, parsed, path_of,
    port_of, type_for, unclosed_bracket, without_protocol, UrlView,
};

verus! {

/// Whether a text can stand for a host or a port: it has no colon, slash or
/// opening bracket.
pub open spec fn is_name(s: Seq<char>) -> bool {
    !s.contains(':') && !s.contains('/') && !s.contains('[')
}

/// Whether a text can follow an authority: it is empty or starts with a slash.
pub open spec fn is_path(s: Seq<char>) -> bool {
    s.len() > 0 ==> s[0] == '/'
}

/// The literal texts of the URL grammar, character by character.
pub proof fn lemma_literals()
    ensures
        "gopher://"@ =~= seq!['g', 'o', 'p', 'h', 'e', 'r', ':', '/', '/'],
        "telnet://"@ =~= seq!['t', 'e', 'l', 'n', 'e', 't', ':', '/', '/'],
        "://"@ =~= seq![':', '/', '/'],
        "URL:"@ =~= seq!['U', 'R', 'L', ':'],
        "/URL:"@ =~= seq!['/', 'U', 'R', 'L', ':'],
        "70"@ =~= seq!['7', '0'],
{
    reveal_strlit("gopher://");
    reveal_strlit("telnet://");
    reveal_strlit("://");
    reveal_strlit("URL:");
    reveal_strlit("/URL:");
    reveal_strlit("70");
}

/// A URL without `://` starts with no protocol.
pub proof fn lemma_no_protocol(s: Seq<char>)
    requires
        !occurs("://"@, s),
    ensures
        !"gopher://"@.is_prefix_of(s),
        !"telnet://"@.is_prefix_of(s),
        without_protocol(s) == s,
        !is_telnet(s),
        !is_foreign(s),
{
    lemma_literals();
    if s.len() >= 9 && (("gopher://"@).is_prefix_of(s) || ("telnet://"@).is_prefix_of(s)) {
        assert(s[6] == s.subrange(0, 9)[6]);
        assert(s[7] == s.subrange(0, 9)[7]);
        assert(s[8] == s.subrange(0, 9)[8]);
        assert(s.skip(6).subrange(0, 3) =~= "://"@);
        assert("://"@.is_prefix_of(s.skip(6)));
    }
}

/// `://` occurs where a colon and two slashes follow each other, and only there.
pub proof fn lemma_occurs(s: Seq<char>)
    ensures
        occurs("://"@, s) <==> exists|i: int|
            0 <= i && i + 2 < s.len() && #[trigger] s[i] == ':' && s[i + 1] == '/' && s[i + 2]
                == '/',
{
    lemma_literals();
    if occurs("://"@, s) {
        let i = choose|i: int| 0 <= i <= s.len() && "://"@.is_prefix_of(#[trigger] s.skip(i));
        let p = s.skip(i).subrange(0, 3);
        assert(p[0] == s[i] && p[1] == s[i + 1] && p[2] == s[i + 2]);
        assert(s[i] == ':');
    }
    if exists|i: int|
        0 <= i && i + 2 < s.len() && #[trigger] s[i] == ':' && s[i + 1] == '/' && s[i + 2]
            == '/' {
        let i = choose|i: int|
            0 <= i && i + 2 < s.len() && #[trigger] s[i] == ':' && s[i + 1] == '/' && s[i + 2]
                == '/';
        assert(s.skip(i).subrange(0, 3) =~= "://"@);
        assert("://"@.is_prefix_of(s.skip(i)));
    }
}

/// A leading copy of a prefix makes no difference to what trimming leaves.
pub proof fn lemma_trimmed_again(prefix: Seq<char>, s: Seq<char>)
    requires
        prefix.len() > 0,
    ensures
        trimmed(prefix + s, prefix) == trimmed(s, prefix),
{
    assert((prefix + s).subrange(0, prefix.len() as int) =~= prefix);
    assert((prefix + s).skip(prefix.len() as int) =~= s);
}

/// The Gopher protocol may be left out: a URL has the same parts with and
/// without it.
pub proof fn law_gopher_protocol_is_optional(url: Seq<char>)
    ensures
        parsed("gopher://"@ + url) == parsed(url),
        parseable("gopher://"@ + url) == parseable(url),
{
    lemma_literals();
    lemma_trimmed_again("gopher://"@, url);
}

/// The Gopher protocol makes no difference to the type of a URL that starts with
/// none of the prefixes by which a type is known at once.
pub proof fn law_gopher_protocol_keeps_type(url: Seq<char>)
    requires
        !"telnet://"@.is_prefix_of(url),
        !"URL:"@.is_prefix_of(url),
        !"/URL:"@.is_prefix_of(url),
    ensures
        type_for("gopher://"@ + url) == type_for(url),
{
    lemma_literals();
    lemma_trimmed_again("gopher://"@, url);
    let u = "gopher://"@ + url;
    assert(u[0] == 'g');
    if "telnet://"@.is_prefix_of(u) {
        assert(u.subrange(0, 9)[0] == 'g');
    }
    if "URL:"@.is_prefix_of(u) {
        assert(u.subrange(0, 4)[0] == 'g');
    }
    if "/URL:"@.is_prefix_of(u) {
        assert(u.subrange(0, 5)[0] == 'g');
    }
}

/// An authority and a path are told apart at the first slash.
pub proof fn lemma_authority_and_path(h: Seq<char>, path: Seq<char>)
    requires
        !h.contains('/'),
        is_path(path),
    ensures
        authority_of(h + path) == h,
        path_of(h + path) == path,
{
    let u = h + path;
    assert forall|i: int| 0 <= i < h.len() implies u[i] != '/' by {
        assert(h.contains(h[i]));
    }
    lemma_span_unique(u, '/', h.len() as int);
    assert(u.take(h.len() as int) =~= h);
    assert(u.skip(h.len() as int) =~= path);
}

/// Host and port of an authority are told apart at its colon.
pub proof fn lemma_host_and_port(host: Seq<char>, port: Seq<char>)
    requires
        is_name(host),
        is_name(port),
        port.len() > 0,
    ensures
        ({
            let h = host + seq![':'] + port;
            &&& !h.contains('/')
            &&& !h.contains('[')
            &&& host_of(h) == host
            &&& port_of(h) == port
        }),
{
    let h = host + seq![':'] + port;
    assert forall|i: int| 0 <= i < h.len() implies h[i] != '/' && h[i] != '[' && (i < host.len()
        ==> h[i] != ':') by {
        if i < host.len() {
            assert(host.contains(h[i]));
        } else if i > host.len() {
            assert(port.contains(h[i]));
        }
    }
    assert(h[host.len() as int] == ':');
    lemma_span_unique(h, ':', host.len() as int);
    assert(h.take(host.len() as int) =~= host);
    assert(h.skip((host.len() + 1) as int) =~= port);
}

/// What a URL is written from is what it is parsed into: type, host, port and
/// selector of `gopher://host:port/Tselector` come back, where `T` is the code of
/// the type and the selector holds no protocol.
pub proof fn law_parts_come_back(
    host: Seq<char>,
    port: Seq<char>,
    code: char,
    sel: Seq<char>,
)
    requires
        is_name(host),
        is_name(port),
        port.len() > 0,
        type_of(code) is Some,
        !occurs("://"@, sel),
    ensures
        ({
            let url = "gopher://"@ + (host + seq![':'] + port + seq!['/', code] + sel);
            &&& parseable(url)
            &&& parsed(url) == UrlView { typ: type_of(code)->0, host, port, sel }
        }),
{
    let h = host + seq![':'] + port;
    let path = seq!['/', code] + sel;
    let u = host + seq![':'] + port + seq!['/', code] + sel;
    assert(u =~= h + path);
    law_gopher_protocol_is_optional(u);
    lemma_host_and_port(host, port);
    lemma_authority_and_path(h, path);
    lemma_occurs(u);
    lemma_occurs(sel);
    assert forall|i: int|
        0 <= i && i + 2 < u.len() && #[trigger] u[i] == ':' && u[i + 1] == '/' implies u[i + 2]
        != '/' by {
        let at = h.len() + 2;
        if i >= at {
            assert(sel[i - at] == u[i] && sel[i - at + 1] == u[i + 1]);
        } else if i < host.len() {
            assert(host.contains(u[i]));
        } else if i == host.len() {
            assert(port.contains(u[i + 1]));
        } else if i < h.len() {
            assert(port.contains(u[i]));
        }
    }
    lemma_no_protocol(u);
    assert(u[host.len() as int] == ':');
    assert(path.skip(2) =~= sel);
}

/// A URL that names no port has the port 70: type, host and selector of
/// `gopher://host/Tselector` come back, and the port is 70.
pub proof fn law_port_defaults(host: Seq<char>, code: char, sel: Seq<char>)
    requires
        is_name(host),
        type_of(code) is Some,
        !occurs("://"@, sel),
    ensures
        ({
            let url = "gopher://"@ + (host + seq!['/', code] + sel);
            &&& parseable(url)
            &&& parsed(url) == UrlView { typ: type_of(code)->0, host, port: "70"@, sel }
        }),
{
    let path = seq!['/', code] + sel;
    let u = host + seq!['/', code] + sel;
    assert(u =~= host + path);
    law_gopher_protocol_is_optional(u);
    lemma_authority_and_path(host, path);
    lemma_occurs(u);
    lemma_occurs(sel);
    assert forall|i: int|
        0 <= i && i + 2 < u.len() && #[trigger] u[i] == ':' && u[i + 1] == '/' implies u[i + 2]
        != '/' by {
        let at = host.len() + 2;
        if i >= at {
            assert(sel[i - at] == u[i] && sel[i - at + 1] == u[i + 1]);
        } else if i < host.len() {
            assert(host.contains(u[i]));
        }
    }
    lemma_no_protocol(u);
    assert(u[host.len() as int] == '/');
    assert(path.skip(2) =~= sel);
}

/// Host, port and path of `telnet://host:port/path` come back, whatever the path
/// holds: the selector of a telnet URL has no type prefix.
pub proof fn law_telnet_parts_come_back(host: Seq<char>, port: Seq<char>, path: Seq<char>)
    requires
        is_name(host),
        is_name(port),
        port.len() > 0,
        is_path(path),
    ensures
        ({
            let url = "telnet://"@ + (host + seq![':'] + port + path);
            &&& parseable(url)
            &&& parsed(url) == UrlView { typ: Type::Telnet, host, port, sel: path }
            &&& type_for(url) == Type::Telnet
        }),
{
    lemma_literals();
    let h = host + seq![':'] + port;
    let r = host + seq![':'] + port + path;
    let url = "telnet://"@ + r;
    assert(url[0] == 't' && url[6] == ':');
    if "gopher://"@.is_prefix_of(url) {
        assert(url.subrange(0, 9)[0] == 't');
    }
    assert(url.subrange(0, 9) =~= "telnet://"@);
    lemma_trimmed_again("telnet://"@, r);
    if "telnet://"@.is_prefix_of(r) {
        let p = r.subrange(0, 9);
        assert(p[6] == r[6] && p[7] == r[7]);
        if host.len() > 6 {
            assert(host.contains(r[6]));
        } else if host.len() == 6 {
            assert(port.contains(r[7]));
        } else {
            assert(p[host.len() as int] == ':');
        }
    }
    assert(trimmed(url, "telnet://"@) == r);
    assert(r =~= h + path);
    lemma_host_and_port(host, port);
    lemma_authority_and_path(h, path);
}

/// The host of a URL of which the authority starts with a bracketed IPv6 address
/// is that address, and the port is 70 whatever stands behind the bracket.
pub proof fn law_bracketed_address_is_the_host(
    address: Seq<char>,
    rest: Seq<char>,
    path: Seq<char>,
)
    requires
        address.contains(':'),
        !address.contains(']'),
        !address.contains('/'),
        !rest.contains('/'),
        is_path(path),
        !occurs("://"@, rest + path),
    ensures
        ({
            let url = "gopher://"@ + (seq!['['] + address + seq![']'] + rest + path);
            &&& parseable(url)
            &&& parsed(url).host == address
            &&& parsed(url).port == "70"@
            &&& parsed(url).typ == (if has_type_prefix(path) {
                type_of(path[1])->0
            } else {
                Type::Menu
            })
            &&& parsed(url).sel == (if has_type_prefix(path) {
                path.skip(2)
            } else {
                path
            })
        }),
{
    let h = seq!['['] + address + seq![']'] + rest;
    let u = seq!['['] + address + seq![']'] + rest + path;
    let n = address.len() as int;
    assert(u =~= h + path);
    law_gopher_protocol_is_optional(u);
    lemma_occurs(u);
    lemma_occurs(rest + path);
    assert forall|i: int|
        0 <= i && i + 2 < u.len() && #[trigger] u[i] == ':' && u[i + 1] == '/' implies u[i + 2]
        != '/' by {
        if i >= n + 2 {
            let j = i - (n + 2);
            assert((rest + path)[j] == u[i] && (rest + path)[j + 1] == u[i + 1] && (rest
                + path)[j + 2] == u[i + 2]);
        } else if i < n {
            assert(address[i] == u[i + 1]);
            assert(address.contains(u[i + 1]));
        }
    }
    lemma_no_protocol(u);
    let k = choose|k: int| 0 <= k < address.len() && address[k] == ':';
    assert(u[k + 1] == ':');
    assert forall|i: int| 0 <= i < h.len() implies h[i] != '/' by {
        if 1 <= i <= n {
            assert(address.contains(h[i]));
        } else if i > n + 1 {
            assert(rest.contains(h[i]));
        }
    }
    lemma_authority_and_path(h, path);
    assert(h[0] == '[');
    lemma_span_unique(h, '[', 0);
    let inner = bracket_inner(h);
    assert(inner =~= address + seq![']'] + rest);
    assert forall|i: int| 0 <= i < n implies inner[i] != ']' by {
        assert(address.contains(inner[i]));
    }
    assert(inner[n] == ']');
    lemma_span_unique(inner, ']', n);
    assert(bracket_body(h) =~= address);
    assert(bracket_lead(h) =~= Seq::<char>::empty());
    encode_utf8_valid_utf8(address);
    is_char_boundary_start_end_of_seq(encode_utf8(address));
    encode_utf8_decode_utf8(address);
    assert(encode_utf8(address).subrange(0, bracket_cut(h)) =~= encode_utf8(address));
}

/// A host alone is a URL: that of a menu at port 70, with an empty selector.
pub proof fn law_host_alone_is_a_menu(host: Seq<char>)
    requires
        !host.contains(':'),
        !host.contains('/'),
    ensures
        ({
            let menu = UrlView { typ: Type::Menu, host, port: "70"@, sel: Seq::empty() };
            &&& parseable(host)
            &&& parsed(host) == menu
            &&& parseable("gopher://"@ + host)
            &&& parsed("gopher://"@ + host) == menu
            &&& type_for(host) == Type::Menu
        }),
{
    lemma_literals();
    lemma_occurs(host);
    if occurs("://"@, host) {
        let i = choose|i: int|
            0 <= i && i + 2 < host.len() && #[trigger] host[i] == ':' && host[i + 1] == '/'
                && host[i + 2] == '/';
        assert(host.contains(host[i]));
    }
    lemma_no_protocol(host);
    law_gopher_protocol_is_optional(host);
    if "URL:"@.is_prefix_of(host) {
        assert(host.subrange(0, 4)[3] == host[3]);
    }
    if "/URL:"@.is_prefix_of(host) {
        assert(host.subrange(0, 5)[0] == host[0]);
    }
}

/// A URL with an opening bracket in its authority and no closing one behind it is
/// an error: no host or port is named, and all of it is the selector.
pub proof fn law_unclosed_bracket_is_an_error(
    lead: Seq<char>,
    rest: Seq<char>,
    path: Seq<char>,
)
    requires
        !lead.contains('['),
        !lead.contains('/'),
        !rest.contains(']'),
        !rest.contains('/'),
        is_path(path),
        path.len() > 0 || lead.contains(':') || rest.contains(':'),
        !occurs("://"@, lead + seq!['['] + rest + path),
    ensures
        ({
            let u = lead + seq!['['] + rest + path;
            &&& parseable("gopher://"@ + u)
            &&& parsed("gopher://"@ + u) == (UrlView {
                typ: Type::Error,
                host: "Unclosed ipv6 bracket"@,
                port: Seq::empty(),
                sel: u,
            })
        }),
{
    let h = lead + seq!['['] + rest;
    let u = lead + seq!['['] + rest + path;
    let n = lead.len() as int;
    assert(u =~= h + path);
    law_gopher_protocol_is_optional(u);
    lemma_no_protocol(u);
    assert forall|i: int| 0 <= i < h.len() implies h[i] != '/' && (i < n ==> h[i] != '[') by {
        if i < n {
            assert(lead.contains(h[i]));
        } else if i > n {
            assert(rest.contains(h[i]));
        }
    }
    lemma_authority_and_path(h, path);
    assert(h[n] == '[');
    lemma_span_unique(h, '[', n);
    assert(bracket_inner(h) =~= rest);
    if path.len() > 0 {
        assert(u[h.len() as int] == '/');
    } else if lead.contains(':') {
        let k = lead.index_of(':');
        assert(u[k] == ':');
    } else {
        let k = rest.index_of(':');
        assert(u[n + 1 + k] == ':');
    }
}

/// An authority with two colons or more and no bracket is an IPv6 address: all of
/// it is the host, and the port is 70.
pub proof fn law_bare_address_is_the_host(h: Seq<char>, path: Seq<char>, i: int, j: int)
    requires
        0 <= i < j < h.len(),
        h[i] == ':',
        h[j] == ':',
        !h.contains('/'),
        !h.contains('['),
        is_path(path),
        !occurs("://"@, h + path),
    ensures
        ({
            let url = "gopher://"@ + (h + path);
            &&& parseable(url)
            &&& parsed(url).host == h
            &&& parsed(url).port == "70"@
        }),
{
    let u = h + path;
    law_gopher_protocol_is_optional(u);
    lemma_no_protocol(u);
    lemma_authority_and_path(h, path);
    assert(u[i] == ':');
    lemma_span(h, ':');
    let after = h.skip(span(h, ':') + 1);
    assert(after[j - span(h, ':') - 1] == ':');
}

/// A URL of a protocol other than Gopher and telnet has no host and no port:
/// all of it is the selector, and its type is HTML.
pub proof fn law_foreign_url_is_all_selector(url: Seq<char>)
    requires
        is_foreign(without_protocol(url)),
    ensures
        parseable(url),
        parsed(url) == (UrlView {
            typ: Type::HTML,
            host: Seq::empty(),
            port: Seq::empty(),
            sel: without_protocol(url),
        }),
{
    let u = without_protocol(url);
    lemma_occurs(u);
    let i = choose|i: int|
        0 <= i && i + 2 < u.len() && #[trigger] u[i] == ':' && u[i + 1] == '/' && u[i + 2] == '/';
    assert(u.contains(u[i]));
}

/// The port is empty only where no host is named: in a URL of another protocol,
/// and in one with an unclosed bracket. It holds no colon and no slash.
pub proof fn law_port_is_named_or_default(url: Seq<char>)
    ensures
        parsed(url).port.len() == 0 ==> parsed(url).typ == Type::HTML || parsed(url).typ
            == Type::Error,
        !parsed(url).port.contains(':'),
        !parsed(url).port.contains('/'),
{
    lemma_literals();
    let u = without_protocol(url);
    let r = if is_telnet(u) {
        trimmed(u, "telnet://"@)
    } else {
        u
    };
    let h = authority_of(r);
    lemma_span(r, '/');
    lemma_span(h, ':');
    let port = port_of(h);
    if !h.contains('[') && has_port(h) {
        assert forall|i: int| 0 <= i < port.len() implies port[i] != '/' by {
            assert(port[i] == r[i + span(h, ':') + 1]);
        }
    }
}

/// A URL without its Gopher or telnet protocol.
pub open spec fn without_any_protocol(url: Seq<char>) -> Seq<char> {
    trimmed(without_protocol(url), "telnet://"@)
}

/// No character of a URL is lost: without brackets, a Gopher or telnet URL reads,
/// behind its protocol, as its host, its port behind a colon where it has one, its
/// type behind a slash where it has one, and its selector.
pub proof fn law_parts_make_up_the_url(url: Seq<char>)
    requires
        !is_foreign(without_protocol(url)),
        !authority_of(without_any_protocol(url)).contains('['),
    ensures
        ({
            let r = without_any_protocol(url);
            let v = parsed(url);
            let typed = !is_telnet(without_protocol(url)) && has_type_prefix(path_of(r));
            let authority = if has_port(authority_of(r)) {
                v.host + seq![':'] + v.port
            } else {
                v.host
            };
            let path = if typed {
                seq!['/', path_of(r)[1]] + v.sel
            } else {
                v.sel
            };
            &&& r == authority + path
            &&& typed ==> type_of(path_of(r)[1]) == Some(v.typ)
            &&& !typed ==> v.typ == (if is_telnet(without_protocol(url)) {
                Type::Telnet
            } else {
                Type::Menu
            })
            &&& !has_port(authority_of(r)) ==> v.port == "70"@
        }),
{
    lemma_literals();
    let u = without_protocol(url);
    let r = without_any_protocol(url);
    let v = parsed(url);
    let h = authority_of(r);
    let p = path_of(r);
    if is_telnet(u) {
        assert(u.subrange(0, 9)[6] == u[6]);
        assert(u.contains(':'));
    }
    lemma_span(r, '/');
    lemma_span(h, ':');
    assert(r =~= h + p);
    if is_simple(u) {
        assert(h =~= u);
        assert(p =~= Seq::<char>::empty());
    }
    if has_port(h) {
        assert(h =~= v.host + seq![':'] + v.port);
    }
    if !is_telnet(u) && has_type_prefix(p) {
        assert(p =~= seq!['/', p[1]] + v.sel);
    }
}

/// Every URL can be parsed of which the authority has no bracket, or starts with
/// one.
pub proof fn law_leading_bracket_is_parseable(url: Seq<char>)
    requires
        ({
            let h = authority_of(without_any_protocol(url));
            !h.contains('[') || h[0] == '['
        }),
    ensures
        parseable(url),
{
    lemma_literals();
    let h = authority_of(without_any_protocol(url));
    if h.contains('[') {
        lemma_span_unique(h, '[', 0);
        let body = bracket_body(h);
        assert(bracket_lead(h) =~= Seq::<char>::empty());
        encode_utf8_valid_utf8(body);
        is_char_boundary_start_end_of_seq(encode_utf8(body));
    }
}

/// `type_for_url` and `parse_url` agree on a Gopher URL, as long as what stands in
/// front of its first slash is ASCII and no bracket is left open.
pub proof fn law_types_agree(url: Seq<char>)
    requires
        !"telnet://"@.is_prefix_of(url),
        !"URL:"@.is_prefix_of(url),
        !"/URL:"@.is_prefix_of(url),
        !is_telnet(without_protocol(url)),
        !is_foreign(without_protocol(url)),
        is_simple(without_protocol(url)) || !unclosed_bracket(authority_of(without_protocol(url))),
        is_ascii_chars(authority_of(without_protocol(url))),
    ensures
        type_for(url) == parsed(url).typ,
{
    let u = without_protocol(url);
    let path = path_of(u);
    is_ascii_chars_encode_utf8(authority_of(u));
    lemma_span(u, '/');
    if u.contains('/') {
        assert(path[0] == '/');
        if path.len() >= 2 {
            assert(path[1] == u[code_position(u)]);
        }
    }
}

} // verus!
