//! What every shape of URL is parsed into.
//!
//! Every URL is the Gopher protocol, any number of times or not at all, and then
//! a telnet URL, a URL of another protocol, a host alone, or an authority and a path.
//! The laws here say of each of these, from the parts that it is written from, what
//! it is parsed into.
use vstd::prelude::*;
use vstd::utf8::*;

use crate::item_type::{type_of, Type};
use crate::text::{lemma_span, lemma_span_unique, span, trimmed};
use crate::url::{
    authority_of, bracket_body, bracket_cut, bracket_inner, bracket_lead, bracketed_host,
    closed_bracket, is_foreign, is_simple, is_telnet, located, parseable, parsed, path_of, type_for,
    well_bracketed, without_protocol, Url, UrlView,
};
use crate::url_laws::{
    is_name, is_path, law_gopher_protocol_is_optional, lemma_authority_and_path,
    lemma_host_and_port, lemma_literals, lemma_no_protocol, lemma_occurs, lemma_trimmed_again,
};

verus! {

/// Whether a text holds a colon and two slashes behind it.
pub open spec fn holds_protocol(s: Seq<char>) -> bool {
    exists|i: int|
        0 <= i && i + 2 < s.len() && #[trigger] s[i] == ':' && s[i + 1] == '/' && s[i + 2] == '/'
}

/// The protocol of a URL, as it is written.
pub open spec fn protocol(telnet: bool) -> Seq<char> {
    if telnet {
        "telnet://"@
    } else {
        "gopher://"@
    }
}

/// Whether an authority `h` and a `path` are told apart where they follow a protocol:
/// the one has no slash and the other starts with one. What follows `telnet://` may
/// hold what it will, but for that protocol again. What follows `gopher://` holds no
/// protocol, and is no host alone.
pub open spec fn well_cut(telnet: bool, h: Seq<char>, path: Seq<char>) -> bool {
    &&& !h.contains('/')
    &&& is_path(path)
    &&& telnet ==> !"telnet://"@.is_prefix_of(h + path)
    &&& !telnet ==> !holds_protocol(h + path) && (path.len() > 0 || h.contains(':'))
}

/// A URL with this host, this port and this path. A Gopher path names its type by the
/// character behind its slash, if that is a type code, and else is that of a menu.
pub open spec fn parts(
    telnet: bool,
    host: Seq<char>,
    port: Seq<char>,
    path: Seq<char>,
) -> UrlView {
    if telnet {
        UrlView { typ: Type::Telnet, host, port, sel: path }
    } else if path.len() >= 2 && type_of(path[1]) is Some {
        UrlView { typ: type_of(path[1])->0, host, port, sel: path.skip(2) }
    } else {
        UrlView { typ: Type::Menu, host, port, sel: path }
    }
}

/// A URL of an authority and a path is cut between them.
proof fn lemma_cut(telnet: bool, h: Seq<char>, path: Seq<char>)
    requires
        well_cut(telnet, h, path),
    ensures
        ({
            let url = protocol(telnet) + (h + path);
            &&& authority_of(h + path) == h
            &&& path_of(h + path) == path
            &&& parsed(url) == located(
                if telnet {
                    Type::Telnet
                } else {
                    Type::Menu
                },
                h + path,
            )
            &&& parseable(url) == well_bracketed(h)
        }),
{
    lemma_literals();
    lemma_authority_and_path(h, path);
    let r = h + path;
    let url = protocol(telnet) + r;
    if telnet {
        assert(url[0] == 't' && url[6] == ':');
        if "gopher://"@.is_prefix_of(url) {
            assert(url.subrange(0, 9)[0] == 't');
        }
        assert(url.subrange(0, 9) =~= "telnet://"@);
        lemma_trimmed_again("telnet://"@, r);
        assert(without_protocol(url) == url);
        assert(trimmed(url, "telnet://"@) == r);
    } else {
        law_gopher_protocol_is_optional(r);
        lemma_occurs(r);
        lemma_no_protocol(r);
        if path.len() > 0 {
            assert(r[h.len() as int] == '/');
        } else {
            assert(r =~= h);
        }
    }
}

/// A host and a path are cut at the first slash, and the port is 70: the host is all
/// in front of that slash, and no more.
pub proof fn law_host_and_path(telnet: bool, host: Seq<char>, path: Seq<char>)
    requires
        is_name(host),
        well_cut(telnet, host, path),
    ensures
        parseable(protocol(telnet) + (host + path)),
        parsed(protocol(telnet) + (host + path)) == parts(telnet, host, "70"@, path),
{
    lemma_cut(telnet, host, path);
}

/// A host, a port and a path are cut at the colon and at the first slash.
pub proof fn law_host_port_and_path(
    telnet: bool,
    host: Seq<char>,
    port: Seq<char>,
    path: Seq<char>,
)
    requires
        is_name(host),
        is_name(port),
        port.len() > 0,
        well_cut(telnet, host + seq![':'] + port, path),
    ensures
        ({
            let url = protocol(telnet) + (host + seq![':'] + port + path);
            &&& parseable(url)
            &&& parsed(url) == parts(telnet, host, port, path)
        }),
{
    lemma_host_and_port(host, port);
    lemma_cut(telnet, host + seq![':'] + port, path);
}

/// A colon with nothing behind it names no port, and stays with the host.
pub proof fn law_colon_without_port(telnet: bool, host: Seq<char>, path: Seq<char>)
    requires
        is_name(host),
        well_cut(telnet, host + seq![':'], path),
    ensures
        ({
            let url = protocol(telnet) + (host + seq![':'] + path);
            &&& parseable(url)
            &&& parsed(url) == parts(telnet, host + seq![':'], "70"@, path)
        }),
{
    let h = host + seq![':'];
    lemma_cut(telnet, h, path);
    assert forall|i: int| 0 <= i < h.len() implies h[i] != '[' && (i < host.len() ==> h[i]
        != ':') by {
        if i < host.len() {
            assert(host.contains(h[i]));
        }
    }
    lemma_span_unique(h, ':', host.len() as int);
    assert(h.skip(h.len() as int).len() == 0);
}

/// An authority with two colons or more and no bracket is an IPv6 address: all of it
/// is the host, and the port is 70.
pub proof fn law_bare_address_and_path(
    telnet: bool,
    h: Seq<char>,
    path: Seq<char>,
    i: int,
    j: int,
)
    requires
        0 <= i < j < h.len(),
        h[i] == ':',
        h[j] == ':',
        !h.contains('['),
        well_cut(telnet, h, path),
    ensures
        parseable(protocol(telnet) + (h + path)),
        parsed(protocol(telnet) + (h + path)) == parts(telnet, h, "70"@, path),
{
    lemma_cut(telnet, h, path);
    lemma_span(h, ':');
    let after = h.skip(span(h, ':') + 1);
    assert(after[j - span(h, ':') - 1] == ':');
}

/// Where an authority with a bracketed text is cut.
proof fn lemma_brackets(lead: Seq<char>, body: Seq<char>, rest: Seq<char>)
    requires
        !lead.contains('['),
        !body.contains(']'),
    ensures
        ({
            let h = lead + seq!['['] + body + seq![']'] + rest;
            &&& closed_bracket(h)
            &&& bracket_lead(h) == lead
            &&& bracket_body(h) == body
        }),
{
    let h = lead + seq!['['] + body + seq![']'] + rest;
    let n = lead.len() as int;
    let m = body.len() as int;
    assert forall|i: int| 0 <= i < n implies h[i] != '[' by {
        assert(lead.contains(h[i]));
    }
    assert(h[n] == '[');
    lemma_span_unique(h, '[', n);
    assert(h.take(n) =~= lead);
    let inner = bracket_inner(h);
    assert(inner =~= body + seq![']'] + rest);
    assert forall|i: int| 0 <= i < m implies inner[i] != ']' by {
        assert(body.contains(inner[i]));
    }
    assert(inner[m] == ']');
    lemma_span_unique(inner, ']', m);
    assert(inner.take(m) =~= body);
}

/// A bracketed text names the host, whatever follows the bracket, and the port is 70.
/// As many bytes as stand in front of the bracket are taken off its end; a URL of
/// which the text is shorter than that, or would be cut through a character, cannot
/// be parsed.
pub proof fn law_bracket_and_path(
    telnet: bool,
    lead: Seq<char>,
    body: Seq<char>,
    rest: Seq<char>,
    path: Seq<char>,
)
    requires
        !lead.contains('['),
        !body.contains(']'),
        well_cut(telnet, lead + seq!['['] + body + seq![']'] + rest, path),
    ensures
        ({
            let url = protocol(telnet) + (lead + seq!['['] + body + seq![']'] + rest + path);
            let kept = encode_utf8(body).len() - encode_utf8(lead).len();
            &&& parseable(url) <==> is_char_boundary(encode_utf8(body), kept)
            &&& parseable(url) ==> {
                &&& parsed(url) == parts(telnet, parsed(url).host, "70"@, path)
                &&& encode_utf8(parsed(url).host) == encode_utf8(body).subrange(0, kept)
                &&& parsed(url).host.is_prefix_of(body)
            }
            &&& lead.len() == 0 ==> parseable(url) && parsed(url) == parts(
                telnet,
                body,
                "70"@,
                path,
            )
        }),
{
    let h = lead + seq!['['] + body + seq![']'] + rest;
    let bytes = encode_utf8(body);
    let kept = encode_utf8(body).len() - encode_utf8(lead).len();
    lemma_cut(telnet, h, path);
    lemma_brackets(lead, body, rest);
    encode_utf8_valid_utf8(body);
    if is_char_boundary(bytes, kept) {
        lemma_boundary_in_range(bytes, kept);
        lemma_bracketed_host(h);
    }
    if lead.len() == 0 {
        is_char_boundary_start_end_of_seq(bytes);
        assert(bytes.subrange(0, kept) =~= bytes);
        encode_utf8_decode_utf8(body);
    }
}

/// A character boundary lies within the bytes.
proof fn lemma_boundary_in_range(bytes: Seq<u8>, index: int)
    requires
        valid_utf8(bytes),
        is_char_boundary(bytes, index),
    ensures
        0 <= index <= bytes.len(),
{
}

/// The host of a well bracketed authority begins the bracketed text.
proof fn lemma_bracketed_host(h: Seq<char>)
    requires
        closed_bracket(h),
        well_bracketed(h),
    ensures
        encode_utf8(bracketed_host(h)) == encode_utf8(bracket_body(h)).subrange(0, bracket_cut(h)),
        bracketed_host(h).is_prefix_of(bracket_body(h)),
{
    let body = bracket_body(h);
    let bytes = encode_utf8(body);
    let kept = bracket_cut(h);
    encode_utf8_valid_utf8(body);
    lemma_boundary_in_range(bytes, kept);
    valid_utf8_split(bytes, kept);
    decode_utf8_split(bytes, kept);
    encode_utf8_decode_utf8(body);
    decode_utf8_encode_utf8(bytes.subrange(0, kept));
    let host = bracketed_host(h);
    let tail = decode_utf8(bytes.subrange(kept, bytes.len() as int));
    assert(body == host + tail);
    assert((host + tail).subrange(0, host.len() as int) =~= host);
}

/// An opening bracket without a closing one behind it is an error, in a telnet URL
/// too: no host or port is named, and all behind the protocol is the selector.
pub proof fn law_open_bracket_and_path(
    telnet: bool,
    lead: Seq<char>,
    rest: Seq<char>,
    path: Seq<char>,
)
    requires
        !lead.contains('['),
        !rest.contains(']'),
        well_cut(telnet, lead + seq!['['] + rest, path),
    ensures
        ({
            let r = lead + seq!['['] + rest + path;
            &&& parseable(protocol(telnet) + r)
            &&& parsed(protocol(telnet) + r) == (UrlView {
                typ: Type::Error,
                host: "Unclosed ipv6 bracket"@,
                port: Seq::empty(),
                sel: r,
            })
        }),
{
    let h = lead + seq!['['] + rest;
    let n = lead.len() as int;
    lemma_cut(telnet, h, path);
    assert forall|i: int| 0 <= i < n implies h[i] != '[' by {
        assert(lead.contains(h[i]));
    }
    assert(h[n] == '[');
    lemma_span_unique(h, '[', n);
    assert(bracket_inner(h) =~= rest);
}

/// A URL that holds a protocol, and starts with neither `gopher://` nor `telnet://`,
/// is all selector, of type HTML.
pub proof fn law_other_protocols_are_all_selector(url: Seq<char>)
    requires
        holds_protocol(url),
        !"gopher://"@.is_prefix_of(url),
        !"telnet://"@.is_prefix_of(url),
    ensures
        parseable(url),
        parsed(url) == (UrlView {
            typ: Type::HTML,
            host: Seq::empty(),
            port: Seq::empty(),
            sel: url,
        }),
{
    lemma_literals();
    lemma_occurs(url);
    let i = choose|i: int|
        0 <= i && i + 2 < url.len() && #[trigger] url[i] == ':' && url[i + 1] == '/' && url[i + 2]
            == '/';
    assert(url.contains(url[i]));
}

/// The telnet protocol may be written more than once.
pub proof fn law_telnet_protocol_may_repeat(rest: Seq<char>)
    ensures
        parsed("telnet://"@ + ("telnet://"@ + rest)) == parsed("telnet://"@ + rest),
        parseable("telnet://"@ + ("telnet://"@ + rest)) == parseable("telnet://"@ + rest),
{
    lemma_literals();
    let t = "telnet://"@;
    let once = t + rest;
    let twice = t + once;
    assert(once[0] == 't' && once[6] == ':' && twice[0] == 't' && twice[6] == ':');
    if "gopher://"@.is_prefix_of(once) {
        assert(once.subrange(0, 9)[0] == 't');
    }
    if "gopher://"@.is_prefix_of(twice) {
        assert(twice.subrange(0, 9)[0] == 't');
    }
    assert(once.subrange(0, 9) =~= t);
    assert(twice.subrange(0, 9) =~= t);
    lemma_trimmed_again(t, rest);
    lemma_trimmed_again(t, once);
}

/// What trimming leaves ends the text.
proof fn lemma_trimmed_ends(s: Seq<char>, prefix: Seq<char>)
    ensures
        trimmed(s, prefix).len() <= s.len(),
        s.skip(s.len() - trimmed(s, prefix).len()) == trimmed(s, prefix),
    decreases s.len(),
{
    if prefix.len() > 0 && prefix.is_prefix_of(s) {
        let rest = s.skip(prefix.len() as int);
        lemma_trimmed_ends(rest, prefix);
        assert(s.skip(s.len() - trimmed(s, prefix).len()) =~= rest.skip(
            rest.len() - trimmed(rest, prefix).len(),
        ));
    } else {
        assert(s.skip(0) =~= s);
    }
}

/// The selector of a URL is its end, unchanged.
pub proof fn law_selector_ends_the_url(url: Seq<char>)
    ensures
        parsed(url).sel.len() <= url.len(),
        url.skip(url.len() - parsed(url).sel.len()) == parsed(url).sel,
{
    let u = without_protocol(url);
    let r = if is_telnet(u) {
        trimmed(u, "telnet://"@)
    } else {
        u
    };
    lemma_trimmed_ends(url, "gopher://"@);
    lemma_trimmed_ends(u, "telnet://"@);
    lemma_span(r, '/');
    let sel = parsed(url).sel;
    assert(r.len() <= u.len() <= url.len());
    assert(u.skip(0) =~= u);
    assert(r =~= url.skip(url.len() - r.len())) by {
        assert(url.skip(url.len() - u.len()).skip(u.len() - r.len()) =~= url.skip(
            url.len() - r.len(),
        ));
    }
    assert(sel.len() == 0 || sel =~= r.skip(r.len() - sel.len())) by {
        assert(path_of(r).skip(2) =~= r.skip(span(r, '/') + 2) || path_of(r).len() < 2);
        assert(r.skip(0) =~= r);
    }
    assert(url.skip(url.len() - sel.len()) =~= sel);
}

/// The host of a URL holds no slash, so whatever stands from the first slash on is
/// in the selector.
pub proof fn law_host_holds_no_slash(url: Seq<char>)
    requires
        parseable(url),
    ensures
        !parsed(url).host.contains('/'),
{
    reveal_strlit("Unclosed ipv6 bracket");
    let u = without_protocol(url);
    let r = if is_telnet(u) {
        trimmed(u, "telnet://"@)
    } else {
        u
    };
    if !is_simple(u) && !is_foreign(u) {
        let h = authority_of(r);
        lemma_span(r, '/');
        lemma_span(h, '[');
        lemma_span(h, ':');
        lemma_span(bracket_inner(h), ']');
        if closed_bracket(h) {
            lemma_bracketed_host(h);
            let host = bracketed_host(h);
            let body = bracket_body(h);
            assert forall|i: int| 0 <= i < host.len() implies host[i] != '/' by {
                assert(body.subrange(0, host.len() as int)[i] == host[i]);
                assert(host[i] == r[i + span(h, '[') + 1]);
            }
        }
    }
}

/// What a `Url` says is what its fields hold.
pub proof fn law_url_says_what_it_holds(url: Url)
    ensures
        url@.typ == url.typ,
        url@.host == url.host@,
        url@.port == url.port@,
        url@.sel == url.sel@,
{
}

/// A URL that starts with `telnet://` is of type telnet, whatever follows.
pub proof fn law_telnet_urls_are_telnet(rest: Seq<char>)
    ensures
        type_for("telnet://"@ + rest) == Type::Telnet,
{
    lemma_literals();
    assert(("telnet://"@ + rest).subrange(0, 9) =~= "telnet://"@);
}

/// What starts with `URL:` or `/URL:` is of type HTML, whatever follows.
pub proof fn law_url_selectors_are_html(rest: Seq<char>)
    ensures
        type_for("URL:"@ + rest) == Type::HTML,
        type_for("/URL:"@ + rest) == Type::HTML,
{
    lemma_literals();
    let a = "URL:"@ + rest;
    let b = "/URL:"@ + rest;
    assert(a.subrange(0, 4) =~= "URL:"@);
    assert(b.subrange(0, 5) =~= "/URL:"@);
    assert(a[0] == 'U' && b[0] == '/');
    if "telnet://"@.is_prefix_of(a) {
        assert(a.subrange(0, 9)[0] == 'U');
    }
    if "telnet://"@.is_prefix_of(b) {
        assert(b.subrange(0, 9)[0] == '/');
    }
}

/// Whether a URL's type is known by what it starts with.
pub open spec fn starts_with_its_type(url: Seq<char>) -> bool {
    "telnet://"@.is_prefix_of(url) || "URL:"@.is_prefix_of(url) || "/URL:"@.is_prefix_of(url)
}

/// Any other URL names its type behind its first slash, if a type code stands there,
/// and else is that of a menu. The place is counted in the bytes of what stands in
/// front of the slash; where that is ASCII, it is the character behind the slash.
/// `gopher://` makes no difference.
pub proof fn law_type_stands_behind_the_slash(front: Seq<char>, behind: Seq<char>)
    requires
        !front.contains('/'),
        !"gopher://"@.is_prefix_of(front + seq!['/'] + behind),
    ensures
        ({
            let u = front + seq!['/'] + behind;
            let at = (encode_utf8(front).len() + 1) as int;
            let typ = if at < u.len() && type_of(u[at]) is Some {
                type_of(u[at])->0
            } else {
                Type::Menu
            };
            &&& type_for("gopher://"@ + u) == typ
            &&& !starts_with_its_type(u) ==> type_for(u) == typ
            &&& is_ascii_chars(front) ==> typ == (if behind.len() > 0 && type_of(
                behind[0],
            ) is Some {
                type_of(behind[0])->0
            } else {
                Type::Menu
            })
        }),
{
    let path = seq!['/'] + behind;
    let u = front + seq!['/'] + behind;
    assert(u =~= front + path);
    lemma_authority_and_path(front, path);
    lemma_gopher_first(u);
    assert(u[front.len() as int] == '/');
    if is_ascii_chars(front) {
        is_ascii_chars_encode_utf8(front);
        if behind.len() > 0 {
            assert(u[(front.len() + 1) as int] == behind[0]);
        }
    }
}

/// A URL without a slash, but for that of its protocol, is that of a menu.
pub proof fn law_type_without_a_slash_is_menu(url: Seq<char>)
    requires
        !url.contains('/'),
        !"URL:"@.is_prefix_of(url),
    ensures
        type_for(url) == Type::Menu,
        type_for("gopher://"@ + url) == Type::Menu,
{
    lemma_literals();
    if "telnet://"@.is_prefix_of(url) || "gopher://"@.is_prefix_of(url) {
        assert(url.subrange(0, 9)[7] == url[7]);
    }
    if "/URL:"@.is_prefix_of(url) {
        assert(url.subrange(0, 5)[0] == url[0]);
    }
    lemma_gopher_first(url);
}

/// `gopher://` once more makes no difference to the type of a URL that starts so.
pub proof fn law_gopher_protocol_may_repeat(rest: Seq<char>)
    ensures
        type_for("gopher://"@ + ("gopher://"@ + rest)) == type_for("gopher://"@ + rest),
        parsed("gopher://"@ + ("gopher://"@ + rest)) == parsed("gopher://"@ + rest),
{
    lemma_gopher_first(rest);
    lemma_gopher_first("gopher://"@ + rest);
    law_gopher_protocol_is_optional("gopher://"@ + rest);
}

/// A URL that starts with `gopher://` starts with nothing else, and loses it.
proof fn lemma_gopher_first(rest: Seq<char>)
    ensures
        !starts_with_its_type("gopher://"@ + rest),
        without_protocol("gopher://"@ + rest) == without_protocol(rest),
        !"gopher://"@.is_prefix_of(rest) ==> without_protocol(rest) == rest,
{
    lemma_literals();
    lemma_trimmed_again("gopher://"@, rest);
    let u = "gopher://"@ + rest;
    assert(u[0] == 'g');
    if "telnet://"@.is_prefix_of(u) {
        assert(u.subrange(0, 9)[0] == 'g');
    }
    if "URL:"@.is_prefix_of(u) {
        assert(u.subrange(0, 4)[0] == 'g');
    }
    if "/URL:"@.is_prefix_of(u) {
        assert(u.subrange(0, 5)[0] == 'g');
    }
}

} // verus!
