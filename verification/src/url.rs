//! Gopher URLs and their parts.
use vstd::prelude::*;
use vstd::utf8::*;

use crate::item_type::{type_of, Type};
use crate::text::{
    byte_len, contains_char, contains_str, cut, occurs, skip_ascii, span, split_once, starts_with,
    trim_start_matches, trimmed,
};

verus! {

/// Gopher URL. Returned by `parse_url()`.
pub struct Url<'a> {
    /// Gopher Type
    pub typ: Type,
    /// Hostname
    pub host: &'a str,
    /// Port. Defaults to 70
    pub port: &'a str,
    /// Selector
    pub sel: &'a str,
}

/// The parts of a URL as texts.
#[verifier::ext_equal]
pub struct UrlView {
    pub typ: Type,
    pub host: Seq<char>,
    pub port: Seq<char>,
    pub sel: Seq<char>,
}

impl<'a> View for Url<'a> {
    type V = UrlView;

    open spec fn view(&self) -> UrlView {
        UrlView { typ: self.typ, host: self.host@, port: self.port@, sel: self.sel@ }
    }
}

impl<'a> Url<'a> {
    /// Creates a new Gopher Url quickly from a tuple of Url fields.
    pub fn new(typ: Type, host: &'a str, port: &'a str, sel: &'a str) -> (url: Url<'a>)
        ensures
            url.typ == typ,
            url.host == host,
            url.port == port,
            url.sel == sel,
    {
        Url { typ, host, port, sel }
    }
}

/// The part of a located URL in front of its first slash.
pub open spec fn authority_of(r: Seq<char>) -> Seq<char> {
    r.take(span(r, '/'))
}

/// The part of a located URL from its first slash on.
pub open spec fn path_of(r: Seq<char>) -> Seq<char> {
    r.skip(span(r, '/'))
}

/// What stands in front of the first opening bracket of an authority.
pub open spec fn bracket_lead(h: Seq<char>) -> Seq<char> {
    h.take(span(h, '['))
}

/// What stands behind the first opening bracket of an authority.
pub open spec fn bracket_inner(h: Seq<char>) -> Seq<char> {
    h.skip(span(h, '[') + 1)
}

/// What stands between the first opening bracket of an authority and the
/// closing one that follows it.
pub open spec fn bracket_body(h: Seq<char>) -> Seq<char> {
    let inner = bracket_inner(h);
    inner.take(span(inner, ']'))
}

/// Whether an authority has an opening bracket and a closing one behind it.
pub open spec fn closed_bracket(h: Seq<char>) -> bool {
    h.contains('[') && bracket_inner(h).contains(']')
}

/// Whether an authority has an opening bracket and no closing one behind it.
pub open spec fn unclosed_bracket(h: Seq<char>) -> bool {
    h.contains('[') && !bracket_inner(h).contains(']')
}

/// How many bytes of the bracketed text are the host: as many fewer as stand in
/// front of the bracket.
pub open spec fn bracket_cut(h: Seq<char>) -> int {
    byte_len(bracket_body(h)) - byte_len(bracket_lead(h))
}

/// Whether the bracketed text can be cut down to `bracket_cut` bytes. It always
/// can where the bracket opens the authority.
pub open spec fn well_bracketed(h: Seq<char>) -> bool {
    closed_bracket(h) ==> is_char_boundary(encode_utf8(bracket_body(h)), bracket_cut(h))
}

/// The host that a bracketed authority names.
pub open spec fn bracketed_host(h: Seq<char>) -> Seq<char> {
    decode_utf8(encode_utf8(bracket_body(h)).subrange(0, bracket_cut(h)))
}

/// Whether an authority ends in a port: one colon, and something behind it. Two
/// colons are probably an IPv6 address.
pub open spec fn has_port(h: Seq<char>) -> bool {
    let after = h.skip(span(h, ':') + 1);
    h.contains(':') && after.len() > 0 && !after.contains(':')
}

/// The host that an authority without an unclosed bracket names.
pub open spec fn host_of(h: Seq<char>) -> Seq<char> {
    if h.contains('[') {
        bracketed_host(h)
    } else if has_port(h) {
        h.take(span(h, ':'))
    } else {
        h
    }
}

/// The port that an authority without an unclosed bracket names.
pub open spec fn port_of(h: Seq<char>) -> Seq<char> {
    if !h.contains('[') && has_port(h) {
        h.skip(span(h, ':') + 1)
    } else {
        "70"@
    }
}

/// Whether a path starts with a slash and a type code.
pub open spec fn has_type_prefix(path: Seq<char>) -> bool {
    path.len() >= 2 && path[0] == '/' && type_of(path[1]) is Some
}

/// The parts of a URL of which the protocol is gone, and which names a `typ`
/// where its path names no other.
pub open spec fn located(typ: Type, r: Seq<char>) -> UrlView {
    let h = authority_of(r);
    let path = path_of(r);
    if unclosed_bracket(h) {
        UrlView {
            typ: Type::Error,
            host: "Unclosed ipv6 bracket"@,
            port: Seq::empty(),
            sel: r,
        }
    } else if typ != Type::Telnet && has_type_prefix(path) {
        UrlView {
            typ: type_of(path[1])->0,
            host: host_of(h),
            port: port_of(h),
            sel: path.skip(2),
        }
    } else {
        UrlView { typ, host: host_of(h), port: port_of(h), sel: path }
    }
}

/// A URL without its Gopher protocol.
pub open spec fn without_protocol(url: Seq<char>) -> Seq<char> {
    trimmed(url, "gopher://"@)
}

/// Whether a URL without protocol is nothing but a host.
pub open spec fn is_simple(u: Seq<char>) -> bool {
    !u.contains(':') && !u.contains('/')
}

/// Whether a URL without protocol is a telnet URL.
pub open spec fn is_telnet(u: Seq<char>) -> bool {
    "telnet://"@.is_prefix_of(u)
}

/// Whether a URL without protocol names one that is neither Gopher nor telnet.
pub open spec fn is_foreign(u: Seq<char>) -> bool {
    !is_telnet(u) && occurs("://"@, u)
}

/// The parts of a URL.
pub open spec fn parsed(url: Seq<char>) -> UrlView {
    let u = without_protocol(url);
    if is_simple(u) {
        UrlView { typ: Type::Menu, host: u, port: "70"@, sel: Seq::empty() }
    } else if is_telnet(u) {
        located(Type::Telnet, trimmed(u, "telnet://"@))
    } else if is_foreign(u) {
        UrlView { typ: Type::HTML, host: Seq::empty(), port: Seq::empty(), sel: u }
    } else {
        located(Type::Menu, u)
    }
}

/// Whether a URL can be parsed. One that cannot has, in front of a bracketed
/// address, text that is longer than the address, or of a length that splits
/// a character of it.
pub open spec fn parseable(url: Seq<char>) -> bool {
    let u = without_protocol(url);
    if is_simple(u) || is_foreign(u) {
        true
    } else if is_telnet(u) {
        well_bracketed(authority_of(trimmed(u, "telnet://"@)))
    } else {
        well_bracketed(authority_of(u))
    }
}

/// Host and port of an authority, `None` where its bracket is not closed; the
/// outer `None` where it is not well bracketed.
fn parse_authority<'a>(h: &'a str) -> (r: Option<Option<(&'a str, &'a str)>>)
    ensures
        r is Some <==> well_bracketed(h@),
        r matches Some(a) ==> (a is None <==> unclosed_bracket(h@)),
        r matches Some(Some(p)) ==> p.0@ == host_of(h@) && p.1@ == port_of(h@),
{
    if let Some((lead, inner)) = split_once(h, '[') {
        if let Some((body, _)) = split_once(inner, ']') {
            let before: usize = lead.as_bytes().len();
            let within: usize = body.as_bytes().len();
            if within < before || !body.is_char_boundary(within - before) {
                proof {
                    encode_utf8_valid_utf8(body@);
                }
                return None;
            }
            let (host, _) = body.split_at(within - before);
            proof {
                encode_utf8_decode_utf8(host@);
            }
            Some(Some((host, "70")))
        } else {
            Some(None)
        }
    } else if let Some((host, port)) = split_once(h, ':') {
        if !port.is_empty() && !contains_char(port, ':') {
            Some(Some((host, port)))
        } else {
            Some(Some((h, "70")))
        }
    } else {
        Some(Some((h, "70")))
    }
}

/// Parses gopher URL into parts, or returns `None` where it cannot be parsed.
pub fn checked_parse_url<'a>(url: &'a str) -> (r: Option<Url<'a>>)
    ensures
        r is Some <==> parseable(url@),
        r matches Some(u) ==> u@ == parsed(url@),
{
    proof {
        reveal_strlit("gopher://");
        reveal_strlit("telnet://");
        reveal_strlit("");
        assert(""@ =~= Seq::<char>::empty());
    }
    let mut rest = trim_start_matches(url, "gopher://");
    let mut typ = Type::Menu;

    // simple URLs, ex: "dog.com"
    if !contains_char(rest, ':') && !contains_char(rest, '/') {
        return Some(Url::new(Type::Menu, rest, "70", ""));
    }

    // telnet urls
    if starts_with(rest, "telnet://") {
        typ = Type::Telnet;
        rest = trim_start_matches(rest, "telnet://");
    } else if contains_str(rest, "://") {
        // non-gopher URLs, stick everything in selector
        return Some(Url::new(Type::HTML, "", "", rest));
    }

    let (authority, path) = cut(rest, '/');
    let (host, port) = match parse_authority(authority) {
        None => {
            return None;
        },
        Some(None) => {
            return Some(Url::new(Type::Error, "Unclosed ipv6 bracket", "", rest));
        },
        Some(Some(p)) => p,
    };

    // ignore type prefix on selector
    let mut sel = path;
    if typ != Type::Telnet {
        let mut chars = path.chars();
        let first = chars.next();
        let second = chars.next();
        if let (Some('/'), Some(c)) = (first, second) {
            if let Some(t) = Type::from(c) {
                typ = t;
                sel = skip_ascii(path, 2);
            }
        }
    }
    Some(Url::new(typ, host, port, sel))
}

/// Parses gopher URL into parts.
pub fn parse_url<'a>(url: &'a str) -> (u: Url<'a>)
    requires
        parseable(url@),
    ensures
        u@ == parsed(url@),
{
    checked_parse_url(url).unwrap()
}

/// The position at which `type_for_url` looks for a type code: behind the first
/// slash, where every character in front of it counts once per byte.
pub open spec fn code_position(u: Seq<char>) -> int {
    (byte_len(authority_of(u)) + 1) as int
}

/// The type of a URL.
pub open spec fn type_for(url: Seq<char>) -> Type {
    let u = without_protocol(url);
    if "telnet://"@.is_prefix_of(url) {
        Type::Telnet
    } else if "URL:"@.is_prefix_of(url) || "/URL:"@.is_prefix_of(url) {
        Type::HTML
    } else if u.contains('/') && code_position(u) < u.len() && type_of(
        u[code_position(u)],
    ) is Some {
        type_of(u[code_position(u)])->0
    } else {
        Type::Menu
    }
}

/// Given a Gopher URL, returns a gopher::Type.
pub fn type_for_url(url: &str) -> (t: Type)
    ensures
        t == type_for(url@),
{
    if starts_with(url, "telnet://") {
        return Type::Telnet;
    }
    if starts_with(url, "URL:") || starts_with(url, "/URL:") {
        return Type::HTML;
    }
    proof {
        reveal_strlit("gopher://");
    }
    let rest = trim_start_matches(url, "gopher://");
    if let Some((head, _)) = split_once(rest, '/') {
        let at: usize = head.as_bytes().len();
        if at < rest.unicode_len() - 1 {
            return match Type::from(rest.get_char(at + 1)) {
                Some(t) => t,
                None => Type::Menu,
            };
        }
    }
    Type::Menu
}

} // verus!
