use gopher::{checked_parse_url, parse_url, type_for_url, Type, Url};

#[test]
fn test_simple_parse() {
    let urls = vec![
        "gopher://gopher.club/1/phlogs/",
        "gopher://sdf.org:7777/1/maps",
        "gopher.floodgap.org",
        "gopher.floodgap.com/0/gopher/relevance.txt",
        "gopher://gopherpedia.com/7/lookup?Gopher",
        "gopher://dead:beef:1234:5678:9012:3456:feed:deed",
        "gopher://[1234:2345:dead:4567:7890:1234:beef:1111]:7443/1/files",
        "gopher://2001:cdba:0000:0000:0000:0000:3257:9121",
        "[2001:cdba::3257:9652]",
        "gopher://9999:aaaa::abab:baba:aaaa:9999",
        "[2001:2099:dead:beef:0000",
        "::1",
        "ssh://kiosk@bitreich.org",
        "https://github.com/xvxx/phetch",
        "telnet://bbs.impakt.net:6502/",
    ];

    let url = parse_url(urls[0]);
    assert_eq!(url.typ, Type::Menu);
    assert_eq!(url.host, "gopher.club");
    assert_eq!(url.port, "70");
    assert_eq!(url.sel, "/phlogs/");

    let url = parse_url(urls[1]);
    assert_eq!(url.typ, Type::Menu);
    assert_eq!(url.host, "sdf.org");
    assert_eq!(url.port, "7777");
    assert_eq!(url.sel, "/maps");

    let url = parse_url(urls[2]);
    assert_eq!(url.typ, Type::Menu);
    assert_eq!(url.host, "gopher.floodgap.org");
    assert_eq!(url.port, "70");
    assert_eq!(url.sel, "");

    let url = parse_url(urls[3]);
    assert_eq!(url.typ, Type::Text);
    assert_eq!(url.host, "gopher.floodgap.com");
    assert_eq!(url.port, "70");
    assert_eq!(url.sel, "/gopher/relevance.txt");

    let url = parse_url(urls[4]);
    assert_eq!(url.typ, Type::Search);
    assert_eq!(url.host, "gopherpedia.com");
    assert_eq!(url.port, "70");
    assert_eq!(url.sel, "/lookup?Gopher");

    let url = parse_url(urls[5]);
    assert_eq!(url.typ, Type::Menu);
    assert_eq!(url.host, "dead:beef:1234:5678:9012:3456:feed:deed");
    assert_eq!(url.port, "70");
    assert_eq!(url.sel, "");

    let url = parse_url(urls[6]);
    assert_eq!(url.typ, Type::Menu);
    assert_eq!(url.host, "1234:2345:dead:4567:7890:1234:beef:1111");
    assert_eq!(url.port, "70");
    assert_eq!(url.sel, "/files");

    let url = parse_url(urls[7]);
    assert_eq!(url.typ, Type::Menu);
    assert_eq!(url.host, "2001:cdba:0000:0000:0000:0000:3257:9121");
    assert_eq!(url.port, "70");
    assert_eq!(url.sel, "");

    let url = parse_url(urls[8]);
    assert_eq!(url.typ, Type::Menu);
    assert_eq!(url.host, "2001:cdba::3257:9652");
    assert_eq!(url.port, "70");
    assert_eq!(url.sel, "");

    let url = parse_url(urls[9]);
    assert_eq!(url.typ, Type::Menu);
    assert_eq!(url.host, "9999:aaaa::abab:baba:aaaa:9999");
    assert_eq!(url.port, "70");
    assert_eq!(url.sel, "");

    let url = parse_url(urls[10]);
    assert_eq!(url.typ, Type::Error);
    assert_eq!(url.host, "Unclosed ipv6 bracket");
    assert_eq!(url.port, "");
    assert_eq!(url.sel, "[2001:2099:dead:beef:0000");

    let url = parse_url(urls[11]);
    assert_eq!(url.typ, Type::Menu);
    assert_eq!(url.host, "::1");
    assert_eq!(url.port, "70");
    assert_eq!(url.sel, "");

    let url = parse_url(urls[12]);
    assert_eq!(url.typ, Type::HTML);
    assert_eq!(url.host, "");
    assert_eq!(url.port, "");
    assert_eq!(url.sel, "ssh://kiosk@bitreich.org");

    let url = parse_url(urls[13]);
    assert_eq!(url.typ, Type::HTML);
    assert_eq!(url.host, "");
    assert_eq!(url.port, "");
    assert_eq!(url.sel, "https://github.com/xvxx/phetch");

    let url = parse_url(urls[14]);
    assert_eq!(url.typ, Type::Telnet);
    assert_eq!(url.host, "bbs.impakt.net");
    assert_eq!(url.port, "6502");
    assert_eq!(url.sel, "/");
}

#[test]
fn test_type_for_url() {
    assert_eq!(type_for_url("phkt.io"), Type::Menu);
    assert_eq!(type_for_url("phkt.io/1"), Type::Menu);
    assert_eq!(type_for_url("phkt.io/1/"), Type::Menu);
    assert_eq!(type_for_url("phkt.io/0/info.txt"), Type::Text);
    assert_eq!(
        type_for_url("gopher://vernunftzentrum.de/0/tfurrows/resources/tokipona.txt"),
        Type::Text
    );
    assert_eq!(type_for_url("URL:https://google.com"), Type::HTML);
    assert_eq!(
        type_for_url("telnet://bbs.inter.net:6502/connect"),
        Type::Telnet
    );
}

fn assert_parts(url: &str, typ: Type, host: &str, port: &str, sel: &str) {
    let u = parse_url(url);
    assert_eq!(u.typ, typ, "type of {:?}", url);
    assert_eq!(u.host, host, "host of {:?}", url);
    assert_eq!(u.port, port, "port of {:?}", url);
    assert_eq!(u.sel, sel, "selector of {:?}", url);
}

#[test]
fn new_url_has_the_fields_given() {
    let u = Url::new(Type::Text, "sdf.org", "7070", "/a");
    assert_eq!(u.typ, Type::Text);
    assert_eq!(u.host, "sdf.org");
    assert_eq!(u.port, "7070");
    assert_eq!(u.sel, "/a");
}

#[test]
fn type_codes() {
    let codes = vec![
        ('0', Type::Text),
        ('1', Type::Menu),
        ('2', Type::CSOEntity),
        ('3', Type::Error),
        ('4', Type::Binhex),
        ('5', Type::DOSFile),
        ('6', Type::UUEncoded),
        ('7', Type::Search),
        ('8', Type::Telnet),
        ('9', Type::Binary),
        ('+', Type::Mirror),
        ('g', Type::GIF),
        ('T', Type::Telnet3270),
        ('h', Type::HTML),
        ('I', Type::Image),
        ('p', Type::PNG),
        ('i', Type::Info),
        ('s', Type::Sound),
        ('d', Type::Document),
        (';', Type::Video),
    ];
    for (code, typ) in codes {
        assert_eq!(Type::from(code), Some(typ));
    }
    assert_eq!(Type::from('/'), None);
    assert_eq!(Type::from(':'), None);
    assert_eq!(Type::from('c'), None);
    assert_eq!(Type::from('é'), None);
}

#[test]
fn empty_and_simple_urls() {
    assert_parts("", Type::Menu, "", "70", "");
    assert_parts("gopher://", Type::Menu, "", "70", "");
    assert_parts("[x", Type::Menu, "[x", "70", "");
    assert_parts("höst", Type::Menu, "höst", "70", "");
}

#[test]
fn the_gopher_protocol_is_optional() {
    for url in vec!["sdf.org:70/1/maps", "[::1]/0/x", "telnet://a:1/b", "ssh://x", "[::1"] {
        let with = format!("gopher://{}", url);
        let (a, b) = (parse_url(&with), parse_url(url));
        assert_eq!((a.typ, a.host, a.port, a.sel), (b.typ, b.host, b.port, b.sel));
    }
    assert_parts("gopher://gopher://x/0y", Type::Text, "x", "70", "y");
}

#[test]
fn parts_come_back() {
    assert_parts("gopher://a.b:7/9/bin/x?y", Type::Binary, "a.b", "7", "/bin/x?y");
    assert_parts("gopher://a.b/hURL:x", Type::HTML, "a.b", "70", "URL:x");
    assert_parts("gopher://ä.b/0ö", Type::Text, "ä.b", "70", "ö");
    assert_parts("telnet://a:23/1/x://y", Type::Telnet, "a", "23", "/1/x://y");
    assert_parts("telnet://telnet://a:23", Type::Telnet, "a", "23", "");
}

#[test]
fn selectors_without_a_type() {
    assert_parts("a/", Type::Menu, "a", "70", "/");
    assert_parts("a/zebra", Type::Menu, "a", "70", "/zebra");
    assert_parts("a//x", Type::Menu, "a", "70", "//x");
    assert_parts("a/é", Type::Menu, "a", "70", "/é");
    assert_parts("/1/x", Type::Menu, "", "70", "/x");
}

#[test]
fn ports() {
    assert_parts("a:", Type::Menu, "a:", "70", "");
    assert_parts("a:/1", Type::Menu, "a:", "70", "");
    assert_parts(":7", Type::Menu, "", "7", "");
    assert_parts("a:b:c/1x", Type::Menu, "a:b:c", "70", "x");
    assert_parts("a::", Type::Menu, "a::", "70", "");
}

#[test]
fn brackets() {
    assert_parts("[::1]:7070/0/x", Type::Text, "::1", "70", "/x");
    assert_parts("[]:1", Type::Menu, "", "70", "");
    assert_parts("x:[y", Type::Error, "Unclosed ipv6 bracket", "", "x:[y");
    assert_parts("telnet://[::1/x", Type::Error, "Unclosed ipv6 bracket", "", "[::1/x");
    // text in front of the bracket shortens the address
    assert_parts("a[1:2]", Type::Menu, "1:", "70", "");
    assert_parts("a[:]", Type::Menu, "", "70", "");
    assert_parts("a[é:]/", Type::Menu, "é", "70", "/");
}

#[test]
fn urls_that_cannot_be_parsed() {
    // the text in front of the bracket is longer than the address
    assert!(checked_parse_url("abc[:]").is_none());
    assert!(checked_parse_url("gopher://ab[]/1").is_none());
    assert!(checked_parse_url("telnet://ab[:]").is_none());
    // or would cut through a character
    assert!(checked_parse_url("a[:é]").is_none());
    assert!(checked_parse_url("a[:b]").is_some());
    assert!(checked_parse_url("http://abc[:]").is_some());
}

#[test]
fn unclosed_brackets() {
    let error = "Unclosed ipv6 bracket";
    assert_parts("a:1[2:3/4", Type::Error, error, "", "a:1[2:3/4");
    assert_parts("gopher://]:[/0/x", Type::Error, error, "", "]:[/0/x");
}

#[test]
fn types_of_urls() {
    assert_eq!(type_for_url("/URL:http://x"), Type::HTML);
    assert_eq!(type_for_url(""), Type::Menu);
    assert_eq!(type_for_url("a/"), Type::Menu);
    assert_eq!(type_for_url("a/z"), Type::Menu);
    assert_eq!(type_for_url("gopher://a/9"), Type::Binary);
    // a character of two bytes in front of the slash moves the code by one
    assert_eq!(type_for_url("é/07"), Type::Search);
    assert_eq!(type_for_url("é/0"), Type::Menu);
}

#[test]
fn types_agree() {
    for url in vec!["a:7/0x", "a/", "a", "gopher://[::1]:7/9/x", "a:b:c/7"] {
        assert_eq!(type_for_url(url), parse_url(url).typ);
    }
}
