use gopher::{clean_response, response_text};

#[test]
fn test_clean_response() {
    let mut test = "Hi".to_string();
    test.push('\u{007F}');
    test.push_str(" there!");
    test.push('\u{0082}');
    clean_response(&mut test);
    assert_eq!(test, "Hi there!".to_string());

    let mut test = "* \x1b[92mTitle\x1b[0m".to_string();
    clean_response(&mut test);
    assert_eq!(test, "* \x1b[92mTitle\x1b[0m".to_string());
}

fn cleaned(text: &str) -> String {
    let mut out = text.to_string();
    clean_response(&mut out);
    out
}

#[test]
fn only_del_and_c1_controls_are_removed() {
    assert_eq!(cleaned("\u{7e}\u{7f}\u{80}\u{9f}\u{a0}"), "\u{7e}\u{a0}");
    assert_eq!(cleaned("\0\t\r\n\u{1f}"), "\0\t\r\n\u{1f}");
    assert_eq!(cleaned(""), "");
    assert_eq!(cleaned("a\u{7f}ö\u{85}日本"), "aö日本");
}

#[test]
fn cleaning_is_idempotent_and_piecewise() {
    let (a, b) = ("x\u{90}y", "\u{7f}z");
    assert_eq!(cleaned(&cleaned(a)), cleaned(a));
    assert_eq!(cleaned(&format!("{}{}", a, b)), format!("{}{}", cleaned(a), cleaned(b)));
}

#[test]
fn bytes_are_decoded_and_cleaned() {
    assert_eq!(response_text("iHällo\u{82}!\r\n".as_bytes()), "iHällo!\r\n");
    assert_eq!(response_text(&[b'a', 0xff, b'b', 0x7f]), "a\u{fffd}b");
    assert_eq!(response_text(&[]), "");
}
