use aardbin::plaintext::decode_plaintext;

fn decoded(text: &str) -> Option<(String, String)> {
    decode_plaintext(text.as_bytes())
}

fn pair(t: &str, c: &str) -> Option<(String, String)> {
    Some((t.to_string(), c.to_string()))
}

#[test]
fn plaintext_members_in_any_order() {
    assert_eq!(decoded("{\"content\":\"b\",\"title\":\"a\"}"), pair("a", "b"));
}

#[test]
fn plaintext_whitespace_between_tokens() {
    assert_eq!(
        decoded(" \n{ \"title\" :\t\"a\" ,\r\n \"content\" : \"b\" }\n "),
        pair("a", "b")
    );
}

#[test]
fn plaintext_escapes_are_decoded() {
    assert_eq!(
        decoded("{\"title\":\"\\u0041\\u00C9\\ud83d\\ude00\",\"content\":\"x\\/y\\b\\f\\n\\r\\t\\\"\\\\\"}"),
        pair("A\u{c9}\u{1f600}", "x/y\u{8}\u{c}\n\r\t\"\\")
    );
    assert_eq!(decoded("{\"\\u0074itle\":\"a\",\"content\":\"b\"}"), pair("a", "b"));
    assert_eq!(decoded("{\"title\":\"a\\u0000\",\"content\":\"\"}"), pair("a\u{0}", ""));
}

#[test]
fn plaintext_other_members_are_skipped() {
    assert_eq!(
        decoded("{\"title\":\"a\",\"extra\":[1,{\"k\":null,\"l\":[]},true,false,-1.5e+3,0,\"s\",{}],\"content\":\"b\"}"),
        pair("a", "b")
    );
    assert_eq!(decoded("{\"x\":\"\\ud800\",\"title\":\"a\",\"content\":\"b\"}"), pair("a", "b"));
    assert_eq!(decoded("{\"x\":[[[[]]]],\"title\":\"a\",\"content\":\"b\"}"), pair("a", "b"));
}

#[test]
fn plaintext_array_form() {
    assert_eq!(decoded("[\"a\", \"b\"]"), pair("a", "b"));
    assert_eq!(decoded("[\"a\"]"), None);
    assert_eq!(decoded("[\"a\",\"b\",\"c\"]"), None);
    assert_eq!(decoded("[\"a\",\"b\",]"), None);
    assert_eq!(decoded("[]"), None);
}

#[test]
fn plaintext_refused() {
    assert_eq!(decoded(""), None);
    assert_eq!(decoded("{}"), None);
    assert_eq!(decoded("{\"title\":\"a\"}"), None);
    assert_eq!(decoded("{\"title\":\"a\",\"title\":\"b\",\"content\":\"c\"}"), None);
    assert_eq!(decoded("{\"title\":\"a\",\"content\":\"b\",}"), None);
    assert_eq!(decoded("{\"title\":\"a\",\"content\":\"b\"} x"), None);
    assert_eq!(decoded("{\"title\":\"a\" \"content\":\"b\"}"), None);
    assert_eq!(decoded("{\"title\":1,\"content\":\"b\"}"), None);
    assert_eq!(decoded("{\"title\":\"\\ud800\",\"content\":\"b\"}"), None);
    assert_eq!(decoded("{\"title\":\"\\udc00\",\"content\":\"b\"}"), None);
    assert_eq!(decoded("{\"title\":\"\\x\",\"content\":\"b\"}"), None);
    assert_eq!(decoded("{\"title\":\"a\nb\",\"content\":\"c\"}"), None);
    assert_eq!(decoded("{\"title\":\"a\",\"content\":\"b\",\"x\":01}"), None);
    assert_eq!(decoded("{\"title\":\"a\",\"content\":\"b\",\"x\":1.}"), None);
    assert_eq!(decoded("{\"title\":\"a\",\"content\":\"b\",\"x\":[1,]}"), None);
    assert_eq!(decoded("{\"title\":\"a\",\"content\":\"b\",\"x\":nul}"), None);
    assert_eq!(decoded("{\"title\":\"a\",\"content\":\"b\",\"x\":{\"k\"}}"), None);
    assert_eq!(decoded("\"title\""), None);
}
