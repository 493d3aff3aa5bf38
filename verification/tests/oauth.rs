use caltui::oauth::{build_auth_url, extract_code, hex_val, percent_decode, percent_encode};

#[test]
fn percent_encode_keeps_unreserved_characters() {
    assert_eq!(percent_encode("AZaz09-_.~"), "AZaz09-_.~");
    assert_eq!(percent_encode("a b&c=d"), "a%20b%26c%3Dd");
    assert_eq!(percent_encode("http://localhost:8080"), "http%3A%2F%2Flocalhost%3A8080");
}

#[test]
fn percent_encode_uses_utf8_bytes() {
    assert_eq!(percent_encode("é"), "%C3%A9");
    assert_eq!(percent_encode(""), "");
}

#[test]
fn percent_decode_reads_escapes() {
    assert_eq!(percent_decode("4%2F0Ab%2b"), "4/0Ab+");
    assert_eq!(percent_decode("a%20b"), "a b");
    assert_eq!(percent_decode("100%"), "100%");
    assert_eq!(percent_decode("%zz"), "%zz");
    assert_eq!(percent_decode("%4"), "%4");
}

#[test]
fn percent_decode_undoes_percent_encode_on_ascii() {
    for s in ["", "plain", "a b/c?d=e&f", "~!*'();:@&=+$,/?#[]", "100% sure"] {
        assert_eq!(percent_decode(&percent_encode(s)), s);
    }
}

#[test]
fn hex_digits_in_both_cases() {
    assert_eq!(hex_val(b'0'), Some(0));
    assert_eq!(hex_val(b'9'), Some(9));
    assert_eq!(hex_val(b'a'), Some(10));
    assert_eq!(hex_val(b'F'), Some(15));
    assert_eq!(hex_val(b'g'), None);
}

#[test]
fn auth_url_asks_for_offline_read_only_access() {
    assert_eq!(
        build_auth_url("my id", "http://localhost:4321", "E9Melhoa2OwvFrEMTJguCHaoeK1t8URWbuGJSstw-cM"),
        "https://accounts.google.com/o/oauth2/v2/auth?client_id=my%20id&redirect_uri=http%3A%2F%2Flocalhost%3A4321&response_type=code&scope=https%3A%2F%2Fwww.googleapis.com%2Fauth%2Fcalendar.readonly&access_type=offline&prompt=consent&code_challenge=E9Melhoa2OwvFrEMTJguCHaoeK1t8URWbuGJSstw-cM&code_challenge_method=S256"
    );
}

#[test]
fn code_is_read_from_the_callback_request() {
    assert_eq!(
        extract_code("GET /?code=4%2F0AbC&scope=https%3A%2F%2Fx HTTP/1.1\r\n"),
        Some("4/0AbC".to_string())
    );
    assert_eq!(extract_code("GET /?state=1&code=xyz HTTP/1.1"), Some("xyz".to_string()));
    assert_eq!(extract_code("GET /?error=access_denied HTTP/1.1"), None);
    assert_eq!(extract_code("GET / HTTP/1.1"), None);
    assert_eq!(extract_code(""), None);
}

#[test]
fn a_code_reads_back_from_its_callback() {
    for code in ["4/0AbC-xyz", "a b&c?d=e", "", "%41"] {
        let line = format!("GET /?code={} HTTP/1.1", percent_encode(code));
        assert_eq!(extract_code(&line), Some(code.to_string()));
    }
}

#[test]
fn a_code_reads_back_from_any_query() {
    let line = format!("GET /?state=9&scope=x&code={}&code=other HTTP/1.1", percent_encode("4/0A b"));
    assert_eq!(extract_code(&line), Some("4/0A b".to_string()));
}
