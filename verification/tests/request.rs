use mini_http::request::HttpRequest;

fn pair(key: &str, value: &str) -> (String, String) {
    (key.to_string(), value.to_string())
}

#[test]
fn parse_request_line_only() {
    let request = HttpRequest::parse(b"GET / HTTP/1.1\r\n\r\n").unwrap();
    assert_eq!(request.method, "GET");
    assert_eq!(request.path, "/");
    assert!(request.headers.is_empty());
    assert!(request.body.is_empty());
}

#[test]
fn parse_headers_and_body() {
    let raw = b"POST /echo HTTP/1.1\r\nHost: localhost:8080\r\nAuthorization: Bearer secret-token\r\nContent-Length: 16\r\n\r\n{\"hello\": \"you\"}";
    let request = HttpRequest::parse(raw).unwrap();
    assert_eq!(request.method, "POST");
    assert_eq!(request.path, "/echo");
    assert_eq!(
        request.headers,
        vec![
            pair("Host", "localhost:8080"),
            pair("Authorization", "Bearer secret-token"),
            pair("Content-Length", "16"),
        ]
    );
    assert_eq!(request.body, b"{\"hello\": \"you\"}".to_vec());
}

#[test]
fn parse_fails_on_fewer_than_two_words() {
    assert!(HttpRequest::parse(b"").is_none());
    assert!(HttpRequest::parse(b"GET").is_none());
    assert!(HttpRequest::parse(b"GET\r\n/ HTTP/1.1\r\n\r\n").is_none());
    assert!(HttpRequest::parse(b"   \r\nHost: x\r\n\r\n").is_none());
    assert!(HttpRequest::parse(b"\r\nGET / HTTP/1.1\r\n\r\n").is_none());
    assert!(HttpRequest::parse(b"GET\t\r\n").is_none());
}

#[test]
fn parse_takes_two_words_and_ignores_the_rest() {
    let request = HttpRequest::parse(b"GET /").unwrap();
    assert_eq!(request.method, "GET");
    assert_eq!(request.path, "/");
    let request = HttpRequest::parse(b"  BREW\t/pot   HTCPCP/1.0 and more\r\n").unwrap();
    assert_eq!(request.method, "BREW");
    assert_eq!(request.path, "/pot");
    assert!(request.headers.is_empty());
    assert!(request.body.is_empty());
}

#[test]
fn parse_does_not_validate_method_or_path() {
    let request = HttpRequest::parse(b"get no-slash?x=%20&y=1 whatever\r\n\r\n").unwrap();
    assert_eq!(request.method, "get");
    assert_eq!(request.path, "no-slash?x=%20&y=1");
}

#[test]
fn parse_skips_lines_without_separator() {
    let raw = b"GET / HTTP/1.1\r\nHost:localhost\r\nAccept: */*\r\nnonsense\r\nX-A :b\r\n\r\n";
    let request = HttpRequest::parse(raw).unwrap();
    assert_eq!(request.headers, vec![pair("Accept", "*/*")]);
    assert!(request.body.is_empty());
}

#[test]
fn parse_splits_a_header_at_the_first_separator() {
    let raw = b"GET / HTTP/1.1\r\nX-Note: a: b: c\r\n: lonely\r\nEmpty: \r\n\r\n";
    let request = HttpRequest::parse(raw).unwrap();
    assert_eq!(
        request.headers,
        vec![pair("X-Note", "a: b: c"), pair("", "lonely"), pair("Empty", "")]
    );
}

#[test]
fn parse_keeps_duplicates_in_order() {
    let raw = b"GET / HTTP/1.1\r\nSet: 1\r\nOther: x\r\nSet: 2\r\nSet: 1\r\n\r\n";
    let request = HttpRequest::parse(raw).unwrap();
    assert_eq!(
        request.headers,
        vec![pair("Set", "1"), pair("Other", "x"), pair("Set", "2"), pair("Set", "1")]
    );
}

#[test]
fn parse_takes_one_line_as_the_body() {
    let raw = b"POST /echo HTTP/1.1\r\nA: b\r\n\r\nfirst\r\nsecond\r\nthird";
    let request = HttpRequest::parse(raw).unwrap();
    assert_eq!(request.body, b"first".to_vec());
}

#[test]
fn parse_body_may_hold_lone_cr_and_lf() {
    let raw = b"POST /echo HTTP/1.1\r\n\r\nline\none\rstill\n\r";
    let request = HttpRequest::parse(raw).unwrap();
    assert_eq!(request.body, b"line\none\rstill\n\r".to_vec());
}

#[test]
fn parse_without_empty_line_has_no_body() {
    let request = HttpRequest::parse(b"GET / HTTP/1.1\r\nHost: x\r\nAccept: y").unwrap();
    assert_eq!(request.headers, vec![pair("Host", "x"), pair("Accept", "y")]);
    assert!(request.body.is_empty());
    let request = HttpRequest::parse(b"GET / HTTP/1.1\r\nHost: x\r\n").unwrap();
    assert_eq!(request.headers, vec![pair("Host", "x")]);
    assert!(request.body.is_empty());
}

#[test]
fn parse_stops_reading_headers_at_the_empty_line() {
    let raw = b"GET / HTTP/1.1\r\nA: 1\r\n\r\nB: 2\r\nC: 3\r\n";
    let request = HttpRequest::parse(raw).unwrap();
    assert_eq!(request.headers, vec![pair("A", "1")]);
    assert_eq!(request.body, b"B: 2".to_vec());
}

#[test]
fn parse_empty_line_right_after_request_line() {
    let request = HttpRequest::parse(b"POST /echo HTTP/1.1\r\n\r\npayload").unwrap();
    assert!(request.headers.is_empty());
    assert_eq!(request.body, b"payload".to_vec());
    let request = HttpRequest::parse(b"POST /echo HTTP/1.1\r\n\r\n\r\npayload").unwrap();
    assert!(request.body.is_empty());
}

#[test]
fn parse_replaces_invalid_bytes() {
    let request = HttpRequest::parse(b"GET /\xff\xfe HTTP/1.1\r\nX: \xc3\r\n\r\n\x80z").unwrap();
    assert_eq!(request.method, "GET");
    assert_eq!(request.path, "/\u{fffd}\u{fffd}");
    assert_eq!(request.headers, vec![pair("X", "\u{fffd}")]);
    assert_eq!(request.body, vec![0xef, 0xbf, 0xbd, b'z']);
}

#[test]
fn parse_keeps_valid_utf8() {
    let raw = "GET /caf\u{e9} HTTP/1.1\r\nX-Name: \u{4e2d}\u{6587}\r\n\r\n\u{1f600}".as_bytes();
    let request = HttpRequest::parse(raw).unwrap();
    assert_eq!(request.path, "/caf\u{e9}");
    assert_eq!(request.headers, vec![pair("X-Name", "\u{4e2d}\u{6587}")]);
    assert_eq!(request.body, "\u{1f600}".as_bytes().to_vec());
}

#[test]
fn parse_treats_unicode_whitespace_as_whitespace() {
    let raw = "GET\u{a0}/a\u{3000}HTTP/1.1\r\n\r\n".as_bytes();
    let request = HttpRequest::parse(raw).unwrap();
    assert_eq!(request.method, "GET");
    assert_eq!(request.path, "/a");
}

#[test]
fn parse_lone_lf_does_not_end_a_line() {
    let request = HttpRequest::parse(b"GET / HTTP/1.1\nHost: x\n\nbody").unwrap();
    assert_eq!(request.method, "GET");
    assert_eq!(request.path, "/");
    assert!(request.headers.is_empty());
    assert!(request.body.is_empty());
}

#[test]
fn parse_text_agrees_with_parse() {
    let text = "PUT /thing?id=3 HTTP/1.1\r\nA: b\r\nno-colon\r\n\r\n{\"k\": 1}\r\nrest";
    let from_text = HttpRequest::parse_text(text).unwrap();
    let from_bytes = HttpRequest::parse(text.as_bytes()).unwrap();
    assert_eq!(from_text.method, "PUT");
    assert_eq!(from_text.path, "/thing?id=3");
    assert_eq!(from_text.headers, vec![pair("A", "b")]);
    assert_eq!(from_text.body, b"{\"k\": 1}".to_vec());
    assert_eq!(from_text.method, from_bytes.method);
    assert_eq!(from_text.path, from_bytes.path);
    assert_eq!(from_text.headers, from_bytes.headers);
    assert_eq!(from_text.body, from_bytes.body);
    assert!(HttpRequest::parse_text("").is_none());
    assert!(HttpRequest::parse_text("one-word\r\n\r\n").is_none());
}

#[test]
fn parse_a_full_read_buffer() {
    let mut raw = b"GET /long HTTP/1.1\r\n".to_vec();
    while raw.len() + 8 <= 1024 {
        raw.extend_from_slice(b"K: vvv\r\n");
    }
    while raw.len() < 1024 {
        raw.push(b'x');
    }
    assert_eq!(raw.len(), 1024);
    let request = HttpRequest::parse(&raw).unwrap();
    assert_eq!(request.path, "/long");
    assert_eq!(request.headers.len(), 125);
    assert!(request.headers.iter().all(|h| h.0 == "K" && h.1 == "vvv"));
    assert!(request.body.is_empty());
}
