use mini_http::response::HttpResponse;

fn content_lengths(bytes: &[u8]) -> Vec<usize> {
    let end = bytes.windows(4).position(|w| w == b"\r\n\r\n").unwrap();
    let head = std::str::from_utf8(&bytes[..end]).unwrap();
    head.split("\r\n")
        .filter_map(|line| line.strip_prefix("Content-Length: "))
        .map(|value| value.parse::<usize>().unwrap())
        .collect()
}

#[test]
fn new_response_is_bare() {
    let response = HttpResponse::new("HTTP/1.1 200 OK\r\n");
    assert_eq!(response.status_line, "HTTP/1.1 200 OK\r\n");
    assert!(response.headers.is_empty());
    assert!(response.body.is_empty());
}

#[test]
fn with_header_appends() {
    let response = HttpResponse::new("HTTP/1.1 200 OK\r\n")
        .with_header("Content-Type", "text/plain")
        .with_header("X-A", "1")
        .with_header("Content-Type", "text/html");
    assert_eq!(
        response.headers,
        vec![
            ("Content-Type".to_string(), "text/plain".to_string()),
            ("X-A".to_string(), "1".to_string()),
            ("Content-Type".to_string(), "text/html".to_string()),
        ]
    );
    assert_eq!(response.status_line, "HTTP/1.1 200 OK\r\n");
    assert!(response.body.is_empty());
}

#[test]
fn with_body_replaces() {
    let response = HttpResponse::new("HTTP/1.1 200 OK\r\n")
        .with_header("A", "b")
        .with_body(b"first".to_vec())
        .with_body(b"second!".to_vec());
    assert_eq!(response.body, b"second!".to_vec());
    assert_eq!(response.headers, vec![("A".to_string(), "b".to_string())]);
    assert_eq!(response.status_line, "HTTP/1.1 200 OK\r\n");
}

#[test]
fn build_writes_the_parts_in_order() {
    let bytes = HttpResponse::new("HTTP/1.1 200 OK\r\n")
        .with_header("Content-Type", "text/plain")
        .with_header("X-Trace", "abc")
        .with_body(b"hello".to_vec())
        .build();
    assert_eq!(
        bytes,
        b"HTTP/1.1 200 OK\r\nContent-Type: text/plain\r\nX-Trace: abc\r\nContent-Length: 5\r\n\r\nhello"
            .to_vec()
    );
}

#[test]
fn build_without_headers_or_body() {
    let bytes = HttpResponse::new("HTTP/1.1 204 No Content\r\n").build();
    assert_eq!(bytes, b"HTTP/1.1 204 No Content\r\nContent-Length: 0\r\n\r\n".to_vec());
}

#[test]
fn build_takes_the_status_line_as_given() {
    let bytes = HttpResponse::new("no line end").with_body(b"x".to_vec()).build();
    assert_eq!(bytes, b"no line endContent-Length: 1\r\n\r\nx".to_vec());
}

#[test]
fn build_keeps_a_content_length_of_the_caller() {
    let bytes = HttpResponse::new("HTTP/1.1 200 OK\r\n")
        .with_header("Content-Length", "999")
        .with_body(b"abc".to_vec())
        .build();
    assert_eq!(
        bytes,
        b"HTTP/1.1 200 OK\r\nContent-Length: 999\r\nContent-Length: 3\r\n\r\nabc".to_vec()
    );
    assert_eq!(content_lengths(&bytes), vec![999, 3]);
}

#[test]
fn build_counts_bytes_not_characters() {
    let body = "\u{e9}\u{4e2d}\u{1f600}".as_bytes().to_vec();
    assert_eq!(body.len(), 9);
    let bytes = HttpResponse::new("HTTP/1.1 200 OK\r\n").with_body(body.clone()).build();
    let mut expected = b"HTTP/1.1 200 OK\r\nContent-Length: 9\r\n\r\n".to_vec();
    expected.extend_from_slice(&body);
    assert_eq!(bytes, expected);
}

#[test]
fn build_sends_any_bytes_as_body() {
    let body: Vec<u8> = vec![0, 255, 13, 10, 13, 10, 128, 7];
    let bytes = HttpResponse::new("HTTP/1.1 200 OK\r\n").with_body(body.clone()).build();
    let mut expected = b"HTTP/1.1 200 OK\r\nContent-Length: 8\r\n\r\n".to_vec();
    expected.extend_from_slice(&body);
    assert_eq!(bytes, expected);
}

#[test]
fn build_encodes_the_head_as_utf8() {
    let bytes = HttpResponse::new("HTTP/1.1 200 OK\r\n").with_header("X-Caf\u{e9}", "\u{4e2d}").build();
    assert_eq!(
        bytes,
        "HTTP/1.1 200 OK\r\nX-Caf\u{e9}: \u{4e2d}\r\nContent-Length: 0\r\n\r\n".as_bytes().to_vec()
    );
}

#[test]
fn content_length_is_the_length_of_the_body() {
    let mut len: usize = 0;
    while len <= 1200 {
        let body = vec![b'a'; len];
        let bytes = HttpResponse::new("HTTP/1.1 200 OK\r\n")
            .with_header("Content-Type", "text/plain")
            .with_body(body.clone())
            .build();
        assert_eq!(content_lengths(&bytes), vec![len]);
        assert!(bytes.ends_with(&body));
        let head = format!("HTTP/1.1 200 OK\r\nContent-Type: text/plain\r\nContent-Length: {}\r\n\r\n", len);
        assert_eq!(bytes.len(), head.len() + len);
        assert!(bytes.starts_with(head.as_bytes()));
        len += 7;
    }
}
