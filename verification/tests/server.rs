use mini_http::router::respond;
use mini_http::server::{ADDRESS, IO_TIMEOUT_SECS, READ_BUFFER_SIZE};

#[test]
fn settings_are_fixed() {
    assert_eq!(ADDRESS, "127.0.0.1:8080");
    assert_eq!(READ_BUFFER_SIZE, 1024);
    assert_eq!(IO_TIMEOUT_SECS, 5);
}

#[test]
fn a_request_cut_off_by_the_buffer_is_answered_as_far_as_it_was_read() {
    let mut sent = b"POST /echo HTTP/1.1\r\nAuthorization: Bearer secret-token\r\n\r\n".to_vec();
    let head = sent.len();
    while sent.len() < 3 * READ_BUFFER_SIZE {
        sent.push(b'a' + (sent.len() % 26) as u8);
    }
    let read = &sent[..READ_BUFFER_SIZE];
    let answer = respond(read).unwrap();
    let body = &read[head..];
    let mut expected = format!(
        "HTTP/1.1 200 OK\r\nContent-Type: application/json\r\nContent-Length: {}\r\n\r\n",
        READ_BUFFER_SIZE - head
    )
    .into_bytes();
    expected.extend_from_slice(body);
    assert_eq!(answer, expected);
}

#[test]
fn a_read_of_nothing_gets_no_answer() {
    let buffer = [0u8; READ_BUFFER_SIZE];
    assert!(respond(&buffer[..0]).is_none());
}
