//! The routing table: which response answers which request.

use crate::decimal::{decimal_value, digit};
use crate::lossy::{decode_lossy, lossy_text};
use crate::request::{
    lemma_parse_request_text, request_text, spec_parse, well_formed, HttpRequest, RequestView,
};
use crate::response::{
    lemma_content_length_is_body_length, sent_headers, serialize, status_code, HttpResponse,
    ResponseView,
};
use crate::text::{free_of, lemma_split_free, spec_split_whitespace, str_eq, word_len};
use vstd::prelude::*;
use vstd::string::StrSliceExecFns;
use vstd::utf8::*;

verus! {

/// The status line of a response that grants what was asked.
pub const HTTP_OK: &'static str = "HTTP/1.1 200 OK\r\n";

/// The status line of a response to a request without the credential.
pub const HTTP_UNAUTHORIZED: &'static str = "HTTP/1.1 401 Unauthorized\r\n";

/// The status line of a response to a `GET` of an unknown path.
pub const HTTP_NOT_FOUND: &'static str = "HTTP/1.1 404 Not Found\r\n";

/// The status line of a response to a method that the table does not serve.
pub const HTTP_METHOD_NOT_ALLOWED: &'static str = "HTTP/1.1 405 Method Not Allowed\r\n";

/// The body that `GET /` is answered with.
pub const WELCOME_PAGE: &'static str = "<h1>Welcome to Rust HTTP Server!</h1>";

/// The body that `GET /health` is answered with.
pub const HEALTH_REPORT: &'static str = "{\"status\": \"healthy\"}";

/// The body that goes with [`HTTP_UNAUTHORIZED`].
pub const UNAUTHORIZED_MESSAGE: &'static str = "Unauthorized";

/// The body that goes with [`HTTP_NOT_FOUND`].
pub const NOT_FOUND_MESSAGE: &'static str = "404 - Not Found";

/// The body that goes with [`HTTP_METHOD_NOT_ALLOWED`].
pub const METHOD_NOT_ALLOWED_MESSAGE: &'static str = "405 - Method Not Allowed";

/// The header that carries a client's credential.
pub const AUTHORIZATION: &'static str = "Authorization";

/// The one credential that opens the echo route.
pub const CREDENTIAL: &'static str = "Bearer secret-token";

/// The rows of the routing table, in the order in which they are tried.
#[derive(Clone, Copy, Debug, PartialEq, Eq)]
pub enum Route {
    /// `GET /`
    Welcome,
    /// `POST /echo`
    Echo,
    /// `GET /health`
    Health,
    /// `GET` of any other path
    NotFound,
    /// everything else
    MethodNotAllowed,
}

/// The first row that a method and a path match. Both are compared as they
/// stand: case matters, and a query string is part of the path.
pub open spec fn spec_classify(method: Seq<char>, path: Seq<char>) -> Route {
    if method == "GET"@ && path == "/"@ {
        Route::Welcome
    } else if method == "POST"@ && path == "/echo"@ {
        Route::Echo
    } else if method == "GET"@ && path == "/health"@ {
        Route::Health
    } else if method == "GET"@ {
        Route::NotFound
    } else {
        Route::MethodNotAllowed
    }
}

/// Whether some header is `Authorization` with exactly the credential as
/// its value.
pub open spec fn spec_is_authorized(headers: Seq<(Seq<char>, Seq<char>)>) -> bool {
    headers.contains((AUTHORIZATION@, CREDENTIAL@))
}

/// A response with a status line, a `Content-Type` and a body.
pub open spec fn spec_reply(status_line: Seq<char>, content_type: Seq<char>, body: Seq<u8>)
    -> ResponseView {
    ResponseView { status_line, headers: seq![("Content-Type"@, content_type)], body }
}

/// The response that answers a request: what the first matching row of the
/// table says. Only the echo looks at the headers and the body.
pub open spec fn spec_route(q: RequestView) -> ResponseView {
    match spec_classify(q.method, q.path) {
        Route::Welcome => spec_reply(HTTP_OK@, "text/html"@, encode_utf8(WELCOME_PAGE@)),
        Route::Echo => if spec_is_authorized(q.headers) {
            spec_reply(HTTP_OK@, "application/json"@, q.body)
        } else {
            spec_reply(HTTP_UNAUTHORIZED@, "text/plain"@, encode_utf8(UNAUTHORIZED_MESSAGE@))
        },
        Route::Health => spec_reply(HTTP_OK@, "application/json"@, encode_utf8(HEALTH_REPORT@)),
        Route::NotFound => spec_reply(
            HTTP_NOT_FOUND@,
            "text/plain"@,
            encode_utf8(NOT_FOUND_MESSAGE@),
        ),
        Route::MethodNotAllowed => spec_reply(
            HTTP_METHOD_NOT_ALLOWED@,
            "text/plain"@,
            encode_utf8(METHOD_NOT_ALLOWED_MESSAGE@),
        ),
    }
}

/// The bytes that answer a request text, or `None` where the text holds no
/// request: then nothing is sent.
pub open spec fn spec_respond(text: Seq<char>) -> Option<Seq<u8>> {
    match spec_parse(text) {
        Some(q) => Some(serialize(spec_route(q))),
        None => None,
    }
}

/// Finds the row for a method and a path.
pub fn classify(method: &str, path: &str) -> (route: Route)
    ensures
        route == spec_classify(method@, path@),
{
    let get = str_eq(method, "GET");
    if get && str_eq(path, "/") {
        Route::Welcome
    } else if str_eq(method, "POST") && str_eq(path, "/echo") {
        Route::Echo
    } else if get && str_eq(path, "/health") {
        Route::Health
    } else if get {
        Route::NotFound
    } else {
        Route::MethodNotAllowed
    }
}

/// Looks through the headers for the credential.
pub fn is_authorized(headers: &Vec<(String, String)>) -> (authorized: bool)
    ensures
        authorized == spec_is_authorized(headers.deep_view()),
{
    let mut i: usize = 0;
    while i < headers.len()
        invariant
            i <= headers.len(),
            forall|j: int| 0 <= j < i ==> headers.deep_view()[j] != (AUTHORIZATION@, CREDENTIAL@),
        decreases headers.len() - i,
    {
        let key = headers[i].0.as_str();
        let value = headers[i].1.as_str();
        if str_eq(key, AUTHORIZATION) && str_eq(value, CREDENTIAL) {
            assert(headers.deep_view()[i as int] == (AUTHORIZATION@, CREDENTIAL@));
            return true;
        }
        i += 1;
    }
    false
}

/// Builds a [`spec_reply`].
fn reply(status_line: &str, content_type: &str, body: Vec<u8>) -> (response: HttpResponse)
    ensures
        response@ == spec_reply(status_line@, content_type@, body@),
{
    let response = HttpResponse::new(status_line)
        .with_header("Content-Type", content_type)
        .with_body(body);
    response
}

/// Answers a request.
pub fn route(request: HttpRequest) -> (response: HttpResponse)
    ensures
        response@ == spec_route(request@),
{
    match classify(request.method.as_str(), request.path.as_str()) {
        Route::Welcome => reply(HTTP_OK, "text/html", WELCOME_PAGE.as_bytes_vec()),
        Route::Echo => {
            if is_authorized(&request.headers) {
                reply(HTTP_OK, "application/json", request.body)
            } else {
                reply(HTTP_UNAUTHORIZED, "text/plain", UNAUTHORIZED_MESSAGE.as_bytes_vec())
            }
        },
        Route::Health => reply(HTTP_OK, "application/json", HEALTH_REPORT.as_bytes_vec()),
        Route::NotFound => reply(HTTP_NOT_FOUND, "text/plain", NOT_FOUND_MESSAGE.as_bytes_vec()),
        Route::MethodNotAllowed => reply(
            HTTP_METHOD_NOT_ALLOWED,
            "text/plain",
            METHOD_NOT_ALLOWED_MESSAGE.as_bytes_vec(),
        ),
    }
}

/// Answers a request that is already text.
pub fn respond_to_text(text: &str) -> (answer: Option<Vec<u8>>)
    ensures
        match answer {
            Some(bytes) => spec_respond(text@) == Some(bytes@),
            None => spec_respond(text@) is None,
        },
{
    match HttpRequest::parse_text(text) {
        Some(request) => Some(route(request).build()),
        None => None,
    }
}

/// Answers what was read from a connection: the bytes to write back, or
/// `None` where the connection is to be dropped without an answer. Bytes
/// that are not valid UTF-8 are first replaced as `String::from_utf8_lossy`
/// does it.
pub fn respond(raw_request: &[u8]) -> (answer: Option<Vec<u8>>)
    ensures
        match answer {
            Some(bytes) => spec_respond(lossy_text(raw_request@)) == Some(bytes@),
            None => spec_respond(lossy_text(raw_request@)) is None,
        },
        valid_utf8(raw_request@) ==> match answer {
            Some(bytes) => spec_respond(decode_utf8(raw_request@)) == Some(bytes@),
            None => spec_respond(decode_utf8(raw_request@)) is None,
        },
{
    let text = decode_lossy(raw_request);
    respond_to_text(text.as_str())
}

/// The methods and the paths of the table are all different.
proof fn lemma_literals_differ()
    ensures
        "GET"@ != "POST"@,
        "/"@ != "/echo"@,
        "/"@ != "/health"@,
        "/echo"@ != "/health"@,
{
    reveal_strlit("GET");
    reveal_strlit("POST");
    reveal_strlit("/");
    reveal_strlit("/echo");
    reveal_strlit("/health");
    assert("GET"@.len() == 3 && "POST"@.len() == 4);
    assert("/"@.len() == 1 && "/echo"@.len() == 5 && "/health"@.len() == 7);
}

/// The routing table, row by row: the status code, the one header and the
/// body of the response to each kind of request.
pub proof fn lemma_routing_table(q: RequestView)
    ensures
        q.method == "GET"@ && q.path == "/"@ ==> {
            &&& status_code(spec_route(q).status_line) == 200
            &&& spec_route(q).headers == seq![("Content-Type"@, "text/html"@)]
            &&& spec_route(q).body == encode_utf8("<h1>Welcome to Rust HTTP Server!</h1>"@)
        },
        q.method == "POST"@ && q.path == "/echo"@ && spec_is_authorized(q.headers) ==> {
            &&& status_code(spec_route(q).status_line) == 200
            &&& spec_route(q).headers == seq![("Content-Type"@, "application/json"@)]
            &&& spec_route(q).body == q.body
        },
        q.method == "POST"@ && q.path == "/echo"@ && !spec_is_authorized(q.headers) ==> {
            &&& status_code(spec_route(q).status_line) == 401
            &&& spec_route(q).headers == seq![("Content-Type"@, "text/plain"@)]
            &&& spec_route(q).body == encode_utf8("Unauthorized"@)
        },
        q.method == "GET"@ && q.path == "/health"@ ==> {
            &&& status_code(spec_route(q).status_line) == 200
            &&& spec_route(q).headers == seq![("Content-Type"@, "application/json"@)]
            &&& spec_route(q).body == encode_utf8("{\"status\": \"healthy\"}"@)
        },
        q.method == "GET"@ && q.path != "/"@ && q.path != "/health"@ ==> {
            &&& status_code(spec_route(q).status_line) == 404
            &&& spec_route(q).headers == seq![("Content-Type"@, "text/plain"@)]
            &&& spec_route(q).body == encode_utf8("404 - Not Found"@)
        },
        q.method != "GET"@ && !(q.method == "POST"@ && q.path == "/echo"@) ==> {
            &&& status_code(spec_route(q).status_line) == 405
            &&& spec_route(q).headers == seq![("Content-Type"@, "text/plain"@)]
            &&& spec_route(q).body == encode_utf8("405 - Method Not Allowed"@)
        },
{
    lemma_literals_differ();
    lemma_status_codes();
}

/// `POST /echo` with the credential among its headers is answered with 200
/// and with the request's own body, whatever that body is; the bytes sent
/// end with it.
pub proof fn lemma_echo_returns_body(q: RequestView)
    requires
        q.method == "POST"@,
        q.path == "/echo"@,
        q.headers.contains(("Authorization"@, "Bearer secret-token"@)),
    ensures
        status_code(spec_route(q).status_line) == 200,
        spec_route(q).body == q.body,
        serialize(spec_route(q)).skip(serialize(spec_route(q)).len() - q.body.len()) == q.body,
{
    lemma_routing_table(q);
    lemma_content_length_is_body_length(spec_route(q));
}

/// `POST /echo` without the credential is answered with 401, whatever the
/// body: no header is `Authorization`, or none that is has the right value.
pub proof fn lemma_echo_needs_credential(q: RequestView)
    requires
        q.method == "POST"@,
        q.path == "/echo"@,
        forall|i: int|
            0 <= i < q.headers.len() ==> (#[trigger] q.headers[i]).0 != "Authorization"@
                || q.headers[i].1 != "Bearer secret-token"@,
    ensures
        status_code(spec_route(q).status_line) == 401,
        spec_route(q).headers == seq![("Content-Type"@, "text/plain"@)],
        spec_route(q).body == encode_utf8("Unauthorized"@),
{
    lemma_routing_table(q);
}

/// A `GET` of a path that the table does not name is answered with 404.
pub proof fn lemma_unmapped_get_is_not_found(q: RequestView)
    requires
        q.method == "GET"@,
        q.path != "/"@,
        q.path != "/health"@,
    ensures
        status_code(spec_route(q).status_line) == 404,
{
    lemma_routing_table(q);
}

/// Any other method, and `POST` of any path but `/echo`, is answered with
/// 405.
pub proof fn lemma_other_method_is_not_allowed(q: RequestView)
    requires
        q.method != "GET"@,
        q.method != "POST"@ || q.path != "/echo"@,
    ensures
        status_code(spec_route(q).status_line) == 405,
{
    lemma_routing_table(q);
}

/// Every answer sends two headers: its `Content-Type`, and one
/// `Content-Length` that gives the length of its body.
pub proof fn lemma_answer_headers(q: RequestView)
    ensures
        ({
            let answer = spec_route(q);
            &&& sent_headers(answer).len() == 2
            &&& sent_headers(answer)[0].0 == "Content-Type"@
            &&& sent_headers(answer)[1].0 == "Content-Length"@
            &&& "Content-Type"@ != "Content-Length"@
            &&& decimal_value(sent_headers(answer)[1].1) == answer.body.len()
        }),
{
    reveal_strlit("Content-Type");
    reveal_strlit("Content-Length");
    lemma_content_length_is_body_length(spec_route(q));
}

/// The whole exchange: the text of a well-formed request is answered with
/// the bytes of the response that the table gives for its method, path,
/// headers and body. Sent as UTF-8, the text is read as it was written.
pub proof fn lemma_respond_to_request_text(
    method: Seq<char>,
    path: Seq<char>,
    version: Seq<char>,
    headers: Seq<(Seq<char>, Seq<char>)>,
    body: Seq<char>,
)
    requires
        well_formed(method, path, version, headers, body),
    ensures
        ({
            let text = request_text(method, path, version, headers, body);
            let request = RequestView { method, path, headers, body: encode_utf8(body) };
            &&& valid_utf8(encode_utf8(text))
            &&& decode_utf8(encode_utf8(text)) == text
            &&& spec_respond(text) == Some(serialize(spec_route(request)))
        }),
{
    let text = request_text(method, path, version, headers, body);
    lemma_parse_request_text(method, path, version, headers, body);
    encode_utf8_valid_utf8(text);
    encode_utf8_decode_utf8(text);
}

/// The echo on the wire: a well-formed `POST /echo` that carries the
/// credential is answered with 200 and, after the head, with its own body.
pub proof fn lemma_echo_round_trip(
    version: Seq<char>,
    headers: Seq<(Seq<char>, Seq<char>)>,
    body: Seq<char>,
)
    requires
        well_formed("POST"@, "/echo"@, version, headers, body),
        headers.contains(("Authorization"@, "Bearer secret-token"@)),
    ensures
        spec_respond(request_text("POST"@, "/echo"@, version, headers, body)) == Some(
            serialize(
                spec_reply("HTTP/1.1 200 OK\r\n"@, "application/json"@, encode_utf8(body)),
            ),
        ),
{
    lemma_respond_to_request_text("POST"@, "/echo"@, version, headers, body);
    lemma_literals_differ();
}

/// A read that gave no bytes gets no answer.
pub proof fn lemma_empty_read_gets_no_answer()
    ensures
        valid_utf8(Seq::<u8>::empty()),
        decode_utf8(Seq::<u8>::empty()) == Seq::<char>::empty(),
        spec_respond(Seq::<char>::empty()) is None,
{
    reveal_strlit("\r\n");
    lemma_split_free(Seq::<char>::empty(), "\r\n"@);
}

/// The status lines of the table carry the codes 200, 401, 404 and 405.
pub proof fn lemma_status_codes()
    ensures
        status_code(HTTP_OK@) == 200,
        status_code(HTTP_UNAUTHORIZED@) == 401,
        status_code(HTTP_NOT_FOUND@) == 404,
        status_code(HTTP_METHOD_NOT_ALLOWED@) == 405,
{
    reveal_strlit("HTTP/1.1 200 OK\r\n");
    reveal_strlit("HTTP/1.1 401 Unauthorized\r\n");
    reveal_strlit("HTTP/1.1 404 Not Found\r\n");
    reveal_strlit("HTTP/1.1 405 Method Not Allowed\r\n");
    reveal_strlit("HTTP/1.1 ");
    assert(HTTP_OK@.take(9) =~= "HTTP/1.1 "@);
    assert(HTTP_UNAUTHORIZED@.take(9) =~= "HTTP/1.1 "@);
    assert(HTTP_NOT_FOUND@.take(9) =~= "HTTP/1.1 "@);
    assert(HTTP_METHOD_NOT_ALLOWED@.take(9) =~= "HTTP/1.1 "@);
    lemma_status_code_of(HTTP_OK@, 2, 0, 0);
    lemma_status_code_of(HTTP_UNAUTHORIZED@, 4, 0, 1);
    lemma_status_code_of(HTTP_NOT_FOUND@, 4, 0, 4);
    lemma_status_code_of(HTTP_METHOD_NOT_ALLOWED@, 4, 0, 5);
}

/// The code of a status line that begins with `HTTP/1.1 ` and three digits.
proof fn lemma_status_code_of(line: Seq<char>, a: int, b: int, c: int)
    requires
        0 <= a < 10,
        0 <= b < 10,
        0 <= c < 10,
        line.len() >= 13,
        line.take(9) == "HTTP/1.1 "@,
        line[9] == digit(a),
        line[10] == digit(b),
        line[11] == digit(c),
        line[12] == ' ',
    ensures
        status_code(line) == 100 * a + 10 * b + c,
{
    reveal_strlit("HTTP/1.1 ");
    reveal_with_fuel(word_len, 9);
    reveal_with_fuel(spec_split_whitespace, 3);
    reveal_with_fuel(decimal_value, 4);
    let version = line.take(9);
    assert forall|i: int| 0 <= i < 9 implies line[i] == version[i] by {}
    assert(spec_split_whitespace(line)[1] == line.skip(8).drop_first().take(3));
}

} // verus!
