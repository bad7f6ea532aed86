//! The response: a status line, headers and a body, built up step by step
//! and then written out as bytes.

use crate::decimal::{append_decimal, decimal, decimal_value, is_decimal, lemma_decimal_value};
use crate::header::{header_line, header_lines};
use crate::text::spec_split_whitespace;
use vstd::prelude::*;
use vstd::string::{StrSliceExecFns, StringExecFns};
use vstd::utf8::*;

verus! {

/// A response under construction. The status line holds the protocol
/// version, the code, the reason and the line's own CR LF.
pub struct HttpResponse {
    pub status_line: String,
    pub headers: Vec<(String, String)>,
    pub body: Vec<u8>,
}

/// The mathematical value of an [`HttpResponse`].
pub ghost struct ResponseView {
    pub status_line: Seq<char>,
    pub headers: Seq<(Seq<char>, Seq<char>)>,
    pub body: Seq<u8>,
}

impl View for HttpResponse {
    type V = ResponseView;

    open spec fn view(&self) -> ResponseView {
        ResponseView {
            status_line: self.status_line@,
            headers: self.headers.deep_view(),
            body: self.body@,
        }
    }
}

/// The status code of a status line: the number that is its second word.
pub open spec fn status_code(status_line: Seq<char>) -> int
    recommends
        spec_split_whitespace(status_line).len() >= 2,
{
    decimal_value(spec_split_whitespace(status_line)[1])
}

/// The headers that a response sends: those attached to it, in the order
/// of attachment, and after them a `Content-Length` that gives the length
/// of the body in decimal. A `Content-Length` among the attached headers is
/// sent as it is, beside the computed one.
pub open spec fn sent_headers(r: ResponseView) -> Seq<(Seq<char>, Seq<char>)> {
    r.headers.push(("Content-Length"@, decimal(r.body.len())))
}

/// The head of a response: the status line, the header lines and an empty
/// line.
pub open spec fn head(r: ResponseView) -> Seq<char> {
    r.status_line + header_lines(sent_headers(r)) + "\r\n"@
}

/// The bytes of a response: its head in UTF-8, then the body as it is.
pub open spec fn serialize(r: ResponseView) -> Seq<u8> {
    encode_utf8(head(r)) + r.body
}

/// The last header that a response sends is `Content-Length`; its value is
/// a decimal number, and that number is the length of the body, which is
/// what follows the head.
pub proof fn lemma_content_length_is_body_length(r: ResponseView)
    ensures
        sent_headers(r).last().0 == "Content-Length"@,
        is_decimal(sent_headers(r).last().1),
        decimal_value(sent_headers(r).last().1) == r.body.len(),
        serialize(r).len() == encode_utf8(head(r)).len() + r.body.len(),
        serialize(r).skip(encode_utf8(head(r)).len() as int) == r.body,
{
    lemma_decimal_value(r.body.len());
}

impl HttpResponse {
    /// A response with the given status line, no headers and an empty body.
    pub fn new(status_line: &str) -> (response: HttpResponse)
        ensures
            response@ == (ResponseView {
                status_line: status_line@,
                headers: Seq::empty(),
                body: Seq::empty(),
            }),
    {
        let response = HttpResponse {
            status_line: status_line.to_owned(),
            headers: Vec::new(),
            body: Vec::new(),
        };
        assert(response.headers.deep_view() =~= Seq::empty());
        response
    }

    /// The same response with one more header, after those it has.
    pub fn with_header(self, key: &str, value: &str) -> (response: HttpResponse)
        ensures
            response@ == (ResponseView {
                headers: self@.headers.push((key@, value@)),
                ..self@
            }),
    {
        let mut response = self;
        response.headers.push((key.to_owned(), value.to_owned()));
        assert(response.headers.deep_view() =~= self.headers.deep_view().push((key@, value@)));
        response
    }

    /// The same response with `body` in place of the body it had.
    pub fn with_body(self, body: Vec<u8>) -> (response: HttpResponse)
        ensures
            response@ == (ResponseView { body: body@, ..self@ }),
    {
        let mut response = self;
        response.body = body;
        response
    }

    /// The bytes to send.
    pub fn build(self) -> (bytes: Vec<u8>)
        ensures
            bytes@ == serialize(self@),
    {
        let mut text = self.status_line;
        let mut i: usize = 0;
        while i < self.headers.len()
            invariant
                i <= self.headers.len(),
                text@ == self@.status_line + header_lines(self@.headers.take(i as int)),
            decreases self.headers.len() - i,
        {
            let ghost sent = self@.headers.take(i + 1);
            assert(sent.drop_last() =~= self@.headers.take(i as int));
            text.append(self.headers[i].0.as_str());
            text.append(": ");
            text.append(self.headers[i].1.as_str());
            text.append("\r\n");
            i += 1;
        }
        assert(self@.headers.take(i as int) =~= self@.headers);
        assert(sent_headers(self@).drop_last() =~= self@.headers);
        text.append("Content-Length");
        text.append(": ");
        append_decimal(&mut text, self.body.len());
        text.append("\r\n");
        text.append("\r\n");
        assert(text@ =~= head(self@));
        let mut bytes = text.as_str().as_bytes_vec();
        let mut body = self.body;
        bytes.append(&mut body);
        bytes
    }
}

} // verus!
