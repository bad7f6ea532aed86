//! The request: what a client sent, as far as this server reads it.

use crate::header::{field_text, header_lines, lemma_header_lines_first};
use crate::lossy::{decode_lossy, lossy_text};
use crate::text::{
    free_of, is_whitespace, is_word, lemma_free_of_concat, lemma_split_first, lemma_split_free,
    lemma_split_nonempty, lemma_split_once_first, lemma_split_whitespace_first,
    lemma_split_whitespace_words, occurs_at, spec_split, spec_split_once, spec_split_whitespace,
    split, split_once, split_whitespace,
};
use vstd::prelude::*;
use vstd::string::StrSliceExecFns;
use vstd::utf8::*;

verus! {

/// A parsed request. The path keeps its query string and is not decoded;
/// headers keep their order and their duplicates.
#[derive(Debug)]
pub struct HttpRequest {
    pub method: String,
    pub path: String,
    pub headers: Vec<(String, String)>,
    pub body: Vec<u8>,
}

/// The mathematical value of an [`HttpRequest`].
pub ghost struct RequestView {
    pub method: Seq<char>,
    pub path: Seq<char>,
    pub headers: Seq<(Seq<char>, Seq<char>)>,
    pub body: Seq<u8>,
}

impl View for HttpRequest {
    type V = RequestView;

    open spec fn view(&self) -> RequestView {
        RequestView {
            method: self.method@,
            path: self.path@,
            headers: self.headers.deep_view(),
            body: self.body@,
        }
    }
}

impl DeepView for HttpRequest {
    type V = RequestView;

    open spec fn deep_view(&self) -> RequestView {
        self@
    }
}

/// The index of the first empty line at or after `from`, or the number of
/// lines where there is none.
pub open spec fn header_block_end(lines: Seq<Seq<char>>, from: int) -> int
    decreases lines.len() - from,
{
    if from < 0 || from >= lines.len() {
        lines.len() as int
    } else if lines[from].len() == 0 {
        from
    } else {
        header_block_end(lines, from + 1)
    }
}

/// The header fields that a block of lines holds: each line with a `": "`
/// gives the pair around the first one, every other line gives nothing.
pub open spec fn header_fields(lines: Seq<Seq<char>>) -> Seq<(Seq<char>, Seq<char>)>
    decreases lines.len(),
{
    if lines.len() == 0 {
        Seq::empty()
    } else {
        let earlier = header_fields(lines.drop_last());
        match spec_split_once(lines.last(), ": "@) {
            Some(field) => earlier.push(field),
            None => earlier,
        }
    }
}

/// The request that a text holds, or `None` where its first line has fewer
/// than two words.
///
/// The text is cut into lines at each CR LF. The first two words of the
/// first line are the method and the path. The lines after it, up to the
/// first empty one, are the header block. The body is the one line that
/// follows that empty line, in UTF-8; where there is no such line it is
/// empty.
pub open spec fn spec_parse(text: Seq<char>) -> Option<RequestView> {
    let lines = spec_split(text, "\r\n"@);
    let request_line = spec_split_whitespace(lines[0]);
    let end = header_block_end(lines, 1);
    if request_line.len() < 2 {
        None
    } else {
        Some(
            RequestView {
                method: request_line[0],
                path: request_line[1],
                headers: header_fields(lines.subrange(1, end)),
                body: if end + 1 < lines.len() {
                    encode_utf8(lines[end + 1])
                } else {
                    Seq::empty()
                },
            },
        )
    }
}

impl HttpRequest {
    /// Parses what was read from a connection. Bytes that are not valid
    /// UTF-8 are first replaced as `String::from_utf8_lossy` does it.
    pub fn parse(raw_request: &[u8]) -> (request: Option<HttpRequest>)
        ensures
            request.deep_view() == spec_parse(lossy_text(raw_request@)),
            valid_utf8(raw_request@) ==> request.deep_view() == spec_parse(
                decode_utf8(raw_request@),
            ),
    {
        let text = decode_lossy(raw_request);
        HttpRequest::parse_text(text.as_str())
    }

    /// Parses a request that is already text.
    pub fn parse_text(text: &str) -> (request: Option<HttpRequest>)
        ensures
            request.deep_view() == spec_parse(text@),
    {
        proof {
            reveal_strlit("\r\n");
            lemma_split_nonempty(text@, "\r\n"@);
        }
        let lines = split(text, "\r\n");
        let request_line = split_whitespace(lines[0]);
        if request_line.len() < 2 {
            return None;
        }
        let method = request_line[0].to_owned();
        let path = request_line[1].to_owned();

        let mut headers: Vec<(String, String)> = Vec::new();
        let mut i: usize = 1;
        while i < lines.len() && !lines[i].is_empty()
            invariant
                1 <= i <= lines.len(),
                header_block_end(lines.deep_view(), i as int) == header_block_end(
                    lines.deep_view(),
                    1,
                ),
                headers.deep_view() == header_fields(lines.deep_view().subrange(1, i as int)),
            decreases lines.len() - i,
        {
            let ghost block = lines.deep_view().subrange(1, i + 1);
            assert(block.drop_last() =~= lines.deep_view().subrange(1, i as int));
            if let Some((key, value)) = split_once(lines[i], ": ") {
                headers.push((key.to_owned(), value.to_owned()));
            }
            i += 1;
        }

        let body = if i < lines.len() - 1 {
            lines[i + 1].as_bytes_vec()
        } else {
            Vec::new()
        };
        Some(HttpRequest { method, path, headers, body })
    }
}

/// A request that was parsed has a method and a path: each is a word, not
/// empty and without whitespace.
pub proof fn lemma_parsed_method_and_path(text: Seq<char>)
    ensures
        spec_parse(text) matches Some(q) ==> is_word(q.method) && is_word(q.path),
{
    let lines = spec_split(text, "\r\n"@);
    lemma_split_whitespace_words(lines[0]);
}

/// Whether a header field can be written on one line and read back: its
/// key holds no `": "`, and neither key nor value holds CR LF.
pub open spec fn well_formed_field(field: (Seq<char>, Seq<char>)) -> bool {
    &&& free_of(field.0, ": "@)
    &&& free_of(field.0, "\r\n"@)
    &&& free_of(field.1, "\r\n"@)
}

/// Whether the parts of a request can be written out and read back: the
/// method and the path are single words, every header field is well formed,
/// and neither the version nor the body holds CR LF.
pub open spec fn well_formed(
    method: Seq<char>,
    path: Seq<char>,
    version: Seq<char>,
    headers: Seq<(Seq<char>, Seq<char>)>,
    body: Seq<char>,
) -> bool {
    &&& is_word(method)
    &&& is_word(path)
    &&& free_of(version, "\r\n"@)
    &&& forall|i: int| 0 <= i < headers.len() ==> well_formed_field(#[trigger] headers[i])
    &&& free_of(body, "\r\n"@)
}

/// A request as a client writes it: the request line, the header lines, an
/// empty line and the body.
pub open spec fn request_text(
    method: Seq<char>,
    path: Seq<char>,
    version: Seq<char>,
    headers: Seq<(Seq<char>, Seq<char>)>,
    body: Seq<char>,
) -> Seq<char> {
    method + " "@ + path + " "@ + version + "\r\n"@ + header_lines(headers) + "\r\n"@ + body
}

/// Parsing reads back what was written: the text of a well-formed request
/// parses to its method, its path, its header fields in order, and its body
/// in UTF-8. The version is not kept.
pub proof fn lemma_parse_request_text(
    method: Seq<char>,
    path: Seq<char>,
    version: Seq<char>,
    headers: Seq<(Seq<char>, Seq<char>)>,
    body: Seq<char>,
)
    requires
        well_formed(method, path, version, headers, body),
    ensures
        spec_parse(request_text(method, path, version, headers, body)) == Some(
            RequestView { method, path, headers, body: encode_utf8(body) },
        ),
{
    reveal_strlit("\r\n");
    reveal_strlit(" ");
    let crlf = "\r\n"@;
    let first = method + " "@ + path + " "@ + version;
    let block = header_lines(headers) + crlf + body;
    let text = request_text(method, path, version, headers, body);
    let n = headers.len() as int;
    assert(text =~= first + crlf + block);

    lemma_request_line(method, path, version);
    lemma_split_first(first, crlf, block);
    lemma_split_block(headers, body);
    let lines = spec_split(text, crlf);
    assert(lines =~= seq![first] + (field_texts(headers) + seq![Seq::empty(), body]));
    assert forall|j: int| 1 <= j < n + 1 implies lines[j].len() > 0 by {
        lemma_field_text(headers[j - 1]);
    }
    lemma_header_block_end(lines, 1, n + 1);
    assert(lines.subrange(1, n + 1) =~= field_texts(headers));
    lemma_header_fields(headers);
}

/// The texts of the fields of a header block, one for each line.
spec fn field_texts(headers: Seq<(Seq<char>, Seq<char>)>) -> Seq<Seq<char>> {
    Seq::new(headers.len(), |i: int| field_text(headers[i]))
}

/// A request line is one line, and its first two words are the method and
/// the path.
proof fn lemma_request_line(method: Seq<char>, path: Seq<char>, version: Seq<char>)
    requires
        is_word(method),
        is_word(path),
        free_of(version, "\r\n"@),
    ensures
        free_of(method + " "@ + path + " "@ + version, "\r\n"@),
        spec_split_whitespace(method + " "@ + path + " "@ + version).len() >= 2,
        spec_split_whitespace(method + " "@ + path + " "@ + version)[0] == method,
        spec_split_whitespace(method + " "@ + path + " "@ + version)[1] == path,
{
    reveal_strlit("\r\n");
    reveal_strlit(" ");
    let crlf = "\r\n"@;
    let space = " "@;
    let line = method + space + path + space + version;
    let after_path = space + version;
    let after_method = space + (path + after_path);
    assert(line =~= method + after_method);
    lemma_split_whitespace_first(method, after_method);
    assert(after_method.drop_first() =~= path + after_path);
    lemma_split_whitespace_first(path, after_path);

    lemma_word_free_of_crlf(method);
    lemma_word_free_of_crlf(path);
    assert(free_of(space, crlf)) by {
        assert forall|at: int| !occurs_at(space, crlf, at) by {}
    }
    lemma_free_of_concat(method, space, crlf);
    lemma_free_of_concat(method + space, path, crlf);
    lemma_free_of_concat(method + space + path, space, crlf);
    lemma_free_of_concat(method + space + path + space, version, crlf);
}

/// A word holds no CR LF: both are whitespace.
proof fn lemma_word_free_of_crlf(word: Seq<char>)
    requires
        is_word(word),
    ensures
        free_of(word, "\r\n"@),
{
    reveal_strlit("\r\n");
    assert forall|at: int| !occurs_at(word, "\r\n"@, at) by {
        if occurs_at(word, "\r\n"@, at) {
            assert(word.subrange(at, at + 2)[0] == '\r');
        }
    }
}

/// The text of a well-formed field is one line, is not empty, and splits
/// into the field again.
proof fn lemma_field_text(field: (Seq<char>, Seq<char>))
    requires
        well_formed_field(field),
    ensures
        field_text(field).len() > 0,
        free_of(field_text(field), "\r\n"@),
        spec_split_once(field_text(field), ": "@) == Some(field),
{
    reveal_strlit("\r\n");
    reveal_strlit(": ");
    let crlf = "\r\n"@;
    let sep = ": "@;
    assert(free_of(sep, crlf)) by {
        assert forall|at: int| !occurs_at(sep, crlf, at) by {
            if occurs_at(sep, crlf, at) {
                assert(sep.subrange(at, at + 2)[0] == '\r');
            }
        }
    }
    lemma_free_of_concat(field.0, sep, crlf);
    lemma_free_of_concat(field.0 + sep, field.1, crlf);
    lemma_split_once_first(field.0, sep, field.1);
}

/// What follows the request line splits into one line for each field, an
/// empty line and the body.
proof fn lemma_split_block(headers: Seq<(Seq<char>, Seq<char>)>, body: Seq<char>)
    requires
        forall|i: int| 0 <= i < headers.len() ==> well_formed_field(#[trigger] headers[i]),
        free_of(body, "\r\n"@),
    ensures
        spec_split(header_lines(headers) + "\r\n"@ + body, "\r\n"@) == field_texts(headers)
            + seq![Seq::empty(), body],
    decreases headers.len(),
{
    reveal_strlit("\r\n");
    let crlf = "\r\n"@;
    let block = header_lines(headers) + crlf + body;
    if headers.len() == 0 {
        lemma_split_first(Seq::empty(), crlf, body);
        lemma_split_free(body, crlf);
    } else {
        let rest = headers.drop_first();
        let rest_block = header_lines(rest) + crlf + body;
        lemma_header_lines_first(headers);
        lemma_field_text(headers[0]);
        assert(block =~= field_text(headers[0]) + crlf + rest_block);
        lemma_split_first(field_text(headers[0]), crlf, rest_block);
        assert forall|i: int| 0 <= i < rest.len() implies well_formed_field(#[trigger] rest[i]) by {}
        lemma_split_block(rest, body);
    }
}

/// The header block ends at the first empty line.
proof fn lemma_header_block_end(lines: Seq<Seq<char>>, from: int, end: int)
    requires
        0 <= from <= end < lines.len(),
        forall|j: int| from <= j < end ==> lines[j].len() > 0,
        lines[end].len() == 0,
    ensures
        header_block_end(lines, from) == end,
    decreases end - from,
{
    if from < end {
        lemma_header_block_end(lines, from + 1, end);
    }
}

/// The lines of well-formed fields are read back as those fields.
proof fn lemma_header_fields(headers: Seq<(Seq<char>, Seq<char>)>)
    requires
        forall|i: int| 0 <= i < headers.len() ==> well_formed_field(#[trigger] headers[i]),
    ensures
        header_fields(field_texts(headers)) == headers,
    decreases headers.len(),
{
    if headers.len() > 0 {
        let earlier = headers.drop_last();
        assert forall|i: int| 0 <= i < earlier.len() implies well_formed_field(
            #[trigger] earlier[i],
        ) by {}
        lemma_header_fields(earlier);
        lemma_field_text(headers.last());
        assert(field_texts(headers).drop_last() =~= field_texts(earlier));
    }
}

} // verus!
