//! Header fields as text: `Key: Value`, one to a line.

use vstd::prelude::*;

verus! {

/// A header field as it stands in its line: the key, `": "` and the value.
pub open spec fn field_text(field: (Seq<char>, Seq<char>)) -> Seq<char> {
    field.0 + ": "@ + field.1
}

/// The line of a header field: its text and CR LF.
pub open spec fn header_line(field: (Seq<char>, Seq<char>)) -> Seq<char> {
    field_text(field) + "\r\n"@
}

/// The lines of a sequence of header fields, in order.
pub open spec fn header_lines(headers: Seq<(Seq<char>, Seq<char>)>) -> Seq<char>
    decreases headers.len(),
{
    if headers.len() == 0 {
        Seq::empty()
    } else {
        header_lines(headers.drop_last()) + header_line(headers.last())
    }
}

/// The lines of a sequence of header fields begin with the line of the
/// first.
pub proof fn lemma_header_lines_first(headers: Seq<(Seq<char>, Seq<char>)>)
    requires
        headers.len() > 0,
    ensures
        header_lines(headers) == header_line(headers[0]) + header_lines(headers.drop_first()),
    decreases headers.len(),
{
    let rest = headers.drop_first();
    if headers.len() == 1 {
        assert(header_lines(headers.drop_last()) =~= Seq::empty());
    } else {
        lemma_header_lines_first(headers.drop_last());
        assert(rest.drop_last() =~= headers.drop_last().drop_first());
    }
}

} // verus!
