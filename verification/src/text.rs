//! Text primitives on character sequences: whitespace, substring search and
//! the three ways of splitting that the request parser is built from.

use vstd::prelude::*;
use vstd::slice::slice_subrange;
use vstd::string::StrSliceExecFns;
use vstd::utf8::*;

verus! {

/// Whether `c` has the Unicode `White_Space` property.
pub open spec fn is_whitespace(c: char) -> bool {
    ||| '\u{9}' <= c <= '\u{d}'
    ||| c == ' '
    ||| c == '\u{85}'
    ||| c == '\u{a0}'
    ||| c == '\u{1680}'
    ||| '\u{2000}' <= c <= '\u{200a}'
    ||| c == '\u{2028}'
    ||| c == '\u{2029}'
    ||| c == '\u{202f}'
    ||| c == '\u{205f}'
    ||| c == '\u{3000}'
}

/// Decides [`is_whitespace`].
pub fn char_is_whitespace(c: char) -> (r: bool)
    ensures
        r == is_whitespace(c),
{
    if c <= '\u{7f}' {
        ('\u{9}' <= c && c <= '\u{d}') || c == ' '
    } else if c <= '\u{1fff}' {
        c == '\u{85}' || c == '\u{a0}' || c == '\u{1680}'
    } else {
        c <= '\u{200a}' || c == '\u{2028}' || c == '\u{2029}' || c == '\u{202f}' || c == '\u{205f}'
            || c == '\u{3000}'
    }
}

/// The characters of `text`, in order.
pub fn to_chars(text: &str) -> (chars: Vec<char>)
    ensures
        chars@ == text@,
{
    let mut chars: Vec<char> = Vec::new();
    for c in it: text.chars()
        invariant
            it.seq() == text@,
            chars@ == it.seq().take(it.index()),
    {
        chars.push(c);
    }
    chars
}

/// Whether two strings hold the same characters.
pub fn str_eq(a: &str, b: &str) -> (r: bool)
    ensures
        r == (a@ == b@),
{
    let x = a.as_bytes();
    let y = b.as_bytes();
    if x.len() != y.len() {
        return false;
    }
    let mut i: usize = 0;
    while i < x.len()
        invariant
            x@.len() == y@.len(),
            i <= x@.len(),
            forall|j: int| 0 <= j < i ==> x@[j] == y@[j],
            x@ == encode_utf8(a@),
            y@ == encode_utf8(b@),
        decreases x@.len() - i,
    {
        if x[i] != y[i] {
            return false;
        }
        i += 1;
    }
    proof {
        assert(x@ =~= y@);
        encode_utf8_decode_utf8(a@);
        encode_utf8_decode_utf8(b@);
    }
    true
}

/// Whether `pat` stands in `s` at index `at`.
pub open spec fn occurs_at(s: Seq<char>, pat: Seq<char>, at: int) -> bool {
    &&& 0 <= at
    &&& at + pat.len() <= s.len()
    &&& s.subrange(at, at + pat.len()) == pat
}

/// The least index at or after `from` at which `pat` stands in `s`.
pub open spec fn first_occurrence_from(s: Seq<char>, pat: Seq<char>, from: int) -> Option<int>
    decreases s.len() - from,
{
    if from < 0 || from + pat.len() > s.len() {
        None
    } else if occurs_at(s, pat, from) {
        Some(from)
    } else {
        proof {
            assert(pat.len() == 0 ==> s.subrange(from, from + pat.len()) =~= pat);
        }
        first_occurrence_from(s, pat, from + 1)
    }
}

/// The least index at which `pat` stands in `s`.
pub open spec fn first_occurrence(s: Seq<char>, pat: Seq<char>) -> Option<int> {
    first_occurrence_from(s, pat, 0)
}

/// `first_occurrence_from` finds an occurrence, skips none, and fails only
/// where there is none.
pub proof fn lemma_first_occurrence_from(s: Seq<char>, pat: Seq<char>, from: int)
    requires
        0 <= from,
    ensures
        match first_occurrence_from(s, pat, from) {
            Some(at) => {
                &&& from <= at
                &&& occurs_at(s, pat, at)
                &&& forall|j: int| from <= j < at ==> !occurs_at(s, pat, j)
            },
            None => forall|j: int| from <= j ==> !occurs_at(s, pat, j),
        },
    decreases s.len() - from,
{
    if from + pat.len() <= s.len() && !occurs_at(s, pat, from) {
        assert(pat.len() == 0 ==> s.subrange(from, from + pat.len()) =~= pat);
        lemma_first_occurrence_from(s, pat, from + 1);
    }
}

/// Whether `pat` stands nowhere in `s`.
pub open spec fn free_of(s: Seq<char>, pat: Seq<char>) -> bool {
    forall|at: int| !occurs_at(s, pat, at)
}

/// An occurrence with none before it is the first one.
pub proof fn lemma_first_occurrence_is(s: Seq<char>, pat: Seq<char>, at: int)
    requires
        occurs_at(s, pat, at),
        forall|j: int| 0 <= j < at ==> !occurs_at(s, pat, j),
    ensures
        first_occurrence(s, pat) == Some(at),
{
    lemma_first_occurrence_from(s, pat, 0);
}

/// Where there is no occurrence, none is found.
pub proof fn lemma_first_occurrence_none(s: Seq<char>, pat: Seq<char>)
    requires
        free_of(s, pat),
    ensures
        first_occurrence(s, pat) is None,
{
    lemma_first_occurrence_from(s, pat, 0);
}

/// Two texts free of a separator of two different characters stay free of
/// it when joined, unless the separator falls on the seam.
pub proof fn lemma_free_of_concat(a: Seq<char>, b: Seq<char>, sep: Seq<char>)
    requires
        sep.len() == 2,
        free_of(a, sep),
        free_of(b, sep),
        a.len() == 0 || b.len() == 0 || a.last() != sep[0] || b[0] != sep[1],
    ensures
        free_of(a + b, sep),
{
    let s = a + b;
    assert forall|at: int| !occurs_at(s, sep, at) by {
        if occurs_at(s, sep, at) {
            let found = s.subrange(at, at + 2);
            if at + 2 <= a.len() {
                assert(a.subrange(at, at + 2) =~= found);
                assert(occurs_at(a, sep, at));
            } else if at >= a.len() {
                assert(b.subrange(at - a.len(), at - a.len() + 2) =~= found);
                assert(occurs_at(b, sep, at - a.len()));
            }
        }
    }
}

/// After a text that is free of a separator of two different characters,
/// the separator is found where it was put.
pub proof fn lemma_first_occurrence_after(head: Seq<char>, sep: Seq<char>, rest: Seq<char>)
    requires
        sep.len() == 2,
        sep[0] != sep[1],
        free_of(head, sep),
    ensures
        first_occurrence(head + sep + rest, sep) == Some(head.len() as int),
{
    let s = head + sep + rest;
    let h = head.len() as int;
    assert(s.subrange(h, h + 2) =~= sep);
    assert forall|j: int| 0 <= j < h implies !occurs_at(s, sep, j) by {
        if occurs_at(s, sep, j) {
            let found = s.subrange(j, j + 2);
            if j + 2 <= h {
                assert(head.subrange(j, j + 2) =~= found);
                assert(occurs_at(head, sep, j));
            }
        }
    }
    lemma_first_occurrence_is(s, sep, h);
}

/// Decides [`occurs_at`].
fn matches_at(s: &[char], pat: &[char], at: usize) -> (r: bool)
    requires
        at + pat@.len() <= s@.len(),
    ensures
        r == occurs_at(s@, pat@, at as int),
{
    let n: usize = s.len();
    let mut k: usize = 0;
    while k < pat.len()
        invariant
            k <= pat@.len(),
            at + pat@.len() <= s@.len() == n,
            forall|j: int| 0 <= j < k ==> s@[at + j] == pat@[j],
        decreases pat@.len() - k,
    {
        if s[at + k] != pat[k] {
            return false;
        }
        k += 1;
    }
    assert(s@.subrange(at as int, at + pat@.len()) =~= pat@);
    true
}

/// Finds the first occurrence of `pat` in `s`.
pub fn find(s: &[char], pat: &[char]) -> (r: Option<usize>)
    ensures
        match r {
            Some(at) => first_occurrence(s@, pat@) == Some(at as int),
            None => first_occurrence(s@, pat@) is None,
        },
{
    if pat.len() > s.len() {
        return None;
    }
    let last: usize = s.len() - pat.len();
    let mut at: usize = 0;
    while at <= last
        invariant
            last == s@.len() - pat@.len(),
            s@.len() <= usize::MAX,
            at <= last + 1,
            first_occurrence_from(s@, pat@, at as int) == first_occurrence(s@, pat@),
        decreases last + 1 - at,
    {
        if matches_at(s, pat, at) {
            return Some(at);
        }
        assert(pat@.len() > 0) by {
            if pat@.len() == 0 {
                assert(s@.subrange(at as int, at as int) =~= pat@);
            }
        }
        at += 1;
    }
    None
}

/// The pieces of `s` that lie between the occurrences of `sep`, found from
/// left to right without overlap. There is always at least one piece.
pub open spec fn spec_split(s: Seq<char>, sep: Seq<char>) -> Seq<Seq<char>>
    decreases s.len(),
    when sep.len() > 0
{
    match first_occurrence(s, sep) {
        Some(at) => {
            proof {
                lemma_first_occurrence_from(s, sep, 0);
            }
            seq![s.take(at)] + spec_split(s.skip(at + sep.len()), sep)
        },
        None => seq![s],
    }
}

/// A split always yields at least one piece.
pub proof fn lemma_split_nonempty(s: Seq<char>, sep: Seq<char>)
    requires
        sep.len() > 0,
    ensures
        spec_split(s, sep).len() >= 1,
{
}

/// A text that is free of the separator is one piece.
pub proof fn lemma_split_free(s: Seq<char>, sep: Seq<char>)
    requires
        sep.len() > 0,
        free_of(s, sep),
    ensures
        spec_split(s, sep) == seq![s],
{
    lemma_first_occurrence_none(s, sep);
}

/// A text that is free of the separator, followed by the separator, is the
/// first piece; the rest is split on its own.
pub proof fn lemma_split_first(head: Seq<char>, sep: Seq<char>, rest: Seq<char>)
    requires
        sep.len() == 2,
        sep[0] != sep[1],
        free_of(head, sep),
    ensures
        spec_split(head + sep + rest, sep) == seq![head] + spec_split(rest, sep),
{
    let s = head + sep + rest;
    lemma_first_occurrence_after(head, sep, rest);
    assert(s.take(head.len() as int) =~= head);
    assert(s.skip((head.len() + sep.len()) as int) =~= rest);
}

/// Splits `text` at each occurrence of `sep`.
pub fn split<'a>(text: &'a str, sep: &str) -> (pieces: Vec<&'a str>)
    requires
        sep@.len() > 0,
    ensures
        pieces.deep_view() == spec_split(text@, sep@),
{
    let chars = to_chars(text);
    let pat = to_chars(sep);
    let n: usize = chars.len();
    let m: usize = pat.len();
    let mut pieces: Vec<&'a str> = Vec::new();
    let mut start: usize = 0;
    assert(pieces.deep_view() + spec_split(text@.skip(0), sep@) =~= spec_split(text@, sep@)) by {
        assert(text@.skip(0) =~= text@);
    }
    loop
        invariant
            chars@ == text@,
            pat@ == sep@,
            n == text@.len(),
            m == sep@.len(),
            m > 0,
            start <= n,
            pieces.deep_view() + spec_split(text@.skip(start as int), sep@) == spec_split(
                text@,
                sep@,
            ),
        decreases n - start,
    {
        let rest = slice_subrange(chars.as_slice(), start, n);
        let ghost tail = text@.skip(start as int);
        proof {
            lemma_first_occurrence_from(tail, sep@, 0);
        }
        match find(rest, pat.as_slice()) {
            Some(at) => {
                let piece = text.substring_char(start, start + at);
                pieces.push(piece);
                assert(piece@ =~= tail.take(at as int));
                assert(text@.skip(start + at + m) =~= tail.skip(at + sep@.len()));
                start = start + at + m;
            },
            None => {
                let piece = text.substring_char(start, n);
                pieces.push(piece);
                return pieces;
            },
        }
    }
}

/// What stands before and after the first occurrence of `sep` in `s`.
pub open spec fn spec_split_once(s: Seq<char>, sep: Seq<char>) -> Option<(Seq<char>, Seq<char>)> {
    match first_occurrence(s, sep) {
        Some(at) => Some((s.take(at), s.skip(at + sep.len()))),
        None => None,
    }
}

/// A text that is free of a separator of two different characters, the
/// separator and a rest are split into the text and the rest.
pub proof fn lemma_split_once_first(head: Seq<char>, sep: Seq<char>, rest: Seq<char>)
    requires
        sep.len() == 2,
        sep[0] != sep[1],
        free_of(head, sep),
    ensures
        spec_split_once(head + sep + rest, sep) == Some((head, rest)),
{
    lemma_first_occurrence_after(head, sep, rest);
}

/// Splits `text` at the first occurrence of `sep`, if there is one.
pub fn split_once<'a>(text: &'a str, sep: &str) -> (halves: Option<(&'a str, &'a str)>)
    ensures
        match halves {
            Some((before, after)) => spec_split_once(text@, sep@) == Some((before@, after@)),
            None => spec_split_once(text@, sep@) is None,
        },
{
    let chars = to_chars(text);
    let pat = to_chars(sep);
    let n: usize = chars.len();
    proof {
        lemma_first_occurrence_from(text@, sep@, 0);
    }
    match find(chars.as_slice(), pat.as_slice()) {
        Some(at) => {
            let before = text.substring_char(0, at);
            let after = text.substring_char(at + pat.len(), n);
            Some((before, after))
        },
        None => None,
    }
}

/// The length of the longest prefix of `s` that holds no whitespace.
pub open spec fn word_len(s: Seq<char>) -> nat
    decreases s.len(),
{
    if s.len() == 0 || is_whitespace(s[0]) {
        0
    } else {
        1 + word_len(s.drop_first())
    }
}

/// A word is no longer than the text it starts.
pub proof fn lemma_word_len_bound(s: Seq<char>)
    ensures
        word_len(s) <= s.len(),
    decreases s.len(),
{
    if s.len() > 0 && !is_whitespace(s[0]) {
        lemma_word_len_bound(s.drop_first());
    }
}

/// The words of `s`: its maximal runs of characters that are not whitespace,
/// from left to right.
pub open spec fn spec_split_whitespace(s: Seq<char>) -> Seq<Seq<char>>
    decreases s.len(),
{
    if s.len() == 0 {
        Seq::empty()
    } else if is_whitespace(s[0]) {
        spec_split_whitespace(s.drop_first())
    } else {
        proof {
            lemma_word_len_bound(s);
        }
        seq![s.take(word_len(s) as int)] + spec_split_whitespace(s.skip(word_len(s) as int))
    }
}

/// Whether `s` is one word: not empty, and without whitespace.
pub open spec fn is_word(s: Seq<char>) -> bool {
    &&& s.len() > 0
    &&& forall|i: int| 0 <= i < s.len() ==> !is_whitespace(#[trigger] s[i])
}

/// The characters that `word_len` counts are not whitespace.
pub proof fn lemma_word_len_chars(s: Seq<char>)
    ensures
        forall|i: int| 0 <= i < word_len(s) ==> !is_whitespace(#[trigger] s[i]),
    decreases s.len(),
{
    if s.len() > 0 && !is_whitespace(s[0]) {
        let rest = s.drop_first();
        lemma_word_len_chars(rest);
        lemma_word_len_bound(s);
        assert forall|i: int| 0 <= i < word_len(s) implies !is_whitespace(#[trigger] s[i]) by {
            if i > 0 {
                assert(s[i] == rest[i - 1]);
            }
        }
    }
}

/// Every word of a text is a word: not empty, and without whitespace.
pub proof fn lemma_split_whitespace_words(s: Seq<char>)
    ensures
        forall|i: int|
            0 <= i < spec_split_whitespace(s).len() ==> is_word(
                #[trigger] spec_split_whitespace(s)[i],
            ),
    decreases s.len(),
{
    if s.len() == 0 {
    } else if is_whitespace(s[0]) {
        lemma_split_whitespace_words(s.drop_first());
        assert(spec_split_whitespace(s) == spec_split_whitespace(s.drop_first()));
    } else {
        let n = word_len(s) as int;
        lemma_word_len_bound(s);
        lemma_word_len_chars(s);
        lemma_split_whitespace_words(s.skip(n));
        let words = spec_split_whitespace(s);
        let later = spec_split_whitespace(s.skip(n));
        assert forall|i: int| 0 <= i < words.len() implies is_word(#[trigger] words[i]) by {
            if i > 0 {
                assert(words[i] == later[i - 1]);
            }
        }
    }
}

/// A word that ends where whitespace or nothing follows is the first word
/// of the text; the rest is split on its own.
pub proof fn lemma_split_whitespace_first(word: Seq<char>, rest: Seq<char>)
    requires
        is_word(word),
        rest.len() == 0 || is_whitespace(rest[0]),
    ensures
        spec_split_whitespace(word + rest) == seq![word] + spec_split_whitespace(rest),
{
    let s = word + rest;
    lemma_word_len_prefix(word, rest, 0);
    assert(s.skip(0) =~= s);
    assert(s.take(word.len() as int) =~= word);
    assert(s.skip(word.len() as int) =~= rest);
}

/// Inside a word that whitespace or nothing follows, `word_len` counts up
/// to the end of the word.
proof fn lemma_word_len_prefix(word: Seq<char>, rest: Seq<char>, from: int)
    requires
        0 <= from <= word.len(),
        forall|i: int| 0 <= i < word.len() ==> !is_whitespace(#[trigger] word[i]),
        rest.len() == 0 || is_whitespace(rest[0]),
    ensures
        word_len((word + rest).skip(from)) == word.len() - from,
    decreases word.len() - from,
{
    let s = word + rest;
    let tail = s.skip(from);
    if from < word.len() {
        assert(tail.drop_first() =~= s.skip(from + 1));
        lemma_word_len_prefix(word, rest, from + 1);
    }
}

/// Splits `text` into its words.
pub fn split_whitespace<'a>(text: &'a str) -> (words: Vec<&'a str>)
    ensures
        words.deep_view() == spec_split_whitespace(text@),
{
    let chars = to_chars(text);
    let n: usize = chars.len();
    let mut words: Vec<&'a str> = Vec::new();
    let mut i: usize = 0;
    assert(text@.skip(0) =~= text@);
    while i < n
        invariant
            chars@ == text@,
            n == text@.len(),
            i <= n,
            words.deep_view() + spec_split_whitespace(text@.skip(i as int))
                == spec_split_whitespace(text@),
        decreases n - i,
    {
        let ghost tail = text@.skip(i as int);
        assert(tail.drop_first() =~= text@.skip(i + 1));
        if char_is_whitespace(chars[i]) {
            i += 1;
        } else {
            let mut end: usize = i + 1;
            while end < n && !char_is_whitespace(chars[end])
                invariant
                    chars@ == text@,
                    n == text@.len(),
                    i < end <= n,
                    word_len(text@.skip(i as int)) == (end - i) + word_len(text@.skip(end as int)),
                decreases n - end,
            {
                assert(text@.skip(end as int).drop_first() =~= text@.skip(end + 1));
                end += 1;
            }
            let word = text.substring_char(i, end);
            words.push(word);
            assert(word@ =~= tail.take(word_len(tail) as int));
            assert(text@.skip(end as int) =~= tail.skip(word_len(tail) as int));
            i = end;
        }
    }
    words
}

} // verus!
