//! Markers: the pattern built around a marker token, the first marked
//! region of a text, and the removal of a region from a text.

use vstd::prelude::*;
use vstd::utf8::*;
use vstd::string::StringExecFns;
use regex::Regex;
use crate::error::ConfigError;
use crate::error::ConfigErrorView;

verus! {

/// `regex::Regex`, a compiled pattern, as an opaque type.
#[verifier::external_type_specification]
#[verifier::external_body]
pub struct ExRegex(Regex);

/// `regex::Error`, as an opaque type.
#[verifier::external_type_specification]
#[verifier::external_body]
pub struct ExRegexError(regex::Error);

/// The pattern text that `Regex::new` made a compiled `Regex` from, as
/// `Regex::as_str` gives it back. This library makes a `Regex` in no
/// other way.
pub uninterp spec fn regex_source(re: Regex) -> Seq<char>;

/// Whether `Regex::new` accepts the pattern text.
pub uninterp spec fn regex_compiles(pattern: Seq<char>) -> bool;

/// The leftmost match of the pattern in the haystack, as `Regex::captures`
/// finds it: the byte offsets where the whole match starts and ends, and
/// the text of capture group 1 if that group took part in the match.
pub uninterp spec fn regex_first_capture(pattern: Seq<char>, haystack: Seq<char>) -> Option<
    (int, int, Option<Seq<char>>),
>;

/// `Regex::new`. The contract names whether the pattern compiles, and says
/// that the compiled value remembers the text it was made from.
#[verifier::external_body]
fn regex_new(pattern: &str) -> (r: Result<Regex, regex::Error>)
    ensures
        r is Ok == regex_compiles(pattern@),
        r matches Ok(re) ==> regex_source(re) == pattern@,
{
    Regex::new(pattern)
}

/// `Regex::captures`, with group 0 handed out as its two byte offsets and
/// group 1 as its text. The contract names the result, and adds what the
/// documentation of `Match` promises of the offsets: start is not after
/// end, both lie in the haystack, and both fall on character boundaries.
#[verifier::external_body]
fn regex_captures(re: &Regex, haystack: &str) -> (r: Option<(usize, usize, Option<String>)>)
    ensures
        capture_view(r) == regex_first_capture(regex_source(*re), haystack@),
        r matches Some(c) ==> span_fits(haystack@, c.0 as int, c.1 as int),
{
    re.captures(haystack).map(
        |caps|
            {
                let whole = caps.get(0).unwrap();
                (whole.start(), whole.end(), caps.get(1).map(|m| m.as_str().to_string()))
            },
    )
}

/// What a search gave, over integers and character sequences.
pub open spec fn capture_view(c: Option<(usize, usize, Option<String>)>) -> Option<
    (int, int, Option<Seq<char>>),
> {
    match c {
        Some((start, end, Some(literal))) => Some((start as int, end as int, Some(literal@))),
        Some((start, end, None)) => Some((start as int, end as int, None)),
        None => None,
    }
}

/// The two forms of marker comment.
#[derive(Clone, Copy, Debug, PartialEq, Eq, Structural)]
pub enum Grammar {
    /// `<!-- token literal -->`
    Payload,
    /// `<!-- token: literal -->`, the colon being optional
    Tags,
}

/// The pattern for a marker token: the comment opener, an optional space,
/// the token, for tags an optional colon, then the shortest text up to the
/// first comment closer, captured, line breaks included.
pub open spec fn pattern_text(token: Seq<char>, grammar: Grammar) -> Seq<char> {
    match grammar {
        Grammar::Payload => "<!-- ?"@ + token + "((?s).*?)-->"@,
        Grammar::Tags => "<!-- ?"@ + token + ":?((?s).*?)-->"@,
    }
}

/// A region of a text: the half-open byte range `[start, end)` that the
/// whole marker comment takes, and the literal captured inside it.
#[derive(Debug)]
pub struct MatchedSpan {
    pub start: usize,
    pub end: usize,
    pub literal: String,
}

/// A `MatchedSpan` over integers and character sequences.
pub struct SpanView {
    pub start: int,
    pub end: int,
    pub literal: Seq<char>,
}

impl View for MatchedSpan {
    type V = SpanView;

    open spec fn view(&self) -> SpanView {
        SpanView { start: self.start as int, end: self.end as int, literal: self.literal@ }
    }
}

/// Whether `[start, end)` is a byte range of the UTF-8 form of `text`
/// that cuts no character in two.
pub open spec fn span_fits(text: Seq<char>, start: int, end: int) -> bool {
    let bytes = encode_utf8(text);
    &&& 0 <= start <= end <= bytes.len()
    &&& is_char_boundary(bytes, start)
    &&& is_char_boundary(bytes, end)
}

/// The UTF-8 form of `text` without the bytes in `[start, end)`: the
/// bytes before the span, then the bytes after it.
pub open spec fn bytes_without(text: Seq<char>, start: int, end: int) -> Seq<u8> {
    let bytes = encode_utf8(text);
    bytes.subrange(0, start) + bytes.subrange(end, bytes.len() as int)
}

/// The text whose UTF-8 form is that of `text` without the bytes in
/// `[start, end)`.
pub open spec fn without_span(text: Seq<char>, start: int, end: int) -> Seq<char> {
    decode_utf8(bytes_without(text, start, end))
}

/// The first marker of a text under a pattern: the leftmost match in which
/// the capture group took part. A text without one has no marker.
pub open spec fn first_marker(pattern: Seq<char>, text: Seq<char>) -> Option<SpanView> {
    match regex_first_capture(pattern, text) {
        Some((start, end, Some(literal))) => Some(SpanView { start, end, literal }),
        _ => None,
    }
}

/// The marker in what a search gave: a match counts only if the capture
/// group took part in it.
pub fn span_of_capture(capture: Option<(usize, usize, Option<String>)>) -> (r: Option<MatchedSpan>)
    ensures
        match capture {
            Some((start, end, Some(literal))) => r == Some(
                (MatchedSpan { start, end, literal }),
            ),
            _ => r is None,
        },
{
    match capture {
        Some((start, end, Some(literal))) => Some(MatchedSpan { start, end, literal }),
        _ => None,
    }
}

/// The UTF-8 form of a concatenation is the concatenation of the UTF-8
/// forms.
pub proof fn lemma_encode_concat(a: Seq<char>, b: Seq<char>)
    ensures
        encode_utf8(a + b) == encode_utf8(a) + encode_utf8(b),
    decreases a.len(),
{
    if a.len() == 0 {
        assert(a + b =~= b);
        assert(encode_utf8(a) + encode_utf8(b) =~= encode_utf8(b));
    } else {
        lemma_encode_concat(a.drop_first(), b);
        assert((a + b).drop_first() =~= a.drop_first() + b);
        assert(encode_utf8(a + b) =~= encode_utf8(a) + encode_utf8(b));
    }
}

/// Removing a fitting span leaves every byte outside it where it was,
/// relative to its side of the span.
pub proof fn lemma_without_span_bytes(text: Seq<char>, start: int, end: int)
    requires
        span_fits(text, start, end),
    ensures
        encode_utf8(without_span(text, start, end)) == bytes_without(text, start, end),
{
    broadcast use group_utf8_lib;

    let bytes = encode_utf8(text);
    let head = bytes.subrange(0, start);
    let tail = bytes.subrange(end, bytes.len() as int);
    valid_utf8_split(bytes, start);
    valid_utf8_split(bytes, end);
    valid_utf8_concat(head, tail);
    decode_utf8_encode_utf8(head + tail);
}

/// Removes the bytes in `[start, end)` from the text; the rest stays as
/// it was.
pub fn drain_span(text: &mut String, start: usize, end: usize)
    requires
        span_fits(old(text)@, start as int, end as int),
    ensures
        final(text)@ == without_span(old(text)@, start as int, end as int),
        encode_utf8(final(text)@) == bytes_without(old(text)@, start as int, end as int),
{
    broadcast use group_utf8_lib;

    let ghost bytes = encode_utf8(text@);
    let whole: &str = text.as_str();
    let (head, _) = whole.split_at(start);
    let (_, tail) = whole.split_at(end);
    let mut out = String::from_str(head);
    out.append(tail);
    proof {
        lemma_encode_concat(head@, tail@);
        assert(encode_utf8(head@) == bytes.subrange(0, start as int));
        assert(encode_utf8(tail@) == bytes.subrange(end as int, bytes.len() as int));
        encode_utf8_decode_utf8(head@ + tail@);
    }
    *text = out;
}

/// A compiled marker pattern. Its view is the pattern text.
pub struct MarkerPattern {
    re: Regex,
}

impl View for MarkerPattern {
    type V = Seq<char>;

    closed spec fn view(&self) -> Seq<char> {
        regex_source(self.re)
    }
}

impl MarkerPattern {
    /// Builds the pattern text around `token`.
    pub fn source_for(token: &str, grammar: Grammar) -> (r: String)
        ensures
            r@ == pattern_text(token@, grammar),
    {
        let mut out = String::from_str("<!-- ?");
        out.append(token);
        match grammar {
            Grammar::Payload => out.append("((?s).*?)-->"),
            Grammar::Tags => out.append(":?((?s).*?)-->"),
        }
        out
    }

    /// Compiles the pattern for `token`, or reports the token as unusable.
    pub fn compile(token: &str, grammar: Grammar) -> (r: Result<MarkerPattern, ConfigError>)
        ensures
            match r {
                Ok(p) => regex_compiles(pattern_text(token@, grammar)) && p@ == pattern_text(
                    token@,
                    grammar,
                ),
                Err(e) => !regex_compiles(pattern_text(token@, grammar)) && e@
                    == (ConfigErrorView::BadMarker { marker: token@ }),
            },
    {
        let source = Self::source_for(token, grammar);
        match regex_new(source.as_str()) {
            Ok(re) => Ok(MarkerPattern { re }),
            Err(_) => Err(ConfigError::BadMarker { marker: String::from_str(token) }),
        }
    }

    /// The first marker of `text`, if it has one. The text is not changed.
    pub fn find_first(&self, text: &str) -> (r: Option<MatchedSpan>)
        ensures
            match r {
                Some(m) => first_marker(self@, text@) == Some(m@) && span_fits(
                    text@,
                    m.start as int,
                    m.end as int,
                ),
                None => first_marker(self@, text@) is None,
            },
    {
        span_of_capture(regex_captures(&self.re, text))
    }
}

} // verus!
