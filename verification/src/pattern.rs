//! Compiled regular expressions, searched through the `regex` crate.
//!
//! A pattern value keeps the source text it was compiled from next to the
//! compiled expression. Both fields are private and set together only by the
//! constructors below, so the results of the searches are stated over the
//! source text.
use vstd::prelude::*;
use vstd::utf8::*;

verus! {

#[verifier::external_type_specification]
#[verifier::external_body]
pub struct ExBytesRegex(regex::bytes::Regex);

#[verifier::external_type_specification]
#[verifier::external_body]
pub struct ExTextRegex(regex::Regex);

/// The error text `regex::bytes::Regex::new` reports for `pattern`, or
/// `None` when it compiles.
pub uninterp spec fn bytes_regex_error(pattern: Seq<char>) -> Option<Seq<char>>;

/// The error text `regex::Regex::new` reports for `pattern`, or `None` when
/// it compiles.
pub uninterp spec fn text_regex_error(pattern: Seq<char>) -> Option<Seq<char>>;

/// Whether `pattern` matches somewhere in `haystack` (`bytes::Regex::is_match`).
pub uninterp spec fn regex_is_match(pattern: Seq<char>, haystack: Seq<u8>) -> bool;

/// `haystack` with every match of `pattern` removed (`bytes::Regex::replace_all` with an empty replacement).
pub uninterp spec fn regex_remove_matches(pattern: Seq<char>, haystack: Seq<u8>) -> Seq<u8>;

/// The pieces of `haystack` between the matches of `pattern` (`bytes::Regex::split`).
pub uninterp spec fn regex_split(pattern: Seq<char>, haystack: Seq<u8>) -> Seq<Seq<u8>>;

/// The `(start, end)` byte spans of the successive matches of `pattern` in
/// `haystack` (`bytes::Regex::find_iter`).
pub uninterp spec fn regex_match_spans(pattern: Seq<char>, haystack: Seq<u8>) -> Seq<(usize, usize)>;

/// The capture groups of the first match of `pattern` in `text`, group 0
/// being the whole match and a group that took no part being `None`; `None`
/// when there is no match (`Regex::captures`).
pub uninterp spec fn regex_capture_groups(pattern: Seq<char>, text: Seq<char>) -> Option<Seq<Option<Seq<char>>>>;

/// Spans that are in order, do not overlap and lie within `len` bytes.
pub open spec fn spans_ordered(spans: Seq<(usize, usize)>, len: nat) -> bool {
    &&& forall|i: int| 0 <= i < spans.len() ==> (#[trigger] spans[i]).0 <= spans[i].1 <= len
    &&& forall|i: int| 0 < i < spans.len() ==> spans[i - 1].1 <= (#[trigger] spans[i]).0
}

/// The pieces of `haystack` around the spans: before the first, between each
/// two, and after the last.
pub open spec fn gaps(haystack: Seq<u8>, spans: Seq<(usize, usize)>) -> Seq<Seq<u8>> {
    Seq::new(
        spans.len() + 1,
        |i: int|
            {
                let from: int = if i == 0 { 0 } else { spans[i - 1].1 as int };
                let to: int = if i == spans.len() { haystack.len() as int } else { spans[i].0 as int };
                haystack.subrange(from, to)
            },
    )
}

/// Compiles `pattern` with `regex::bytes::Regex::new`, the error rendered with `Display`.
#[verifier::external_body]
fn compile_bytes(pattern: &str) -> (r: Result<regex::bytes::Regex, String>)
    ensures
        r is Ok <==> bytes_regex_error(pattern@) is None,
        r matches Err(e) ==> bytes_regex_error(pattern@) == Some(e@),
{
    regex::bytes::Regex::new(pattern).map_err(|e| e.to_string())
}

/// Compiles `pattern` with `regex::Regex::new`, the error rendered with `Display`.
#[verifier::external_body]
fn compile_text(pattern: &str) -> (r: Result<regex::Regex, String>)
    ensures
        r is Ok <==> text_regex_error(pattern@) is None,
        r matches Err(e) ==> text_regex_error(pattern@) == Some(e@),
{
    regex::Regex::new(pattern).map_err(|e| e.to_string())
}

/// `Clone` of a compiled byte regex.
#[verifier::external_body]
fn clone_bytes_regex(r: &regex::bytes::Regex) -> regex::bytes::Regex {
    r.clone()
}

/// `Clone` of a compiled text regex.
#[verifier::external_body]
fn clone_text_regex(r: &regex::Regex) -> regex::Regex {
    r.clone()
}

/// `std::str::from_utf8`: the text `bytes` encode, when they are valid UTF-8.
#[verifier::external_body]
pub(crate) fn utf8_text(bytes: &[u8]) -> (r: Option<String>)
    ensures
        r is Some <==> valid_utf8(bytes@),
        r matches Some(s) ==> s@ == decode_utf8(bytes@),
{
    std::str::from_utf8(bytes).ok().map(|s| s.to_string())
}

/// A regular expression over bytes, with the text it was compiled from.
pub struct BytesPattern {
    source: String,
    compiled: regex::bytes::Regex,
}

impl View for BytesPattern {
    type V = Seq<char>;

    closed spec fn view(&self) -> Seq<char> {
        self.source@
    }
}

impl Clone for BytesPattern {
    fn clone(&self) -> (r: Self)
        ensures
            r@ == self@,
    {
        BytesPattern { source: self.source.clone(), compiled: clone_bytes_regex(&self.compiled) }
    }
}

impl BytesPattern {
    /// Compile `pattern`; the error text of the regex crate when it does not compile.
    pub fn new(pattern: &str) -> (r: Result<BytesPattern, String>)
        ensures
            r is Ok <==> bytes_regex_error(pattern@) is None,
            r matches Ok(p) ==> p@ == pattern@,
            r matches Err(e) ==> bytes_regex_error(pattern@) == Some(e@),
    {
        match compile_bytes(pattern) {
            Ok(compiled) => Ok(BytesPattern { source: pattern.to_owned(), compiled }),
            Err(e) => Err(e),
        }
    }

    /// The source text of the pattern.
    pub fn as_str(&self) -> (r: &str)
        ensures
            r@ == self@,
    {
        self.source.as_str()
    }

    /// `bytes::Regex::is_match` of the compiled source: whether there is a
    /// match, that is whether `find_iter` finds one.
    #[verifier::external_body]
    pub(crate) fn is_match(&self, haystack: &[u8]) -> (r: bool)
        ensures
            r == regex_is_match(self@, haystack@),
            r == (regex_match_spans(self@, haystack@).len() > 0),
    {
        self.compiled.is_match(haystack)
    }

    /// `bytes::Regex::replace_all` with an empty replacement: the haystack
    /// with the spans that `find_iter` gives cut out.
    #[verifier::external_body]
    pub(crate) fn remove_matches(&self, haystack: &[u8]) -> (r: Vec<u8>)
        ensures
            r@ == regex_remove_matches(self@, haystack@),
            r@ == gaps(haystack@, regex_match_spans(self@, haystack@)).flatten(),
    {
        self.compiled.replace_all(haystack, &b""[..]).into_owned()
    }

    /// `bytes::Regex::split`: the pieces around the spans that `find_iter`
    /// gives.
    #[verifier::external_body]
    pub(crate) fn split(&self, haystack: &[u8]) -> (r: Vec<Vec<u8>>)
        ensures
            r@.len() == regex_split(self@, haystack@).len(),
            forall|i: int| 0 <= i < r@.len() ==> #[trigger] r@[i]@ == regex_split(self@, haystack@)[i],
            r@.len() == regex_match_spans(self@, haystack@).len() + 1,
            forall|i: int| 0 <= i < r@.len() ==> #[trigger] r@[i]@ == gaps(haystack@, regex_match_spans(self@, haystack@))[i],
    {
        self.compiled.split(haystack).map(|piece| piece.to_vec()).collect()
    }

    /// `bytes::Regex::find_iter`: the spans of the successive matches, which
    /// are in order, do not overlap and lie within the haystack.
    #[verifier::external_body]
    pub(crate) fn match_spans(&self, haystack: &[u8]) -> (r: Vec<(usize, usize)>)
        ensures
            r@ == regex_match_spans(self@, haystack@),
            spans_ordered(r@, haystack@.len()),
    {
        self.compiled.find_iter(haystack).map(|m| (m.start(), m.end())).collect()
    }
}

/// A regular expression over text, with the text it was compiled from.
pub struct TextPattern {
    source: String,
    compiled: regex::Regex,
}

impl View for TextPattern {
    type V = Seq<char>;

    closed spec fn view(&self) -> Seq<char> {
        self.source@
    }
}

impl Clone for TextPattern {
    fn clone(&self) -> (r: Self)
        ensures
            r@ == self@,
    {
        TextPattern { source: self.source.clone(), compiled: clone_text_regex(&self.compiled) }
    }
}

impl TextPattern {
    /// Compile `pattern`; the error text of the regex crate when it does not compile.
    pub fn new(pattern: &str) -> (r: Result<TextPattern, String>)
        ensures
            r is Ok <==> text_regex_error(pattern@) is None,
            r matches Ok(p) ==> p@ == pattern@,
            r matches Err(e) ==> text_regex_error(pattern@) == Some(e@),
    {
        match compile_text(pattern) {
            Ok(compiled) => Ok(TextPattern { source: pattern.to_owned(), compiled }),
            Err(e) => Err(e),
        }
    }

    /// The source text of the pattern.
    pub fn as_str(&self) -> (r: &str)
        ensures
            r@ == self@,
    {
        self.source.as_str()
    }

    /// `Regex::captures`: the groups of the first match, or `None`. Group 0,
    /// the whole match, is always there.
    #[verifier::external_body]
    pub(crate) fn capture_groups(&self, text: &str) -> (r: Option<Vec<Option<String>>>)
        ensures
            r is Some <==> regex_capture_groups(self@, text@) is Some,
            r matches Some(groups) ==> {
                let spec_groups = regex_capture_groups(self@, text@)->Some_0;
                &&& groups@.len() >= 1
                &&& groups@.len() == spec_groups.len()
                &&& forall|i: int| 0 <= i < groups@.len() ==> match #[trigger] groups@[i] {
                    Some(g) => spec_groups[i] == Some(g@),
                    None => spec_groups[i] is None,
                }
            },
    {
        self.compiled.captures(text).map(|caps| {
            caps.iter().map(|group| group.map(|m| m.as_str().to_string())).collect()
        })
    }
}

} // verus!
