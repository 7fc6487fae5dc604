//! Cleaning user text: safe file names and the visible length of colored text.
use vstd::prelude::*;
use vstd::utf8::*;
use crate::pattern::{BytesPattern, bytes_regex_error, regex_split, utf8_text};
use crate::text::{is_trim_bounds, is_white_space, lemma_trim_bounds_unique, push_char, str_chars, trim_bounds};

verus! {

/// Matches the ANSI color escape sequences.
pub const ANSI_COLOR_PATTERN: &'static str = "(?-u)(\\x9b|\\x1b\\[)[0-?]*[ -/]*[@-~]";

/// The character that replaces disallowed characters in a file name.
pub const FILENAME_REPLACEMENT_CHAR: char = '_';

/// Longest file name `sanitize_filename` produces, in characters.
pub const FILENAME_MAX_CHARS: usize = 255;

/// Characters of the Unicode general category `Cc` (what `char::is_control` accepts).
pub open spec fn is_control(c: char) -> bool {
    let u = c as u32;
    u <= 0x1F || (0x7F <= u <= 0x9F)
}

/// Characters that may not stand in a file name.
pub open spec fn is_disallowed(c: char) -> bool {
    c == '*' || c == '"' || c == '/' || c == '\\' || c == '<' || c == '>' || c == ':' || c == '|'
        || c == '?' || c == '.'
}

pub open spec fn filename_char(c: char) -> char {
    if is_control(c) || is_disallowed(c) { FILENAME_REPLACEMENT_CHAR } else { c }
}

/// The sanitized form of already trimmed text.
pub open spec fn sanitized(t: Seq<char>) -> Seq<char> {
    let n: int = if t.len() < FILENAME_MAX_CHARS { t.len() as int } else { FILENAME_MAX_CHARS as int };
    Seq::new(n as nat, |i: int| filename_char(t[i]))
}

/// Sanitizing a name that needs no cutting twice gives what sanitizing it
/// once gives.
pub proof fn law_sanitize_idempotent(name: Seq<char>, lo: int, hi: int, lo2: int, hi2: int)
    requires
        is_trim_bounds(name, lo, hi),
        hi - lo <= FILENAME_MAX_CHARS,
        is_trim_bounds(sanitized(name.subrange(lo, hi)), lo2, hi2),
    ensures
        sanitized(sanitized(name.subrange(lo, hi)).subrange(lo2, hi2)) == sanitized(name.subrange(lo, hi)),
{
    let t = name.subrange(lo, hi);
    let r = sanitized(t);
    assert(r.len() == t.len());
    assert(!is_white_space(FILENAME_REPLACEMENT_CHAR));
    if r.len() > 0 {
        assert(!is_white_space(t[0]));
        assert(!is_white_space(r[0]));
        assert(!is_white_space(t[t.len() - 1]));
        assert(!is_white_space(r[r.len() - 1]));
        if lo2 > 0 {
            assert(is_white_space(r[0]));
        }
        if hi2 < r.len() {
            assert(is_white_space(r[r.len() - 1]));
        }
    }
    assert(r.subrange(lo2, hi2) =~= r);
    assert forall|i: int| 0 <= i < r.len() implies #[trigger] filename_char(r[i]) == r[i] by {
        assert(r[i] == filename_char(t[i]));
    }
    assert(sanitized(r) =~= r);
}

fn filename_char_exec(c: char) -> (r: char)
    ensures
        r == filename_char(c),
{
    let u = c as u32;
    let control = u <= 0x1F || (0x7F <= u && u <= 0x9F);
    let bad = c == '*' || c == '"' || c == '/' || c == '\\' || c == '<' || c == '>' || c == ':'
        || c == '|' || c == '?' || c == '.';
    if control || bad {
        FILENAME_REPLACEMENT_CHAR
    } else {
        c
    }
}

/// Remove unsafe characters: the name is trimmed of white space, control and
/// disallowed characters become `_`, and at most 255 characters are kept.
pub fn sanitize_filename(filename: &str) -> (r: String)
    ensures
        forall|lo: int, hi: int| is_trim_bounds(filename@, lo, hi) ==> r@ == sanitized(filename@.subrange(lo, hi)),
        exists|lo: int, hi: int| is_trim_bounds(filename@, lo, hi),
{
    let chars = str_chars(filename);
    let n = chars.len();
    let (lo, hi) = trim_bounds(&chars);
    let ghost t = chars@.subrange(lo as int, hi as int);
    let end: usize = if hi - lo < FILENAME_MAX_CHARS { hi } else { lo + FILENAME_MAX_CHARS };
    let mut out = String::new();
    let mut i: usize = lo;
    while i < end
        invariant
            lo <= i <= end <= hi <= n,
            n == chars@.len(),
            end - lo <= FILENAME_MAX_CHARS,
            end - lo == sanitized(t).len(),
            t == chars@.subrange(lo as int, hi as int),
            out@ == sanitized(t).subrange(0, i - lo),
        decreases end - i,
    {
        let c = filename_char_exec(chars[i]);
        push_char(&mut out, c);
        assert(sanitized(t).subrange(0, i + 1 - lo) =~= sanitized(t).subrange(0, i - lo).push(c));
        i = i + 1;
    }
    proof {
        assert(out@ =~= sanitized(t));
        assert(is_trim_bounds(filename@, lo as int, hi as int));
        assert forall|a: int, b: int| is_trim_bounds(filename@, a, b) implies out@ == sanitized(
            filename@.subrange(a, b),
        ) by {
            lemma_trim_bounds_unique(filename@, lo as int, hi as int, a, b);
        }
    }
    out
}

/// Sum of the character counts of the pieces that are valid UTF-8.
pub open spec fn visible_length(pieces: Seq<Seq<u8>>) -> nat
    decreases pieces.len(),
{
    if pieces.len() == 0 {
        0
    } else {
        let p = pieces.last();
        let here: nat = if valid_utf8(p) { decode_utf8(p).len() } else { 0 };
        visible_length(pieces.drop_last()) + here
    }
}

/// The number of characters of `content` a terminal shows: the text between
/// ANSI color codes, counting only pieces that are valid UTF-8 (capped at
/// `usize::MAX`). Without a compiled color pattern every character counts.
pub open spec fn real_length(ansi: Option<Seq<char>>, content: Seq<char>) -> nat {
    match ansi {
        Some(p) => {
            let v = visible_length(regex_split(p, encode_utf8(content)));
            if v <= usize::MAX { v } else { usize::MAX as nat }
        },
        None => content.len(),
    }
}

/// `bytes` without the matches of the color pattern, if there is one.
pub open spec fn strip_colors(ansi: Option<Seq<char>>, bytes: Seq<u8>) -> Seq<u8> {
    match ansi {
        Some(p) => crate::pattern::regex_remove_matches(p, bytes),
        None => bytes,
    }
}

/// `ceil(a / b)` for `b > 0`.
pub open spec fn div_ceil(a: int, b: int) -> int {
    (a + b - 1) / b
}

/// Measures how much room text takes once rendered.
pub struct LengthFinder {
    ansi: Option<BytesPattern>,
}

impl LengthFinder {
    /// The color pattern in use, if it compiled.
    pub closed spec fn pattern(&self) -> Option<Seq<char>> {
        match self.ansi {
            Some(p) => Some(p@),
            None => None,
        }
    }

    pub fn new() -> (r: LengthFinder)
        ensures
            r.pattern() is Some <==> bytes_regex_error(ANSI_COLOR_PATTERN@) is None,
            r.pattern() matches Some(p) ==> p == ANSI_COLOR_PATTERN@,
    {
        match BytesPattern::new(ANSI_COLOR_PATTERN) {
            Ok(p) => LengthFinder { ansi: Some(p) },
            Err(_) => LengthFinder { ansi: None },
        }
    }

    /// `bytes` with the ANSI color codes removed (unchanged without a compiled pattern).
    pub fn remove_colors(&self, bytes: &[u8]) -> (r: Vec<u8>)
        ensures
            r@ == strip_colors(self.pattern(), bytes@),
    {
        match &self.ansi {
            Some(p) => p.remove_matches(bytes),
            None => vstd::slice::slice_to_vec(bytes),
        }
    }

    /// Returns the length of the string without ANSI color codes, i.e. the
    /// number of visible characters in a string when rendered in a terminal.
    pub fn get_real_length(&self, content: &str) -> (r: usize)
        ensures
            r == real_length(self.pattern(), content@),
    {
        match &self.ansi {
            None => content.unicode_len(),
            Some(p) => {
                let pieces = p.split(content.as_bytes());
                let ghost spec_pieces = regex_split(p@, encode_utf8(content@));
                let mut total: usize = 0;
                let mut i: usize = 0;
                while i < pieces.len()
                    invariant
                        i <= pieces@.len(),
                        pieces@.len() == spec_pieces.len(),
                        forall|k: int| 0 <= k < pieces@.len() ==> #[trigger] pieces@[k]@ == spec_pieces[k],
                        total == (if visible_length(spec_pieces.subrange(0, i as int)) <= usize::MAX {
                            visible_length(spec_pieces.subrange(0, i as int))
                        } else {
                            usize::MAX as nat
                        }),
                    decreases pieces@.len() - i,
                {
                    let here: usize = match utf8_text(pieces[i].as_slice()) {
                        Some(s) => s.as_str().unicode_len(),
                        None => 0,
                    };
                    proof {
                        let sub = spec_pieces.subrange(0, i + 1);
                        assert(sub.drop_last() =~= spec_pieces.subrange(0, i as int));
                        assert(sub.last() == spec_pieces[i as int]);
                    }
                    total = total.saturating_add(here);
                    i = i + 1;
                }
                proof {
                    assert(spec_pieces.subrange(0, pieces@.len() as int) =~= spec_pieces);
                }
                total
            }
        }
    }

    /// Given a string to render and the terminal width, return a tuple of the
    /// number of rows it would take to display the string and the real length.
    pub fn get_rows_and_length(&self, content: &str, terminal_width: usize) -> (r: (usize, usize))
        requires
            terminal_width > 0,
        ensures
            r.1 == real_length(self.pattern(), content@),
            r.0 == (if div_ceil(r.1 as int, terminal_width as int) < 1 { 1 } else { div_ceil(r.1 as int, terminal_width as int) }),
    {
        let length = self.get_real_length(content);
        let q = length / terminal_width;
        proof {
            if length % terminal_width != 0 {
                assert(q < usize::MAX) by (nonlinear_arith)
                    requires
                        terminal_width > 0,
                        q == length / terminal_width,
                        length % terminal_width != 0,
                ;
            }
        }
        let rows = if length % terminal_width == 0 { q } else { q + 1 };
        proof {
            assert(rows == div_ceil(length as int, terminal_width as int)) by (nonlinear_arith)
                requires
                    terminal_width > 0,
                    q == length / terminal_width,
                    rows == (if length % terminal_width == 0 { q as int } else { q + 1 }),
            ;
        }
        (if rows < 1 { 1 } else { rows }, length)
    }
}

} // verus!
