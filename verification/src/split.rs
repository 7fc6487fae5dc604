//! Splitting text at a separator, as `str::split` and
//! `str::split_terminator` do with a text pattern.
use vstd::prelude::*;
use crate::text::{str_chars, chars_to_string};

verus! {

/// The first index at or after `i` where `sep` occurs in `s`, or -1.
pub open spec fn find_from(s: Seq<char>, sep: Seq<char>, i: int) -> int
    decreases s.len() + 1 - i,
{
    if i < 0 || i + sep.len() > s.len() {
        -1
    } else if s.subrange(i, i + sep.len()) == sep {
        i
    } else {
        find_from(s, sep, i + 1)
    }
}

/// The pieces of `s` from `start` on, between the occurrences of a
/// non-empty `sep`, taken from left to right without overlap.
pub open spec fn split_from(s: Seq<char>, sep: Seq<char>, start: int) -> Seq<Seq<char>>
    decreases s.len() - start,
{
    let j = find_from(s, sep, start);
    if j < start || sep.len() == 0 || j + sep.len() > s.len() || start < 0 {
        seq![s.subrange(start, s.len() as int)]
    } else {
        seq![s.subrange(start, j)] + split_from(s, sep, j + sep.len())
    }
}

/// `str::split` with a text pattern: an empty pattern matches at every
/// character boundary, the two ends included.
pub open spec fn split_spec(s: Seq<char>, sep: Seq<char>) -> Seq<Seq<char>> {
    if sep.len() == 0 {
        seq![Seq::<char>::empty()] + s.map_values(|c: char| seq![c]) + seq![Seq::<char>::empty()]
    } else {
        split_from(s, sep, 0)
    }
}

/// `str::split_terminator`: as `split`, without a last piece that is empty.
pub open spec fn split_terminator_spec(s: Seq<char>, sep: Seq<char>) -> Seq<Seq<char>> {
    let p = split_spec(s, sep);
    if p.len() > 0 && p.last().len() == 0 {
        p.drop_last()
    } else {
        p
    }
}

proof fn lemma_find_from(s: Seq<char>, sep: Seq<char>, i: int)
    requires
        0 <= i,
    ensures
        find_from(s, sep, i) == -1 || (i <= find_from(s, sep, i) && find_from(s, sep, i) + sep.len() <= s.len()),
    decreases s.len() + 1 - i,
{
    if i + sep.len() <= s.len() && s.subrange(i, i + sep.len()) != sep {
        lemma_find_from(s, sep, i + 1);
    }
}

/// Whether `sep` occurs in `s` at `i`.
fn occurs_at(s: &Vec<char>, sep: &Vec<char>, i: usize) -> (r: bool)
    requires
        i + sep@.len() <= s@.len(),
    ensures
        r == (s@.subrange(i as int, i + sep@.len()) == sep@),
{
    let slen = s.len();
    let mut k: usize = 0;
    while k < sep.len()
        invariant
            k <= sep@.len(),
            slen == s@.len(),
            i + sep@.len() <= s@.len(),
            forall|m: int| 0 <= m < k ==> s@[i + m] == sep@[m],
        decreases sep@.len() - k,
    {
        if s[i + k] != sep[k] {
            assert(s@.subrange(i as int, i + sep@.len())[k as int] != sep@[k as int]);
            return false;
        }
        k = k + 1;
    }
    assert(s@.subrange(i as int, i + sep@.len()) =~= sep@);
    true
}

/// `find_from` on character vectors.
fn find_exec(s: &Vec<char>, sep: &Vec<char>, start: usize) -> (r: Option<usize>)
    requires
        start <= s@.len(),
        sep@.len() > 0,
    ensures
        match r {
            Some(j) => j == find_from(s@, sep@, start as int),
            None => find_from(s@, sep@, start as int) == -1,
        },
{
    let slen = s.len();
    let seplen = sep.len();
    let mut i = start;
    while i <= slen && slen - i >= seplen
        invariant
            start <= i,
            slen == s@.len(),
            seplen == sep@.len(),
            seplen > 0,
            i <= s@.len() + 1,
            find_from(s@, sep@, start as int) == find_from(s@, sep@, i as int),
        decreases s@.len() + 1 - i,
    {
        if occurs_at(s, sep, i) {
            return Some(i);
        }
        i = i + 1;
    }
    None
}

/// The pieces of `s` between the occurrences of `sep` (`str::split`).
pub fn split_str(s: &str, sep: &str) -> (r: Vec<String>)
    ensures
        r@.map_values(|p: String| p@) == split_spec(s@, sep@),
{
    let chars = str_chars(s);
    let sep_chars = str_chars(sep);
    let mut out: Vec<String> = Vec::new();
    if sep_chars.len() == 0 {
        out.push(String::new());
        let mut i: usize = 0;
        while i < chars.len()
            invariant
                i <= chars@.len(),
                chars@ == s@,
                out@.map_values(|p: String| p@) == seq![Seq::<char>::empty()] + s@.subrange(0, i as int).map_values(|c: char| seq![c]),
            decreases chars@.len() - i,
        {
            let ghost before = out@.map_values(|p: String| p@);
            let piece = chars_to_string(&chars, i, i + 1);
            assert(piece@ =~= seq![s@[i as int]]);
            out.push(piece);
            proof {
                assert(out@.map_values(|p: String| p@) =~= before.push(seq![s@[i as int]]));
                assert(s@.subrange(0, i + 1).map_values(|c: char| seq![c]) =~= s@.subrange(0, i as int).map_values(|c: char| seq![c]).push(seq![s@[i as int]]));
            }
            i = i + 1;
        }
        out.push(String::new());
        assert(s@.subrange(0, s@.len() as int) =~= s@);
        assert(out@.map_values(|p: String| p@) =~= split_spec(s@, sep@));
        return out;
    }
    let slen = chars.len();
    let mut start: usize = 0;
    loop
        invariant
            slen == chars@.len(),
            chars@ == s@,
            sep_chars@ == sep@,
            sep@.len() > 0,
            start <= chars@.len(),
            out@.map_values(|p: String| p@) + split_from(s@, sep@, start as int) == split_from(s@, sep@, 0),
        decreases chars@.len() - start,
    {
        proof {
            lemma_find_from(s@, sep@, start as int);
        }
        match find_exec(&chars, &sep_chars, start) {
            Some(j) => {
                let ghost before = out@.map_values(|p: String| p@);
                out.push(chars_to_string(&chars, start, j));
                assert(out@.map_values(|p: String| p@) =~= before.push(s@.subrange(start as int, j as int)));
                assert(split_from(s@, sep@, start as int) =~= seq![s@.subrange(start as int, j as int)] + split_from(s@, sep@, j + sep@.len()));
                assert(out@.map_values(|p: String| p@) + split_from(s@, sep@, j + sep@.len()) =~= before + split_from(s@, sep@, start as int));
                start = j + sep_chars.len();
            },
            None => {
                let ghost before = out@.map_values(|p: String| p@);
                out.push(chars_to_string(&chars, start, chars.len()));
                assert(out@.map_values(|p: String| p@) =~= before + split_from(s@, sep@, start as int));
                return out;
            },
        }
    }
}

/// The pieces of `s` between the occurrences of `sep`, without a last
/// piece that is empty (`str::split_terminator`).
pub fn split_terminator(s: &str, sep: &str) -> (r: Vec<String>)
    ensures
        r@.map_values(|p: String| p@) == split_terminator_spec(s@, sep@),
{
    let mut pieces = split_str(s, sep);
    let ghost p = pieces@.map_values(|q: String| q@);
    let n = pieces.len();
    if n > 0 && pieces[n - 1].as_str().is_empty() {
        assert(p.last() == pieces@[n - 1]@);
        pieces.pop();
        assert(pieces@.map_values(|q: String| q@) =~= p.drop_last());
    }
    pieces
}

/// The pieces joined with `sep` between each two.
pub open spec fn join_spec(pieces: Seq<Seq<char>>, sep: Seq<char>) -> Seq<char>
    decreases pieces.len(),
{
    if pieces.len() == 0 {
        Seq::empty()
    } else if pieces.len() == 1 {
        pieces[0]
    } else {
        join_spec(pieces.drop_last(), sep) + sep + pieces.last()
    }
}

/// `str::replace`: every occurrence of `from`, left to right, replaced by `to`.
pub open spec fn replace_spec(s: Seq<char>, from: Seq<char>, to: Seq<char>) -> Seq<char> {
    join_spec(split_spec(s, from), to)
}

/// Every occurrence of `from` in `s` replaced by `to` (`str::replace`).
pub fn replace_text(s: &str, from: &str, to: &str) -> (r: String)
    ensures
        r@ == replace_spec(s@, from@, to@),
{
    let pieces = split_str(s, from);
    let ghost p = pieces@.map_values(|q: String| q@);
    let mut out = String::new();
    let mut i: usize = 0;
    while i < pieces.len()
        invariant
            i <= pieces@.len(),
            p == pieces@.map_values(|q: String| q@),
            out@ == join_spec(p.subrange(0, i as int), to@),
        decreases pieces@.len() - i,
    {
        if i > 0 {
            crate::text::push_str(&mut out, to);
        }
        crate::text::push_str(&mut out, pieces[i].as_str());
        assert(p.subrange(0, i + 1).drop_last() =~= p.subrange(0, i as int));
        assert(p.subrange(0, i + 1).last() == p[i as int]);
        proof {
            if i == 0 {
                assert(p.subrange(0, 0) =~= Seq::<Seq<char>>::empty());
                assert(out@ =~= p[0]);
            }
        }
        i = i + 1;
    }
    assert(p.subrange(0, pieces@.len() as int) =~= p);
    out
}

} // verus!
