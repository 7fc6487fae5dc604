//! Reading unsigned numbers from text, and sorting them.
use vstd::prelude::*;
use crate::text::str_chars;

verus! {

/// A character that can be part of a written number: a digit, a point, a
/// digit separator or a minus sign.
pub open spec fn is_number_char(c: char) -> bool {
    ('0' <= c && c <= '9') || c == '.' || c == ',' || c == '-'
}

/// The first run of number characters in `s`, without its digit separators;
/// `started` says whether a run has begun before `s`.
pub open spec fn number_run(s: Seq<char>, started: bool) -> Seq<char>
    decreases s.len(),
{
    if s.len() == 0 {
        Seq::empty()
    } else if is_number_char(s[0]) {
        (if s[0] == ',' { Seq::empty() } else { seq![s[0]] }) + number_run(s.drop_first(), true)
    } else if started {
        Seq::empty()
    } else {
        number_run(s.drop_first(), false)
    }
}

/// The text of the first number written in `message`, without digit
/// separators, for a numeric parse (see `number_run`).
pub fn number_text(message: &str) -> (r: String)
    ensures
        r@ == number_run(message@, false),
{
    let chars = str_chars(message);
    let mut out = String::new();
    let mut started = false;
    let mut i: usize = 0;
    assert(chars@.subrange(0, chars@.len() as int) =~= message@);
    assert(out@ + number_run(message@, false) =~= number_run(message@, false));
    while i < chars.len()
        invariant
            i <= chars@.len(),
            chars@ == message@,
            out@ + number_run(chars@.subrange(i as int, chars@.len() as int), started) == number_run(message@, false),
        decreases chars@.len() - i,
    {
        let c = chars[i];
        let ghost rest = chars@.subrange(i as int, chars@.len() as int);
        assert(rest[0] == c);
        assert(rest.drop_first() =~= chars@.subrange(i + 1, chars@.len() as int));
        if ('0' <= c && c <= '9') || c == '.' || c == ',' || c == '-' {
            started = true;
            if c != ',' {
                let ghost before = out@;
                crate::text::push_char(&mut out, c);
                assert(out@ == before + seq![c]);
                assert(before + (seq![c] + number_run(rest.drop_first(), true)) =~= out@ + number_run(rest.drop_first(), true));
            } else {
                assert(Seq::<char>::empty() + number_run(rest.drop_first(), true) =~= number_run(rest.drop_first(), true));
            }
        } else if started {
            assert(out@ + Seq::<char>::empty() =~= out@);
            assert(chars@.subrange(chars@.len() as int, chars@.len() as int).len() == 0);
            return out;
        }
        i = i + 1;
    }
    assert(chars@.subrange(i as int, chars@.len() as int).len() == 0);
    assert(out@ + Seq::<char>::empty() =~= out@);
    out
}

/// Why a text is not a number (the kinds of `ParseIntError` for unsigned
/// numbers).
#[derive(Debug, Clone, Copy, PartialEq, Eq, Structural)]
pub enum IntErrorKind {
    Empty,
    InvalidDigit,
    PosOverflow,
}

/// The value of a decimal digit, if `c` is one.
pub open spec fn digit_value(c: char) -> Option<nat> {
    if '0' <= c && c <= '9' { Some((c as nat - '0' as nat) as nat) } else { None }
}

/// Reading the digits `d` after the value `acc`, left to right, for
/// numbers up to `max`: a character that is not a digit is an invalid
/// digit, a value past `max` an overflow, whichever comes first.
pub open spec fn parse_digits(d: Seq<char>, acc: nat, max: nat) -> Result<nat, IntErrorKind>
    decreases d.len(),
{
    if d.len() == 0 {
        Ok(acc)
    } else {
        match digit_value(d[0]) {
            None => Err(IntErrorKind::InvalidDigit),
            Some(v) => if acc * 10 > max {
                Err(IntErrorKind::PosOverflow)
            } else if acc * 10 + v > max {
                Err(IntErrorKind::PosOverflow)
            } else {
                parse_digits(d.drop_first(), acc * 10 + v, max)
            },
        }
    }
}

/// `str::parse` for an unsigned type whose largest value is `max`: an
/// optional `+` then at least one digit.
pub open spec fn parse_unsigned_spec(s: Seq<char>, max: nat) -> Result<nat, IntErrorKind> {
    if s.len() == 0 {
        Err(IntErrorKind::Empty)
    } else if (s[0] == '+' || s[0] == '-') && s.len() == 1 {
        Err(IntErrorKind::InvalidDigit)
    } else if s[0] == '+' {
        parse_digits(s.drop_first(), 0, max)
    } else {
        parse_digits(s, 0, max)
    }
}

/// Reads a decimal number of at most `max` (see `parse_unsigned_spec`).
pub fn parse_unsigned(s: &str, max: u64) -> (r: Result<u64, IntErrorKind>)
    ensures
        match (r, parse_unsigned_spec(s@, max as nat)) {
            (Ok(v), Ok(w)) => v == w,
            (Err(e), Err(f)) => e == f,
            _ => false,
        },
{
    let chars = str_chars(s);
    if chars.len() == 0 {
        return Err(IntErrorKind::Empty);
    }
    if (chars[0] == '+' || chars[0] == '-') && chars.len() == 1 {
        return Err(IntErrorKind::InvalidDigit);
    }
    let mut i: usize = if chars[0] == '+' { 1 } else { 0 };
    let ghost digits = if chars@[0] == '+' { s@.drop_first() } else { s@ };
    let mut acc: u64 = 0;
    assert(s@.subrange(i as int, s@.len() as int) =~= digits);
    while i < chars.len()
        invariant
            chars@ == s@,
            i <= chars@.len(),
            acc <= max,
            parse_unsigned_spec(s@, max as nat) == parse_digits(digits, 0, max as nat),
            parse_digits(digits, 0, max as nat) == parse_digits(s@.subrange(i as int, s@.len() as int), acc as nat, max as nat),
        decreases chars@.len() - i,
    {
        let ghost rest = s@.subrange(i as int, s@.len() as int);
        assert(rest[0] == chars@[i as int]);
        assert(rest.drop_first() =~= s@.subrange(i + 1, s@.len() as int));
        let c = chars[i];
        if c < '0' || c > '9' {
            return Err(IntErrorKind::InvalidDigit);
        }
        let v = (c as u32 - '0' as u32) as u64;
        assert(digit_value(c) == Some(v as nat));
        if acc > max / 10 {
            assert(acc * 10 > max) by (nonlinear_arith)
                requires
                    acc > max / 10,
            ;
            return Err(IntErrorKind::PosOverflow);
        }
        assert(acc * 10 <= max) by (nonlinear_arith)
            requires
                acc <= max / 10,
        ;
        let m = acc * 10;
        if v > max || m > max - v {
            return Err(IntErrorKind::PosOverflow);
        }
        acc = m + v;
        i = i + 1;
    }
    assert(s@.subrange(i as int, s@.len() as int) =~= Seq::<char>::empty());
    Ok(acc)
}

/// `str::parse::<usize>`.
pub open spec fn parse_usize_spec(s: Seq<char>) -> Result<usize, IntErrorKind> {
    match parse_unsigned_spec(s, usize::MAX as nat) {
        Ok(v) => Ok(v as usize),
        Err(e) => Err(e),
    }
}

/// Reads a decimal `usize` (`str::parse::<usize>`).
pub fn parse_usize(s: &str) -> (r: Result<usize, IntErrorKind>)
    ensures
        r == parse_usize_spec(s@),
{
    match parse_unsigned(s, usize::MAX as u64) {
        Ok(v) => Ok(v as usize),
        Err(e) => Err(e),
    }
}

/// `str::parse::<u64>`.
pub open spec fn parse_u64_spec(s: Seq<char>) -> Result<u64, IntErrorKind> {
    match parse_unsigned_spec(s, u64::MAX as nat) {
        Ok(v) => Ok(v as u64),
        Err(e) => Err(e),
    }
}

/// The number of bytes of `c` in UTF-8.
pub open spec fn utf8_width(c: char) -> nat {
    if (c as u32) < 0x80 {
        1
    } else if (c as u32) < 0x800 {
        2
    } else if (c as u32) < 0x10000 {
        3
    } else {
        4
    }
}

/// The number of bytes of `c` in UTF-8 (`char::len_utf8`).
pub fn utf8_width_exec(c: char) -> (r: usize)
    ensures
        r == utf8_width(c),
{
    let v = c as u32;
    if v < 0x80 {
        1
    } else if v < 0x800 {
        2
    } else if v < 0x10000 {
        3
    } else {
        4
    }
}

/// Whether `s` is in ascending order.
pub open spec fn ascending(s: Seq<usize>) -> bool {
    forall|i: int, j: int| 0 <= i <= j < s.len() ==> s[i] <= s[j]
}

/// Sorts `v` in ascending order (`sort_unstable`).
pub fn sort_numbers(v: &mut Vec<usize>)
    ensures
        ascending(final(v)@),
        final(v)@.to_multiset() == old(v)@.to_multiset(),
{
    let n = v.len();
    let mut i: usize = 1;
    if n == 0 {
        return;
    }
    while i < n
        invariant
            1 <= i <= n,
            n == v@.len(),
            ascending(v@.subrange(0, i as int)),
            v@.to_multiset() == old(v)@.to_multiset(),
        decreases n - i,
    {
        let mut j = i;
        assert forall|a: int, b: int| 0 <= a <= b <= i && a != j && b != j implies #[trigger] v@[a] <= #[trigger] v@[b] by {
            assert(v@.subrange(0, i as int)[a] == v@[a]);
            assert(v@.subrange(0, i as int)[b] == v@[b]);
        }
        while j > 0 && v[j - 1] > v[j]
            invariant
                0 <= j <= i < n,
                n == v@.len(),
                v@.to_multiset() == old(v)@.to_multiset(),
                forall|a: int, b: int| 0 <= a <= b <= i && a != j && b != j ==> v@[a] <= v@[b],
                forall|a: int| j < a <= i ==> v@[j as int] < v@[a],
            decreases j,
        {
            let x = v[j - 1];
            let y = v[j];
            let ghost before = v@;
            v.set(j - 1, y);
            v.set(j, x);
            proof {
                assert(v@ =~= before.update(j - 1, before[j as int]).update(j as int, before[j - 1]));
                lemma_swap_multiset(before, j - 1, j as int);
            }
            j = j - 1;
        }
        proof {
            assert forall|a: int, b: int| 0 <= a <= b <= i implies #[trigger] v@[a] <= #[trigger] v@[b] by {
                if a == j && b != j {
                    if j > 0 {
                        assert(v@[j - 1] <= v@[j as int]);
                    }
                } else if b == j && a != j {
                    if j > 0 {
                        assert(v@[a] <= v@[j - 1]);
                    }
                }
            }
            assert(ascending(v@.subrange(0, i + 1)));
        }
        i = i + 1;
    }
    assert(v@.subrange(0, n as int) =~= v@);
}

/// Swapping two elements keeps the multiset.
proof fn lemma_swap_multiset(s: Seq<usize>, a: int, b: int)
    requires
        0 <= a < b < s.len(),
    ensures
        s.update(a, s[b]).update(b, s[a]).to_multiset() == s.to_multiset(),
{
    broadcast use vstd::seq_lib::group_to_multiset_ensures;
    let t = s.update(a, s[b]);
    let u = t.update(b, s[a]);
    assert(t[b] == s[b]);
    assert(s.to_multiset().count(s[a]) > 0);
    assert(u.to_multiset() =~= s.to_multiset());
}

} // verus!
