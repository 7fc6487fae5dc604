//! Character-level helpers shared by the parsers and formatters.
use vstd::prelude::*;

verus! {

/// Appends one character to a `String` (`String::push`).
#[verifier::external_body]
pub(crate) fn push_char(s: &mut String, c: char)
    ensures
        final(s)@ == old(s)@.push(c),
{
    s.push(c);
}

/// The characters of a string slice, in order.
pub fn str_chars(s: &str) -> (out: Vec<char>)
    ensures
        out@ == s@,
{
    let mut out: Vec<char> = Vec::new();
    for c in it: s.chars()
        invariant
            out@ == it.seq().take(it.index() as int),
    {
        out.push(c);
    }
    out
}

/// Characters with the Unicode `White_Space` property (what `str::trim` removes).
pub open spec fn is_white_space(c: char) -> bool {
    let u = c as u32;
    ||| 0x09 <= u <= 0x0D
    ||| u == 0x20
    ||| u == 0x85
    ||| u == 0xA0
    ||| u == 0x1680
    ||| 0x2000 <= u <= 0x200A
    ||| u == 0x2028
    ||| u == 0x2029
    ||| u == 0x202F
    ||| u == 0x205F
    ||| u == 0x3000
}

/// `lo..hi` is what remains of `s` once leading and trailing white space is removed.
pub open spec fn is_trim_bounds(s: Seq<char>, lo: int, hi: int) -> bool {
    &&& 0 <= lo <= hi <= s.len()
    &&& forall|i: int| 0 <= i < lo ==> is_white_space(#[trigger] s[i])
    &&& forall|i: int| hi <= i < s.len() ==> is_white_space(#[trigger] s[i])
    &&& lo < hi ==> !is_white_space(s[lo]) && !is_white_space(s[hi - 1])
}

pub(crate) fn is_white_space_exec(c: char) -> (r: bool)
    ensures
        r == is_white_space(c),
{
    let u = c as u32;
    (0x09 <= u && u <= 0x0D) || u == 0x20 || u == 0x85 || u == 0xA0 || u == 0x1680 || (0x2000 <= u
        && u <= 0x200A) || u == 0x2028 || u == 0x2029 || u == 0x202F || u == 0x205F || u == 0x3000
}

/// Bounds of `chars` once leading and trailing white space is removed.
pub fn trim_bounds(chars: &Vec<char>) -> (r: (usize, usize))
    ensures
        is_trim_bounds(chars@, r.0 as int, r.1 as int),
{
    let n = chars.len();
    let mut lo: usize = 0;
    while lo < n && is_white_space_exec(chars[lo])
        invariant
            n == chars@.len(),
            lo <= n,
            forall|i: int| 0 <= i < lo ==> is_white_space(#[trigger] chars@[i]),
        decreases n - lo,
    {
        lo = lo + 1;
    }
    let mut hi: usize = n;
    while hi > lo && is_white_space_exec(chars[hi - 1])
        invariant
            n == chars@.len(),
            lo <= hi <= n,
            forall|i: int| 0 <= i < lo ==> is_white_space(#[trigger] chars@[i]),
            forall|i: int| hi <= i < n ==> is_white_space(#[trigger] chars@[i]),
            lo < n ==> !is_white_space(chars@[lo as int]),
        decreases hi,
    {
        hi = hi - 1;
    }
    (lo, hi)
}

/// Trimmed text is the same whatever trim bounds are picked.
pub proof fn lemma_trim_bounds_unique(s: Seq<char>, lo: int, hi: int, a: int, b: int)
    requires
        is_trim_bounds(s, lo, hi),
        is_trim_bounds(s, a, b),
    ensures
        s.subrange(lo, hi) == s.subrange(a, b),
{
    if lo < hi {
        if a < lo {
            assert(is_white_space(s[a]));
        } else if a > lo {
            assert(!is_white_space(s[lo]));
        }
        if b > hi {
            assert(is_white_space(s[b - 1]));
        } else if b < hi {
            assert(!is_white_space(s[hi - 1]));
        }
    } else {
        if a < b {
            assert(is_white_space(s[a]));
        }
        assert(s.subrange(a, b) =~= s.subrange(lo, hi));
    }
}

/// A string built from a run of characters.
pub fn chars_to_string(chars: &Vec<char>, from: usize, to: usize) -> (r: String)
    requires
        from <= to <= chars@.len(),
    ensures
        r@ == chars@.subrange(from as int, to as int),
{
    let mut out = String::new();
    let mut i = from;
    while i < to
        invariant
            from <= i <= to <= chars@.len(),
            out@ == chars@.subrange(from as int, i as int),
        decreases to - i,
    {
        push_char(&mut out, chars[i]);
        assert(chars@.subrange(from as int, i + 1) =~= chars@.subrange(from as int, i as int).push(chars@[i as int]));
        i = i + 1;
    }
    out
}

/// `str::trim`: the text without leading and trailing white space.
pub fn trim(s: &str) -> (r: String)
    ensures
        forall|lo: int, hi: int| is_trim_bounds(s@, lo, hi) ==> r@ == s@.subrange(lo, hi),
{
    let chars = str_chars(s);
    let (lo, hi) = trim_bounds(&chars);
    let r = chars_to_string(&chars, lo, hi);
    proof {
        assert forall|a: int, b: int| is_trim_bounds(s@, a, b) implies r@ == s@.subrange(a, b) by {
            lemma_trim_bounds_unique(s@, lo as int, hi as int, a, b);
        }
    }
    r
}

/// The digit character for `d < 10`.
pub open spec fn digit_char(d: nat) -> char {
    if d == 0 { '0' } else if d == 1 { '1' } else if d == 2 { '2' } else if d == 3 { '3' }
    else if d == 4 { '4' } else if d == 5 { '5' } else if d == 6 { '6' } else if d == 7 { '7' }
    else if d == 8 { '8' } else { '9' }
}

/// The decimal digits of `n`, without leading zeros.
pub open spec fn decimal(n: nat) -> Seq<char>
    decreases n,
{
    if n < 10 {
        seq![digit_char(n)]
    } else {
        decimal(n / 10).push(digit_char(n % 10))
    }
}

/// `n` with a comma between each group of three digits.
pub open spec fn with_commas(n: nat) -> Seq<char>
    decreases n,
{
    if n < 1000 {
        decimal(n)
    } else {
        let low = n % 1000;
        let pad: Seq<char> = if low < 10 { seq!['0', '0'] } else if low < 100 { seq!['0'] } else { Seq::empty() };
        with_commas(n / 1000) + seq![','] + pad + decimal(low)
    }
}

/// `s` with every comma taken out.
pub open spec fn without_commas(s: Seq<char>) -> Seq<char>
    decreases s.len(),
{
    if s.len() == 0 {
        Seq::empty()
    } else if s.last() == ',' {
        without_commas(s.drop_last())
    } else {
        without_commas(s.drop_last()).push(s.last())
    }
}

/// The last three decimal digits of `n`, zeros included.
spec fn last_three_digits(n: nat) -> Seq<char> {
    seq![digit_char((n / 100) % 10), digit_char((n / 10) % 10), digit_char(n % 10)]
}

proof fn lemma_without_commas_add(a: Seq<char>, b: Seq<char>)
    ensures
        without_commas(a + b) == without_commas(a) + without_commas(b),
    decreases b.len(),
{
    if b.len() == 0 {
        assert(a + b =~= a);
        assert(without_commas(a) + without_commas(b) =~= without_commas(a));
    } else {
        assert((a + b).drop_last() =~= a + b.drop_last());
        assert((a + b).last() == b.last());
        lemma_without_commas_add(a, b.drop_last());
        if b.last() != ',' {
            assert(without_commas(a) + without_commas(b.drop_last()).push(b.last()) =~= (without_commas(a) + without_commas(
                b.drop_last(),
            )).push(b.last()));
        }
    }
}

proof fn lemma_no_comma_digit(d: nat)
    ensures
        digit_char(d) != ',',
{
}

proof fn lemma_comma_free(s: Seq<char>)
    requires
        forall|i: int| 0 <= i < s.len() ==> #[trigger] s[i] != ',',
    ensures
        without_commas(s) == s,
    decreases s.len(),
{
    if s.len() > 0 {
        assert(s.last() == s[s.len() - 1]);
        lemma_comma_free(s.drop_last());
        assert(s.drop_last().push(s.last()) =~= s);
    }
}

proof fn lemma_decimal_has_no_commas(n: nat)
    ensures
        without_commas(decimal(n)) == decimal(n),
        forall|i: int| 0 <= i < decimal(n).len() ==> #[trigger] decimal(n)[i] != ',',
        1 <= decimal(n).len(),
        n < 10 ==> decimal(n).len() == 1,
        10 <= n < 100 ==> decimal(n).len() == 2,
        100 <= n < 1000 ==> decimal(n).len() == 3,
    decreases n,
{
    if n < 10 {
        lemma_no_comma_digit(n);
        assert(decimal(n) == seq![digit_char(n)]);
    } else {
        lemma_decimal_has_no_commas(n / 10);
        lemma_no_comma_digit(n % 10);
        let d = decimal(n);
        assert(d == decimal(n / 10).push(digit_char(n % 10)));
        assert forall|i: int| 0 <= i < d.len() implies #[trigger] d[i] != ',' by {
            if i < d.len() - 1 {
                assert(d[i] == decimal(n / 10)[i]);
            }
        }
        assert(n / 10 < 10 <==> n < 100);
        assert(n / 10 < 100 <==> n < 1000);
    }
    lemma_comma_free(decimal(n));
}

proof fn lemma_decimal_thousands(n: nat)
    requires
        n >= 1000,
    ensures
        decimal(n) == decimal(n / 1000) + last_three_digits(n),
        ({
            let low = n % 1000;
            let pad: Seq<char> = if low < 10 { seq!['0', '0'] } else if low < 100 { seq!['0'] } else { Seq::empty() };
            pad + decimal(low) == last_three_digits(n)
        }),
{
    let low = n % 1000;
    assert((n / 10) / 10 == n / 100 && (n / 100) / 10 == n / 1000 && n / 10 >= 100 && n / 100 >= 10) by (nonlinear_arith)
        requires
            n >= 1000,
    ;
    assert(low % 10 == n % 10 && (low / 10) % 10 == (n / 10) % 10 && low / 100 == (n / 100) % 10 && (low / 10) / 10 == low / 100)
        by (nonlinear_arith)
        requires
            low == n % 1000,
            n >= 0,
    ;
    assert(decimal(n) == decimal(n / 10).push(digit_char(n % 10)));
    assert(decimal(n / 10) == decimal(n / 100).push(digit_char((n / 10) % 10)));
    assert(decimal(n / 100) == decimal(n / 1000).push(digit_char((n / 100) % 10)));
    assert(decimal(n) =~= decimal(n / 1000) + last_three_digits(n));
    if low < 10 {
        assert(low / 100 == 0 && low / 10 == 0);
        assert(seq!['0', '0'] + decimal(low) =~= last_three_digits(n));
    } else if low < 100 {
        assert(low / 100 == 0 && (low / 10) % 10 == low / 10 && low / 10 < 10);
        assert(decimal(low) == decimal(low / 10).push(digit_char(low % 10)));
        assert(seq!['0'] + decimal(low) =~= last_three_digits(n));
    } else {
        assert(low / 10 >= 10 && low / 10 < 100 && low / 100 < 10);
        assert(decimal(low) == decimal(low / 10).push(digit_char(low % 10)));
        assert(decimal(low / 10) == decimal(low / 100).push(digit_char((low / 10) % 10)));
        assert(Seq::<char>::empty() + decimal(low) =~= last_three_digits(n));
    }
}

/// Thousands separators only separate: taken out, they leave the decimal
/// digits of the number, and they stand exactly where a group of three
/// digits ends, counting from the right, never first.
pub proof fn law_commas_group_the_digits(n: nat)
    ensures
        without_commas(with_commas(n)) == decimal(n),
        forall|i: int| 0 <= i < with_commas(n).len() ==> (#[trigger] with_commas(n)[i] == ',' <==> (i > 0 && (with_commas(n).len()
            - i) % 4 == 0)),
    decreases n,
{
    if n < 1000 {
        lemma_decimal_has_no_commas(n);
    } else {
        let low = n % 1000;
        let pad: Seq<char> = if low < 10 { seq!['0', '0'] } else if low < 100 { seq!['0'] } else { Seq::empty() };
        let head = with_commas(n / 1000);
        let tail = last_three_digits(n);
        law_commas_group_the_digits(n / 1000);
        lemma_decimal_thousands(n);
        lemma_no_comma_digit((n / 100) % 10);
        lemma_no_comma_digit((n / 10) % 10);
        lemma_no_comma_digit(n % 10);
        let w = with_commas(n);
        assert(w == head + seq![','] + tail) by {
            assert(head + seq![','] + pad + decimal(low) =~= head + seq![','] + (pad + decimal(low)));
        }
        lemma_without_commas_add(head + seq![','], tail);
        lemma_without_commas_add(head, seq![',']);
        assert(without_commas(seq![',']) =~= Seq::<char>::empty()) by {
            assert(seq![','].drop_last() =~= Seq::<char>::empty());
            assert(seq![','].last() == ',');
            assert(without_commas(Seq::<char>::empty()) == Seq::<char>::empty());
        }
        lemma_comma_free(tail);
        assert(without_commas(w) =~= decimal(n / 1000) + tail);
        assert(head.len() >= 1) by {
            if n / 1000 < 1000 {
                lemma_decimal_has_no_commas(n / 1000);
            }
        }
        assert forall|i: int| 0 <= i < w.len() implies (#[trigger] w[i] == ',' <==> (i > 0 && (w.len() - i) % 4 == 0)) by {
            if i < head.len() {
                assert(w[i] == head[i]);
                assert((w.len() - i) % 4 == (head.len() - i) % 4);
            } else if i == head.len() {
                assert(w[i] == ',');
            } else {
                assert(w[i] == tail[i - head.len() - 1]);
            }
        }
    }
}

fn digit_char_exec(d: u64) -> (c: char)
    requires
        d < 10,
    ensures
        c == digit_char(d as nat),
{
    if d == 0 { '0' } else if d == 1 { '1' } else if d == 2 { '2' } else if d == 3 { '3' }
    else if d == 4 { '4' } else if d == 5 { '5' } else if d == 6 { '6' } else if d == 7 { '7' }
    else if d == 8 { '8' } else { '9' }
}

/// Appends the decimal digits of `n`.
pub fn push_decimal(s: &mut String, n: u64)
    ensures
        final(s)@ == old(s)@ + decimal(n as nat),
    decreases n,
{
    if n < 10 {
        push_char(s, digit_char_exec(n));
    } else {
        push_decimal(s, n / 10);
        push_char(s, digit_char_exec(n % 10));
    }
}

/// The decimal text of `n` (`n.to_string()`).
pub fn u64_to_string(n: u64) -> (r: String)
    ensures
        r@ == decimal(n as nat),
{
    let mut s = String::new();
    push_decimal(&mut s, n);
    assert(s@ =~= decimal(n as nat));
    s
}

/// The decimal text of `n` (`n.to_string()`).
pub fn usize_to_string(n: usize) -> (r: String)
    ensures
        r@ == decimal(n as nat),
{
    u64_to_string(n as u64)
}

/// Appends `n` with thousands separators.
pub fn push_with_commas(s: &mut String, n: u64)
    ensures
        final(s)@ == old(s)@ + with_commas(n as nat),
    decreases n,
{
    if n < 1000 {
        push_decimal(s, n);
    } else {
        let low = n % 1000;
        push_with_commas(s, n / 1000);
        push_char(s, ',');
        if low < 10 {
            push_char(s, '0');
            push_char(s, '0');
        } else if low < 100 {
            push_char(s, '0');
        }
        push_decimal(s, low);
        let ghost pad: Seq<char> = if low < 10 { seq!['0', '0'] } else if low < 100 { seq!['0'] } else { Seq::empty() };
        assert(s@ =~= old(s)@ + (with_commas((n / 1000) as nat) + seq![','] + pad + decimal(low as nat)));
    }
}

/// `n` formatted with a comma between each group of three digits, e.g. `5,950`.
pub fn format_int(n: usize) -> (r: String)
    ensures
        r@ == with_commas(n as nat),
        without_commas(r@) == decimal(n as nat),
{
    proof {
        law_commas_group_the_digits(n as nat);
    }
    let mut s = String::new();
    push_with_commas(&mut s, n as u64);
    assert(s@ =~= with_commas(n as nat));
    s
}

/// Appends a string slice.
pub fn push_str(s: &mut String, t: &str)
    ensures
        final(s)@ == old(s)@ + t@,
{
    s.append(t);
}

/// The text `Debug` writes for a string: quoted, with escapes
/// (`format!("{:?}", s)`).
pub uninterp spec fn debug_text(s: Seq<char>) -> Seq<char>;

/// `format!("{:?}", s)`: the string quoted, with escapes.
#[verifier::external_body]
pub(crate) fn debug_quoted(s: &str) -> (r: String)
    ensures
        r@ == debug_text(s@),
{
    format!("{:?}", s)
}

/// Whether `s` begins with `p`.
pub open spec fn starts_with(s: Seq<char>, p: Seq<char>) -> bool {
    p.len() <= s.len() && s.subrange(0, p.len() as int) == p
}

/// Whether `s` begins with `p` (`str::starts_with`).
pub fn starts_with_exec(s: &str, p: &str) -> (r: bool)
    ensures
        r == starts_with(s@, p@),
{
    let x = str_chars(s);
    let y = str_chars(p);
    if y.len() > x.len() {
        return false;
    }
    let mut i: usize = 0;
    while i < y.len()
        invariant
            x@ == s@,
            y@ == p@,
            y@.len() <= x@.len(),
            i <= y@.len(),
            forall|k: int| 0 <= k < i ==> x@[k] == y@[k],
        decreases y@.len() - i,
    {
        if x[i] != y[i] {
            assert(s@.subrange(0, p@.len() as int)[i as int] != p@[i as int]);
            return false;
        }
        i = i + 1;
    }
    assert(s@.subrange(0, p@.len() as int) =~= p@);
    true
}

/// Whether `c` occurs in `s`.
pub fn contains_char(s: &str, c: char) -> (r: bool)
    ensures
        r == s@.contains(c),
{
    let x = str_chars(s);
    let mut i: usize = 0;
    while i < x.len()
        invariant
            x@ == s@,
            i <= x@.len(),
            forall|k: int| 0 <= k < i ==> x@[k] != c,
        decreases x@.len() - i,
    {
        if x[i] == c {
            assert(s@[i as int] == c);
            return true;
        }
        i = i + 1;
    }
    false
}

} // verus!
