//! Aggregation of parsed message parts: the methods a parser can name, and
//! the counter behind counting and the most common value.
use vstd::prelude::*;
use crate::error::LogriaError;
use crate::history::str_equal;
use crate::text::{str_chars, trim, trim_bounds, is_trim_bounds, push_str, push_with_commas, with_commas};

verus! {

/// How a parsed part is aggregated.
#[derive(Debug, Clone, PartialEq, Eq)]
pub enum AggregationMethod {
    Mean,
    /// The most common value: a counter that shows one entry.
    Mode,
    Sum,
    Count,
    /// Dates in the user's format.
    Date(String),
    /// Times in the user's format.
    Time(String),
    /// Dates with times in the user's format.
    DateTime(String),
    /// No aggregation: the part is shown as disabled.
    Disabled,
}

/// Code-point order of two texts, which is the byte order of their UTF-8.
pub open spec fn lex_less(a: Seq<char>, b: Seq<char>) -> bool
    decreases a.len(),
{
    if a.len() == 0 {
        b.len() > 0
    } else if b.len() == 0 {
        false
    } else if a[0] != b[0] {
        (a[0] as int) < (b[0] as int)
    } else {
        lex_less(a.drop_first(), b.drop_first())
    }
}

pub proof fn lemma_lex_irreflexive(a: Seq<char>)
    ensures
        !lex_less(a, a),
    decreases a.len(),
{
    if a.len() > 0 {
        lemma_lex_irreflexive(a.drop_first());
    }
}

pub proof fn lemma_lex_total(a: Seq<char>, b: Seq<char>)
    ensures
        a == b || lex_less(a, b) || lex_less(b, a),
    decreases a.len(),
{
    if a.len() > 0 && b.len() > 0 && a[0] == b[0] {
        lemma_lex_total(a.drop_first(), b.drop_first());
        if a.drop_first() == b.drop_first() {
            assert(a =~= seq![a[0]] + a.drop_first());
            assert(b =~= seq![b[0]] + b.drop_first());
        }
    } else if a.len() == 0 && b.len() == 0 {
        assert(a =~= b);
    }
}

pub proof fn lemma_lex_transitive(a: Seq<char>, b: Seq<char>, c: Seq<char>)
    requires
        lex_less(a, b),
        lex_less(b, c),
    ensures
        lex_less(a, c),
    decreases a.len(),
{
    if a.len() > 0 && b.len() > 0 && c.len() > 0 && a[0] == b[0] && b[0] == c[0] {
        lemma_lex_transitive(a.drop_first(), b.drop_first(), c.drop_first());
    }
}

/// Whether `x` comes before `y` among the most common entries: a higher
/// count first, then the lower key.
pub open spec fn ranks_before(x: (Seq<char>, u64), y: (Seq<char>, u64)) -> bool {
    x.1 > y.1 || (x.1 == y.1 && lex_less(x.0, y.0))
}

pub proof fn lemma_ranks_transitive(x: (Seq<char>, u64), y: (Seq<char>, u64), z: (Seq<char>, u64))
    requires
        ranks_before(x, y),
        ranks_before(y, z),
    ensures
        ranks_before(x, z),
{
    if x.1 == y.1 && y.1 == z.1 {
        lemma_lex_transitive(x.0, y.0, z.0);
    }
}

pub proof fn lemma_ranks_total(x: (Seq<char>, u64), y: (Seq<char>, u64))
    requires
        x.0 != y.0,
    ensures
        ranks_before(x, y) || ranks_before(y, x),
{
    lemma_lex_total(x.0, y.0);
}

pub proof fn lemma_ranks_irreflexive(x: (Seq<char>, u64))
    ensures
        !ranks_before(x, x),
{
    lemma_lex_irreflexive(x.0);
}

/// The index of the entry for key `k`, or -1.
pub open spec fn key_index(e: Seq<(Seq<char>, u64)>, k: Seq<char>) -> int
    decreases e.len(),
{
    if e.len() == 0 {
        -1
    } else if e.last().0 == k {
        e.len() - 1
    } else {
        key_index(e.drop_last(), k)
    }
}

/// No key occurs twice.
pub open spec fn distinct_keys(e: Seq<(Seq<char>, u64)>) -> bool {
    forall|i: int, j: int| 0 <= i < j < e.len() ==> e[i].0 != e[j].0
}

/// The sum of the counts.
pub open spec fn count_sum(e: Seq<(Seq<char>, u64)>) -> int
    decreases e.len(),
{
    if e.len() == 0 {
        0
    } else {
        count_sum(e.drop_last()) + e.last().1
    }
}

/// The counts by key.
pub open spec fn count_map(e: Seq<(Seq<char>, u64)>) -> Map<Seq<char>, u64> {
    Map::new(|k: Seq<char>| key_index(e, k) >= 0, |k: Seq<char>| e[key_index(e, k)].1)
}

proof fn lemma_key_index(e: Seq<(Seq<char>, u64)>, k: Seq<char>)
    requires
        distinct_keys(e),
    ensures
        -1 <= key_index(e, k) < e.len(),
        key_index(e, k) >= 0 ==> e[key_index(e, k)].0 == k,
        key_index(e, k) < 0 ==> forall|i: int| 0 <= i < e.len() ==> e[i].0 != k,
        forall|i: int| 0 <= i < e.len() && e[i].0 == k ==> key_index(e, k) == i,
    decreases e.len(),
{
    if e.len() > 0 {
        let d = e.drop_last();
        assert(distinct_keys(d)) by {
            assert forall|i: int, j: int| 0 <= i < j < d.len() implies d[i].0 != d[j].0 by {
                assert(d[i] == e[i] && d[j] == e[j]);
            }
        }
        lemma_key_index(d, k);
        assert forall|i: int| 0 <= i < e.len() && e[i].0 == k implies key_index(e, k) == i by {
            if i < e.len() - 1 {
                assert(d[i] == e[i]);
                assert(e[i].0 != e[e.len() - 1].0);
            }
        }
        if key_index(e, k) < 0 {
            assert forall|i: int| 0 <= i < e.len() implies e[i].0 != k by {
                if i < e.len() - 1 {
                    assert(d[i] == e[i]);
                }
            }
        }
    }
}

proof fn lemma_key_index_same_keys(e: Seq<(Seq<char>, u64)>, f: Seq<(Seq<char>, u64)>, k: Seq<char>)
    requires
        e.len() == f.len(),
        forall|j: int| 0 <= j < e.len() ==> #[trigger] e[j].0 == f[j].0,
    ensures
        key_index(e, k) == key_index(f, k),
    decreases e.len(),
{
    if e.len() > 0 {
        assert(e.last().0 == f.last().0);
        lemma_key_index_same_keys(e.drop_last(), f.drop_last(), k);
    }
}

proof fn lemma_counts_update(e: Seq<(Seq<char>, u64)>, i: int, c: u64)
    requires
        distinct_keys(e),
        0 <= i < e.len(),
    ensures
        distinct_keys(e.update(i, (e[i].0, c))),
        count_map(e.update(i, (e[i].0, c))) == count_map(e).insert(e[i].0, c),
        count_sum(e.update(i, (e[i].0, c))) == count_sum(e) - e[i].1 + c,
{
    let f = e.update(i, (e[i].0, c));
    assert(distinct_keys(f)) by {
        assert forall|a: int, b: int| 0 <= a < b < f.len() implies f[a].0 != f[b].0 by {
            assert(f[a].0 == e[a].0 && f[b].0 == e[b].0);
        }
    }
    assert forall|k: Seq<char>| #[trigger] key_index(f, k) == key_index(e, k) by {
        assert forall|j: int| 0 <= j < e.len() implies #[trigger] e[j].0 == f[j].0 by {}
        lemma_key_index_same_keys(e, f, k);
    }
    assert forall|k: Seq<char>| #[trigger] count_map(f).contains_key(k) == count_map(e).insert(e[i].0, c).contains_key(k)
        && (count_map(f).contains_key(k) ==> count_map(f)[k] == count_map(e).insert(e[i].0, c)[k]) by {
        lemma_key_index(e, k);
        lemma_key_index(e, e[i].0);
    }
    assert(count_map(f) =~= count_map(e).insert(e[i].0, c));
    lemma_sum_update(e, i, (e[i].0, c));
}

proof fn lemma_counts_remove(e: Seq<(Seq<char>, u64)>, i: int)
    requires
        distinct_keys(e),
        0 <= i < e.len(),
    ensures
        distinct_keys(e.remove(i)),
        count_map(e.remove(i)) == count_map(e).remove(e[i].0),
        count_sum(e.remove(i)) == count_sum(e) - e[i].1,
{
    let f = e.remove(i);
    assert(distinct_keys(f)) by {
        assert forall|a: int, b: int| 0 <= a < b < f.len() implies f[a].0 != f[b].0 by {
            let a2 = if a < i { a } else { a + 1 };
            let b2 = if b < i { b } else { b + 1 };
            assert(f[a] == e[a2] && f[b] == e[b2]);
        }
    }
    assert forall|k: Seq<char>| #[trigger] count_map(f).contains_key(k) == count_map(e).remove(e[i].0).contains_key(k)
        && (count_map(f).contains_key(k) ==> count_map(f)[k] == count_map(e)[k]) by {
        lemma_key_index(e, k);
        lemma_key_index(f, k);
        if key_index(e, k) >= 0 && k != e[i].0 {
            let j = key_index(e, k);
            let j2 = if j < i { j } else { j - 1 };
            assert(f[j2] == e[j]);
        }
        if key_index(f, k) >= 0 {
            let j = key_index(f, k);
            let j2 = if j < i { j } else { j + 1 };
            assert(f[j] == e[j2]);
        }
    }
    assert(count_map(f) =~= count_map(e).remove(e[i].0));
    lemma_sum_remove(e, i);
}

proof fn lemma_counts_push(e: Seq<(Seq<char>, u64)>, k0: Seq<char>, c: u64)
    requires
        distinct_keys(e),
        key_index(e, k0) == -1,
    ensures
        distinct_keys(e.push((k0, c))),
        count_map(e.push((k0, c))) == count_map(e).insert(k0, c),
        count_sum(e.push((k0, c))) == count_sum(e) + c,
{
    let f = e.push((k0, c));
    lemma_key_index(e, k0);
    assert(f.drop_last() =~= e);
    assert(distinct_keys(f)) by {
        assert forall|a: int, b: int| 0 <= a < b < f.len() implies f[a].0 != f[b].0 by {
            assert(f[a] == e[a]);
        }
    }
    assert forall|k: Seq<char>| #[trigger] count_map(f).contains_key(k) == count_map(e).insert(k0, c).contains_key(k)
        && (count_map(f).contains_key(k) ==> count_map(f)[k] == count_map(e).insert(k0, c)[k]) by {
        lemma_key_index(e, k);
        if k != k0 && key_index(e, k) >= 0 {
            assert(f[key_index(e, k)] == e[key_index(e, k)]);
        }
    }
    assert(count_map(f) =~= count_map(e).insert(k0, c));
}

proof fn lemma_sum_update(e: Seq<(Seq<char>, u64)>, i: int, v: (Seq<char>, u64))
    requires
        0 <= i < e.len(),
    ensures
        count_sum(e.update(i, v)) == count_sum(e) - e[i].1 + v.1,
    decreases e.len(),
{
    if i < e.len() - 1 {
        assert(e.update(i, v).drop_last() =~= e.drop_last().update(i, v));
        lemma_sum_update(e.drop_last(), i, v);
    } else {
        assert(e.update(i, v).drop_last() =~= e.drop_last());
    }
}

proof fn lemma_sum_remove(e: Seq<(Seq<char>, u64)>, i: int)
    requires
        0 <= i < e.len(),
    ensures
        count_sum(e.remove(i)) == count_sum(e) - e[i].1,
    decreases e.len(),
{
    if i < e.len() - 1 {
        assert(e.remove(i).drop_last() =~= e.drop_last().remove(i));
        lemma_sum_remove(e.drop_last(), i);
    } else {
        assert(e.remove(i) =~= e.drop_last());
    }
}

proof fn lemma_sum_nonneg(e: Seq<(Seq<char>, u64)>)
    ensures
        count_sum(e) >= 0,
    decreases e.len(),
{
    if e.len() > 0 {
        lemma_sum_nonneg(e.drop_last());
    }
}

proof fn lemma_sum_bounds(e: Seq<(Seq<char>, u64)>, i: int)
    requires
        0 <= i < e.len(),
    ensures
        count_sum(e) >= e[i].1,
    decreases e.len(),
{
    lemma_sum_nonneg(e.drop_last());
    if i < e.len() - 1 {
        lemma_sum_bounds(e.drop_last(), i);
    }
}

/// The counts after one more `k`.
pub open spec fn counts_after_increment(m: Map<Seq<char>, u64>, k: Seq<char>) -> Map<Seq<char>, u64> {
    m.insert(k, if m.contains_key(k) { (m[k] + 1) as u64 } else { 1 })
}

/// The counts after one fewer `k`: it leaves when none are left.
pub open spec fn counts_after_decrement(m: Map<Seq<char>, u64>, k: Seq<char>) -> Map<Seq<char>, u64> {
    if !m.contains_key(k) {
        m
    } else if m[k] > 1 {
        m.insert(k, (m[k] - 1) as u64)
    } else {
        m.remove(k)
    }
}

/// Counting one more, one fewer, or forgetting a text keeps every count
/// positive: a text whose count would reach zero leaves the counts.
pub proof fn law_counts_stay_positive(m: Map<Seq<char>, u64>, k: Seq<char>)
    requires
        forall|x: Seq<char>| #[trigger] m.contains_key(x) ==> m[x] >= 1,
        m.contains_key(k) ==> m[k] < u64::MAX,
    ensures
        forall|x: Seq<char>| #[trigger] counts_after_increment(m, k).contains_key(x) ==> counts_after_increment(m, k)[x] >= 1,
        forall|x: Seq<char>| #[trigger] counts_after_decrement(m, k).contains_key(x) ==> counts_after_decrement(m, k)[x] >= 1,
        forall|x: Seq<char>| #[trigger] m.remove(k).contains_key(x) ==> m.remove(k)[x] >= 1,
        !counts_after_decrement(m, k).contains_key(k) <==> (!m.contains_key(k) || m[k] == 1),
{
}

/// The state of a counter.
pub struct CounterView {
    /// The entries in the order their keys first came.
    pub entries: Seq<(Seq<char>, u64)>,
    pub total_count: u64,
    /// How many entries it shows whatever it is asked, if fixed.
    pub frozen_n: Option<usize>,
}

impl CounterView {
    pub open spec fn counts(self) -> Map<Seq<char>, u64> {
        count_map(self.entries)
    }
}

/// Occurrences of messages by text, with their total.
pub struct Counter {
    entries: Vec<(String, u64)>,
    total_count: u64,
    frozen_n: Option<usize>,
}

impl View for Counter {
    type V = CounterView;

    closed spec fn view(&self) -> CounterView {
        CounterView {
            entries: self.entries@.map_values(|p: (String, u64)| (p.0@, p.1)),
            total_count: self.total_count,
            frozen_n: self.frozen_n,
        }
    }
}

impl Counter {
    /// Keys are distinct, every count is positive and the total is their sum.
    /// Every constructor makes it hold and every change keeps it: counting
    /// one more, one fewer, forgetting a text, or forgetting everything.
    pub open spec fn wf(&self) -> bool {
        &&& distinct_keys(self@.entries)
        &&& forall|i: int| 0 <= i < self@.entries.len() ==> #[trigger] self@.entries[i].1 >= 1
        &&& self@.total_count == count_sum(self@.entries)
    }

    /// A counter with nothing counted that shows as many entries as asked.
    pub fn new() -> (r: Counter)
        ensures
            r.wf(),
            r@.entries.len() == 0,
            r@.total_count == 0,
            r@.frozen_n is None,
    {
        let r = Counter { entries: Vec::new(), total_count: 0, frozen_n: None };
        assert(r@.entries =~= Seq::<(Seq<char>, u64)>::empty());
        r
    }

    /// A counter with nothing counted that shows only the most common entry.
    pub fn mean() -> (r: Counter)
        ensures
            r.wf(),
            r@.entries.len() == 0,
            r@.total_count == 0,
            r@.frozen_n == Some(1usize),
    {
        let r = Counter { entries: Vec::new(), total_count: 0, frozen_n: Some(1) };
        assert(r@.entries =~= Seq::<(Seq<char>, u64)>::empty());
        r
    }

    /// The total of all counts.
    pub fn total_count(&self) -> (r: u64)
        ensures
            r == self@.total_count,
    {
        self.total_count
    }

    /// Where the entry for `item` is, if there is one.
    fn find(&self, item: &str) -> (r: Option<usize>)
        requires
            self.wf(),
        ensures
            match r {
                Some(i) => i == key_index(self@.entries, item@) && i < self@.entries.len(),
                None => key_index(self@.entries, item@) == -1,
            },
    {
        proof {
            lemma_key_index(self@.entries, item@);
        }
        let mut i: usize = 0;
        while i < self.entries.len()
            invariant
                i <= self.entries@.len(),
                self.wf(),
                forall|j: int| 0 <= j < i ==> self@.entries[j].0 != item@,
                forall|j: int| 0 <= j < self@.entries.len() && self@.entries[j].0 == item@ ==> key_index(self@.entries, item@) == j,
                key_index(self@.entries, item@) < 0 ==> forall|j: int| 0 <= j < self@.entries.len() ==> self@.entries[j].0 != item@,
                -1 <= key_index(self@.entries, item@) < self@.entries.len(),
                key_index(self@.entries, item@) >= 0 ==> self@.entries[key_index(self@.entries, item@)].0 == item@,
            decreases self.entries@.len() - i,
        {
            assert(self@.entries[i as int].0 == self.entries@[i as int].0@);
            if str_equal(self.entries[i].0.as_str(), item) {
                return Some(i);
            }
            i = i + 1;
        }
        None
    }

    /// The count of `item`, if it has been seen.
    pub fn count_of(&self, item: &str) -> (r: Option<u64>)
        requires
            self.wf(),
        ensures
            r == (if self@.counts().contains_key(item@) { Some(self@.counts()[item@]) } else { None }),
    {
        match self.find(item) {
            Some(i) => Some(self.entries[i].1),
            None => None,
        }
    }

    /// Count one more `item`.
    pub fn increment(&mut self, item: &str)
        requires
            old(self).wf(),
            old(self)@.total_count < u64::MAX,
        ensures
            final(self).wf(),
            final(self)@.counts() == counts_after_increment(old(self)@.counts(), item@),
            final(self)@.total_count == old(self)@.total_count + 1,
            final(self)@.frozen_n == old(self)@.frozen_n,
    {
        let ghost e = self@.entries;
        proof {
            lemma_key_index(e, item@);
        }
        match self.find(item) {
            Some(i) => {
                proof {
                    lemma_sum_bounds(e, i as int);
                }
                let (key, count) = self.entries.remove(i);
                self.entries.insert(i, (key, count + 1));
                self.total_count = self.total_count + 1;
                proof {
                    assert(self@.entries =~= e.update(i as int, (e[i as int].0, (count + 1) as u64)));
                    lemma_counts_update(e, i as int, (count + 1) as u64);
                }
            },
            None => {
                self.entries.push((item.to_owned(), 1));
                self.total_count = self.total_count + 1;
                proof {
                    assert(self@.entries =~= e.push((item@, 1u64)));
                    lemma_counts_push(e, item@, 1);
                }
            },
        }
    }

    /// Take a message: count it. Counting never fails.
    pub fn update(&mut self, message: &str) -> (r: Result<(), LogriaError>)
        requires
            old(self).wf(),
            old(self)@.total_count < u64::MAX,
        ensures
            r is Ok,
            final(self).wf(),
            final(self)@.counts() == counts_after_increment(old(self)@.counts(), message@),
            final(self)@.total_count == old(self)@.total_count + 1,
            final(self)@.frozen_n == old(self)@.frozen_n,
    {
        self.increment(message);
        Ok(())
    }

    /// Forget everything counted; the number of entries shown stays.
    pub fn reset(&mut self)
        ensures
            final(self).wf(),
            final(self)@.entries.len() == 0,
            final(self)@.total_count == 0,
            final(self)@.frozen_n == old(self)@.frozen_n,
    {
        self.entries.clear();
        self.total_count = 0;
        assert(self@.entries =~= Seq::<(Seq<char>, u64)>::empty());
    }

    /// Count one fewer `item`, dropping it when none are left.
    pub fn decrement(&mut self, item: &str)
        requires
            old(self).wf(),
        ensures
            final(self).wf(),
            final(self)@.counts() == counts_after_decrement(old(self)@.counts(), item@),
            final(self)@.total_count == (if old(self)@.counts().contains_key(item@) {
                old(self)@.total_count - 1
            } else {
                old(self)@.total_count as int
            }),
            final(self)@.frozen_n == old(self)@.frozen_n,
    {
        let ghost e = self@.entries;
        proof {
            lemma_key_index(e, item@);
        }
        match self.find(item) {
            Some(i) => {
                proof {
                    lemma_sum_bounds(e, i as int);
                }
                let (key, count) = self.entries.remove(i);
                if count > 1 {
                    self.entries.insert(i, (key, count - 1));
                    self.total_count = self.total_count - 1;
                    proof {
                        assert(self@.entries =~= e.update(i as int, (e[i as int].0, (count - 1) as u64)));
                        lemma_counts_update(e, i as int, (count - 1) as u64);
                    }
                } else {
                    self.total_count = self.total_count - 1;
                    proof {
                        assert(self@.entries =~= e.remove(i as int));
                        lemma_counts_remove(e, i as int);
                    }
                }
            },
            None => {},
        }
    }

    /// Forget `item` and all its occurrences.
    pub fn delete(&mut self, item: &str)
        requires
            old(self).wf(),
        ensures
            final(self).wf(),
            final(self)@.counts() == old(self)@.counts().remove(item@),
            final(self)@.total_count == (if old(self)@.counts().contains_key(item@) {
                old(self)@.total_count - old(self)@.counts()[item@]
            } else {
                old(self)@.total_count as int
            }),
            final(self)@.frozen_n == old(self)@.frozen_n,
    {
        let ghost e = self@.entries;
        proof {
            lemma_key_index(e, item@);
        }
        match self.find(item) {
            Some(i) => {
                proof {
                    lemma_sum_bounds(e, i as int);
                }
                let (_key, count) = self.entries.remove(i);
                self.total_count = self.total_count - count;
                proof {
                    assert(self@.entries =~= e.remove(i as int));
                    lemma_counts_remove(e, i as int);
                }
            },
            None => {
                assert(old(self)@.counts().remove(item@) =~= old(self)@.counts());
            },
        }
    }
}

/// Code-point order of two texts (`<` on `str`).
pub fn lex_less_exec(a: &str, b: &str) -> (r: bool)
    ensures
        r == lex_less(a@, b@),
{
    let x = str_chars(a);
    let y = str_chars(b);
    let mut i: usize = 0;
    assert(a@.subrange(0, a@.len() as int) =~= a@);
    assert(b@.subrange(0, b@.len() as int) =~= b@);
    while i < x.len() && i < y.len() && x[i] == y[i]
        invariant
            x@ == a@,
            y@ == b@,
            i <= x@.len(),
            i <= y@.len(),
            lex_less(a@, b@) == lex_less(a@.subrange(i as int, a@.len() as int), b@.subrange(i as int, b@.len() as int)),
        decreases x@.len() - i,
    {
        assert(a@.subrange(i as int, a@.len() as int).drop_first() =~= a@.subrange(i + 1, a@.len() as int));
        assert(b@.subrange(i as int, b@.len() as int).drop_first() =~= b@.subrange(i + 1, b@.len() as int));
        i = i + 1;
    }
    let ghost sa = a@.subrange(i as int, a@.len() as int);
    let ghost sb = b@.subrange(i as int, b@.len() as int);
    if i == x.len() {
        assert(sa.len() == 0);
        i < y.len()
    } else if i == y.len() {
        false
    } else {
        assert(sa[0] == x@[i as int] && sb[0] == y@[i as int]);
        x[i] < y[i]
    }
}

/// Whether `x` ranks before `y`.
fn ranks_before_exec(x: &(String, u64), y: &(String, u64)) -> (r: bool)
    ensures
        r == ranks_before((x.0@, x.1), (y.0@, y.1)),
{
    x.1 > y.1 || (x.1 == y.1 && lex_less_exec(x.0.as_str(), y.0.as_str()))
}

/// `r` is the `n` entries of `e` that rank first, in rank order.
pub open spec fn is_top(e: Seq<(Seq<char>, u64)>, n: nat, r: Seq<(Seq<char>, u64)>) -> bool {
    &&& r.len() == (if n <= e.len() { n } else { e.len() })
    &&& forall|i: int, j: int| 0 <= i < j < r.len() ==> ranks_before(r[i], r[j])
    &&& forall|i: int| 0 <= i < r.len() ==> e.contains(#[trigger] r[i])
    &&& forall|k: int| 0 <= k < e.len() ==> r.contains(#[trigger] e[k]) || forall|i: int| 0 <= i < r.len() ==> ranks_before(#[trigger] r[i], e[k])
}

/// Two entries of a counter with distinct keys are equal when their keys are.
proof fn lemma_same_key(e: Seq<(Seq<char>, u64)>, x: (Seq<char>, u64), y: (Seq<char>, u64))
    requires
        distinct_keys(e),
        e.contains(x),
        e.contains(y),
        x.0 == y.0,
    ensures
        x == y,
{
    let i = choose|i: int| 0 <= i < e.len() && e[i] == x;
    let j = choose|j: int| 0 <= j < e.len() && e[j] == y;
    if i != j {
        if i < j {
            assert(e[i].0 != e[j].0);
        } else {
            assert(e[j].0 != e[i].0);
        }
    }
}

/// Two top lists of the same entries agree at `i` when they agree before it.
proof fn lemma_top_agree_at(e: Seq<(Seq<char>, u64)>, n: nat, a: Seq<(Seq<char>, u64)>, m: nat, b: Seq<(Seq<char>, u64)>, i: int)
    requires
        distinct_keys(e),
        is_top(e, n, a),
        is_top(e, m, b),
        n <= m,
        0 <= i < a.len(),
        forall|j: int| 0 <= j < i ==> a[j] == b[j],
    ensures
        a[i] == b[i],
{
    assert(a.len() <= b.len());
    let x = a[i];
    let y = b[i];
    assert(e.contains(x));
    assert(e.contains(y));
    if x != y {
        if x.0 == y.0 {
            lemma_same_key(e, x, y);
        }
        lemma_ranks_total(x, y);
        lemma_ranks_irreflexive(x);
        lemma_ranks_irreflexive(y);
        if ranks_before(x, y) {
            let k = choose|k: int| 0 <= k < e.len() && e[k] == x;
            assert(e[k] == x);
            if b.contains(x) {
                let p = choose|p: int| 0 <= p < b.len() && b[p] == x;
                if p < i {
                    assert(a[p] == b[p]);
                    assert(ranks_before(a[p], a[i]));
                } else if p > i {
                    assert(ranks_before(b[i], b[p]));
                    lemma_ranks_transitive(x, y, x);
                }
            } else {
                assert(ranks_before(b[i], e[k]));
                lemma_ranks_transitive(x, y, x);
            }
        } else {
            assert(ranks_before(y, x));
            let k = choose|k: int| 0 <= k < e.len() && e[k] == y;
            assert(e[k] == y);
            if a.contains(y) {
                let p = choose|p: int| 0 <= p < a.len() && a[p] == y;
                if p < i {
                    assert(a[p] == b[p]);
                    assert(ranks_before(b[p], b[i]));
                } else if p > i {
                    assert(ranks_before(a[i], a[p]));
                    lemma_ranks_transitive(y, x, y);
                }
            } else {
                assert(ranks_before(a[i], e[k]));
                lemma_ranks_transitive(y, x, y);
            }
        }
    }
}

/// Two top lists of the same entries agree on their first `k` places.
proof fn lemma_top_agree_below(e: Seq<(Seq<char>, u64)>, n: nat, a: Seq<(Seq<char>, u64)>, m: nat, b: Seq<(Seq<char>, u64)>, k: int)
    requires
        distinct_keys(e),
        is_top(e, n, a),
        is_top(e, m, b),
        n <= m,
        0 <= k <= a.len(),
    ensures
        forall|j: int| 0 <= j < k ==> a[j] == b[j],
    decreases k,
{
    if k > 0 {
        lemma_top_agree_below(e, n, a, m, b, k - 1);
        lemma_top_agree_at(e, n, a, m, b, k - 1);
    }
}

/// The most common `n` entries are the first `n` of the most common `m`,
/// for `n` at most `m`.
pub proof fn law_top_is_prefix(e: Seq<(Seq<char>, u64)>, n: nat, a: Seq<(Seq<char>, u64)>, m: nat, b: Seq<(Seq<char>, u64)>)
    requires
        distinct_keys(e),
        is_top(e, n, a),
        is_top(e, m, b),
        n <= m,
    ensures
        a == b.subrange(0, a.len() as int),
{
    lemma_top_agree_below(e, n, a, m, b, a.len() as int);
    assert(a =~= b.subrange(0, a.len() as int));
}

proof fn lemma_distinct_no_dup(e: Seq<(Seq<char>, u64)>)
    requires
        distinct_keys(e),
    ensures
        e.no_duplicates(),
{
}

proof fn lemma_all_in(e: Seq<(Seq<char>, u64)>, r: Seq<(Seq<char>, u64)>)
    requires
        e.no_duplicates(),
        forall|k: int| 0 <= k < e.len() ==> r.contains(#[trigger] e[k]),
    ensures
        e.len() <= r.len(),
{
    broadcast use vstd::seq_lib::seq_to_set_is_finite;
    e.unique_seq_to_set();
    r.lemma_cardinality_of_set();
    assert(e.to_set().subset_of(r.to_set())) by {
        assert forall|x: (Seq<char>, u64)| e.to_set().contains(x) implies r.to_set().contains(x) by {
            let k = choose|k: int| 0 <= k < e.len() && e[k] == x;
            assert(r.contains(e[k]));
        }
    }
    vstd::set_lib::lemma_len_subset(e.to_set(), r.to_set());
}

impl Counter {
    /// The `n` most common entries: a higher count first, then the lower key.
    pub fn top_entries(&self, n: usize) -> (r: Vec<(String, u64)>)
        requires
            self.wf(),
        ensures
            is_top(self@.entries, n as nat, r@.map_values(|p: (String, u64)| (p.0@, p.1))),
    {
        let ghost e = self@.entries;
        let len = self.entries.len();
        let mut r: Vec<(String, u64)> = Vec::new();
        proof {
            lemma_distinct_no_dup(e);
        }
        while r.len() < n && r.len() < len
            invariant
                e == self@.entries,
                self.wf(),
                e.no_duplicates(),
                len == e.len(),
                r@.len() <= n,
                r@.len() <= len,
                ({
                    let rv = r@.map_values(|p: (String, u64)| (p.0@, p.1));
                    &&& forall|i: int, j: int| 0 <= i < j < rv.len() ==> ranks_before(rv[i], rv[j])
                    &&& forall|i: int| 0 <= i < rv.len() ==> e.contains(#[trigger] rv[i])
                    &&& forall|k: int| 0 <= k < e.len() ==> rv.contains(#[trigger] e[k]) || forall|i: int| 0 <= i < rv.len() ==> ranks_before(#[trigger] rv[i], e[k])
                }),
            decreases len - r@.len(),
        {
            let ghost rv = r@.map_values(|p: (String, u64)| (p.0@, p.1));
            let mut best: Option<usize> = None;
            let mut j: usize = 0;
            while j < len
                invariant
                    e == self@.entries,
                    len == e.len(),
                    j <= len,
                    rv == r@.map_values(|p: (String, u64)| (p.0@, p.1)),
                    rv.len() > 0 ==> rv.last() == rv[rv.len() - 1],
                    match best {
                        Some(b) => {
                            &&& b < j
                            &&& (rv.len() == 0 || ranks_before(rv.last(), e[b as int]))
                            &&& forall|k: int| 0 <= k < j && (rv.len() == 0 || ranks_before(rv.last(), #[trigger] e[k]))
                                ==> k == b || ranks_before(e[b as int], e[k])
                        },
                        None => forall|k: int| 0 <= k < j ==> !(rv.len() == 0 || ranks_before(rv.last(), #[trigger] e[k])),
                    },
                    distinct_keys(e),
                decreases len - j,
            {
                assert(e[j as int] == (self.entries@[j as int].0@, self.entries@[j as int].1));
                let candidate = r.len() == 0 || ranks_before_exec(&r[r.len() - 1], &self.entries[j]);
                if candidate {
                    match best {
                        None => {
                            best = Some(j);
                        },
                        Some(b) => {
                            assert(e[b as int] == (self.entries@[b as int].0@, self.entries@[b as int].1));
                            if ranks_before_exec(&self.entries[j], &self.entries[b]) {
                                proof {
                                    assert forall|k: int| 0 <= k < j + 1 && (rv.len() == 0 || ranks_before(rv.last(), #[trigger] e[k]))
                                        implies k == j || ranks_before(e[j as int], e[k]) by {
                                        if k != j && k != b {
                                            lemma_ranks_transitive(e[j as int], e[b as int], e[k]);
                                        }
                                    }
                                }
                                best = Some(j);
                            } else {
                                proof {
                                    lemma_ranks_total(e[j as int], e[b as int]);
                                }
                            }
                        },
                    }
                }
                j = j + 1;
            }
            match best {
                Some(b) => {
                    let item = self.entries[b].0.clone();
                    let count = self.entries[b].1;
                    r.push((item, count));
                    proof {
                        let nv = r@.map_values(|p: (String, u64)| (p.0@, p.1));
                        assert(nv =~= rv.push(e[b as int]));
                        assert forall|i: int, j2: int| 0 <= i < j2 < nv.len() implies ranks_before(nv[i], nv[j2]) by {
                            if j2 == nv.len() - 1 && i < j2 - 1 {
                                lemma_ranks_transitive(rv[i], rv.last(), e[b as int]);
                            }
                        }
                        assert forall|i: int| 0 <= i < nv.len() implies e.contains(#[trigger] nv[i]) by {
                            if i == nv.len() - 1 {
                                assert(e[b as int] == nv[i]);
                            } else {
                                assert(nv[i] == rv[i]);
                            }
                        }
                        assert forall|k: int| 0 <= k < e.len() implies nv.contains(#[trigger] e[k]) || forall|i: int| 0 <= i < nv.len() ==> ranks_before(#[trigger] nv[i], e[k]) by {
                            if rv.contains(e[k]) {
                                let i = choose|i: int| 0 <= i < rv.len() && rv[i] == e[k];
                                assert(nv[i] == e[k]);
                            } else if k == b {
                                assert(nv[nv.len() - 1] == e[k]);
                            } else {
                                assert(forall|i: int| 0 <= i < rv.len() ==> ranks_before(#[trigger] rv[i], e[k]));
                                if rv.len() > 0 {
                                    assert(ranks_before(rv[rv.len() - 1], e[k]));
                                }
                                assert(ranks_before(e[b as int], e[k]));
                                assert forall|i: int| 0 <= i < nv.len() implies ranks_before(#[trigger] nv[i], e[k]) by {
                                    if i < rv.len() {
                                        assert(nv[i] == rv[i]);
                                    }
                                }
                            }
                        }
                    }
                },
                None => {
                    proof {
                        assert forall|k: int| 0 <= k < e.len() implies rv.contains(#[trigger] e[k]) by {
                            if !rv.contains(e[k]) {
                                assert(forall|i: int| 0 <= i < rv.len() ==> ranks_before(#[trigger] rv[i], e[k]));
                                if rv.len() > 0 {
                                    assert(ranks_before(rv[rv.len() - 1], e[k]));
                                }
                            }
                        }
                        lemma_all_in(e, rv);
                    }
                    assert(false);
                    return r;
                },
            }
        }
        r
    }
}

/// The start of the line that shows an entry: its trimmed text, the color
/// reset, its count with thousands separators and the opening bracket of
/// its share.
pub open spec fn count_line_start(item: Seq<char>, count: u64) -> Seq<char> {
    "    "@ + trimmed(item) + crate::constants::RESET_COLOR@ + ": "@ + with_commas(count as nat) + " ("@
}

/// `s` without leading and trailing white space.
pub open spec fn trimmed(s: Seq<char>) -> Seq<char> {
    let b = choose|b: (int, int)| is_trim_bounds(s, b.0, b.1);
    s.subrange(b.0, b.1)
}

/// The start of the line that shows an entry (see `count_line_start`).
pub fn count_line(item: &str, count: u64) -> (r: String)
    ensures
        r@ == count_line_start(item@, count),
{
    let chars = str_chars(item);
    let (lo, hi) = trim_bounds(&chars);
    let t = trim(item);
    proof {
        assert(is_trim_bounds(item@, lo as int, hi as int));
        let b = choose|b: (int, int)| is_trim_bounds(item@, b.0, b.1);
        crate::text::lemma_trim_bounds_unique(item@, lo as int, hi as int, b.0, b.1);
    }
    let mut line = String::new();
    push_str(&mut line, "    ");
    push_str(&mut line, t.as_str());
    push_str(&mut line, crate::constants::RESET_COLOR);
    push_str(&mut line, ": ");
    push_with_commas(&mut line, count);
    push_str(&mut line, " (");
    line
}

impl Counter {
    /// The entries to show when `n` are asked for: as many as asked (or as
    /// the counter's fixed number), at most all of them, none when nothing
    /// was counted.
    pub fn top_counts(&self, n: usize) -> (r: Vec<(String, u64)>)
        requires
            self.wf(),
        ensures
            ({
                let wanted: nat = match self@.frozen_n {
                    Some(f) => f as nat,
                    None => n as nat,
                };
                let actual: nat = if wanted <= self@.entries.len() { wanted } else { self@.entries.len() };
                let rv = r@.map_values(|p: (String, u64)| (p.0@, p.1));
                if actual == 0 || self@.total_count == 0 {
                    rv.len() == 0
                } else {
                    is_top(self@.entries, actual, rv)
                }
            }),
    {
        let wanted = match self.frozen_n {
            Some(f) => f,
            None => n,
        };
        let actual = if wanted <= self.entries.len() { wanted } else { self.entries.len() };
        if actual == 0 || self.total_count == 0 {
            return Vec::new();
        }
        self.top_entries(actual)
    }
}

/// An aggregator that keeps nothing and says so.
pub struct NoneAg {}

impl NoneAg {
    pub fn new() -> (r: NoneAg) {
        NoneAg {}
    }

    /// Ignores the message.
    pub fn update(&mut self, _message: &str) {
    }

    /// The one line it shows, whatever is asked.
    pub fn messages(&self, _n: usize) -> (r: Vec<String>)
        ensures
            r@.len() == 1,
            r@[0]@ == "    Disabled"@,
    {
        let mut v: Vec<String> = Vec::new();
        v.push("    Disabled".to_owned());
        v
    }
}

/// One more and then one fewer of the same text leaves the counts as they were.
pub proof fn law_decrement_undoes_increment(m: Map<Seq<char>, u64>, k: Seq<char>)
    requires
        m.contains_key(k) ==> m[k] < u64::MAX,
        forall|x: Seq<char>| #[trigger] m.contains_key(x) ==> m[x] >= 1,
    ensures
        counts_after_decrement(counts_after_increment(m, k), k) == m,
{
    if m.contains_key(k) {
        assert(counts_after_decrement(counts_after_increment(m, k), k) =~= m);
    } else {
        assert(counts_after_decrement(counts_after_increment(m, k), k) =~= m);
    }
}

/// Every count of a counter is positive, and the total is their sum.
pub proof fn law_counter_total(c: &Counter)
    requires
        c.wf(),
    ensures
        c@.total_count == count_sum(c@.entries),
        forall|k: Seq<char>| #[trigger] c@.counts().contains_key(k) ==> c@.counts()[k] >= 1,
{
    assert forall|k: Seq<char>| #[trigger] c@.counts().contains_key(k) implies c@.counts()[k] >= 1 by {
        lemma_key_index(c@.entries, k);
    }
}

} // verus!
