//! Poll-rate control: how often the main loop looks for new messages.
use std::collections::VecDeque;
use vstd::prelude::*;

verus! {

/// Fastest poll rate in milliseconds (1000Hz).
pub const FASTEST: u64 = 1;
/// Slowest poll rate in milliseconds (1Hz).
pub const SLOWEST: u64 = 1000;
/// Default poll rate in milliseconds.
pub const DEFAULT: u64 = 50;

/// A full window of `SLOWEST` readings must still sum inside a `u64`.
pub open spec fn window_fits(max_size: usize) -> bool {
    max_size * SLOWEST <= u64::MAX
}

pub open spec fn clamp(v: int, lo: int, hi: int) -> int {
    if v < lo { lo } else if v > hi { hi } else { v }
}

/// Milliseconds per message over a window: the elapsed time (truncated to
/// `u64`) divided by the message count, `SLOWEST` when no message came, and
/// always clamped to `[FASTEST, SLOWEST]`.
pub open spec fn spec_ms_per_message(millis: u128, messages: u64) -> int {
    let ms = millis as u64;
    let q: int = if messages == 0 { SLOWEST as int } else { ms as int / messages as int };
    clamp(q, FASTEST as int, SLOWEST as int)
}

/// Rate in milliseconds per message over an elapsed window of `millis` milliseconds.
pub fn ms_per_message(millis: u128, messages: u64) -> (r: u64)
    ensures
        r == spec_ms_per_message(millis, messages),
        FASTEST <= r <= SLOWEST,
{
    #[verifier::truncate]
    let ms = millis as u64;
    let q = match ms.checked_div(messages) {
        Some(v) => v,
        None => SLOWEST,
    };
    if q < FASTEST {
        FASTEST
    } else if q > SLOWEST {
        SLOWEST
    } else {
        q
    }
}

/// The state of a backoff tracker: cycle count and the previous base rate.
pub struct BackoffView {
    pub num_cycles: u64,
    pub previous_base: u64,
}

/// One step of the backoff: from a state and a measured poll rate, the next
/// state and the poll rate to use.
pub open spec fn backoff_step(s: BackoffView, poll_rate: u64) -> (BackoffView, u64) {
    if poll_rate > s.previous_base || poll_rate == SLOWEST {
        let increase: int = s.previous_base * s.num_cycles;
        let cycles: u64 = if s.num_cycles == u64::MAX { 1 } else { (s.num_cycles + 1) as u64 };
        let grown: int = s.previous_base + increase;
        let base: int = if grown < poll_rate { grown } else { poll_rate as int };
        let base2: int = if base < SLOWEST { base } else { SLOWEST as int };
        (BackoffView { num_cycles: cycles, previous_base: base2 as u64 }, base2 as u64)
    } else {
        let base: u64 = if poll_rate < 1 { 1 } else { poll_rate };
        (BackoffView { num_cycles: 1, previous_base: base }, poll_rate)
    }
}

/// The backoff never asks for a slower poll rate than the one measured,
/// keeps its base within `[FASTEST, SLOWEST]`, and, as soon as messages come
/// at least as fast as its base (below `SLOWEST`), drops back to the measured
/// rate and starts counting its increases afresh.
pub proof fn law_backoff_bounds(s: BackoffView, poll_rate: u64)
    requires
        1 <= s.num_cycles,
        FASTEST <= s.previous_base <= SLOWEST,
    ensures
        backoff_step(s, poll_rate).1 <= poll_rate,
        backoff_step(s, poll_rate).1 <= SLOWEST,
        FASTEST <= backoff_step(s, poll_rate).0.previous_base <= SLOWEST,
        1 <= backoff_step(s, poll_rate).0.num_cycles,
        poll_rate <= s.previous_base && poll_rate != SLOWEST ==> {
            &&& backoff_step(s, poll_rate).1 == poll_rate
            &&& backoff_step(s, poll_rate).0.num_cycles == 1
        },
{
    assert(s.previous_base * s.num_cycles >= 0) by (nonlinear_arith)
        requires
            s.previous_base >= 1,
            s.num_cycles >= 1,
    ;
}

/// Grows the poll rate slowly while messages slow down, and drops back at once
/// when they speed up.
#[derive(Debug)]
pub struct Backoff {
    num_cycles: u64,
    previous_base: u64,
}

impl View for Backoff {
    type V = BackoffView;

    closed spec fn view(&self) -> BackoffView {
        BackoffView { num_cycles: self.num_cycles, previous_base: self.previous_base }
    }
}

impl Backoff {
    #[verifier::type_invariant]
    spec fn inv(self) -> bool {
        &&& 1 <= self.num_cycles
        &&& 1 <= self.previous_base <= SLOWEST
    }

    /// Whether the tracker is in a valid state (cycles at least one, base in `[1, SLOWEST]`).
    pub open spec fn wf(self) -> bool {
        &&& 1 <= self@.num_cycles
        &&& 1 <= self@.previous_base <= SLOWEST
    }

    /// Whether the next step cannot overflow.
    pub open spec fn can_step(self) -> bool {
        self@.previous_base * (self@.num_cycles + 1) <= u64::MAX
    }

    pub fn new() -> (b: Backoff)
        ensures
            b@ == (BackoffView { num_cycles: 1, previous_base: DEFAULT }),
    {
        Backoff { num_cycles: 1, previous_base: DEFAULT }
    }

    /// Number of times in a row the poll rate has been increased.
    pub fn num_cycles(&self) -> (r: u64)
        ensures
            r == self@.num_cycles,
    {
        self.num_cycles
    }

    /// The previous amount the poll rate was increased to.
    pub fn previous_base(&self) -> (r: u64)
        ensures
            r == self@.previous_base,
    {
        self.previous_base
    }

    /// Whether `determine_poll_rate` can be called without overflow.
    pub fn can_step_exec(&self) -> (r: bool)
        ensures
            r == self.can_step(),
    {
        proof {
            use_type_invariant(self);
            assert(self.previous_base * (self.num_cycles + 1) >= self.num_cycles + 1) by (nonlinear_arith)
                requires
                    self.previous_base >= 1,
                    self.num_cycles >= 1,
            ;
        }
        match self.num_cycles.checked_add(1) {
            Some(cycles) => self.previous_base.checked_mul(cycles).is_some(),
            None => false,
        }
    }

    /// Decide the poll rate to use after measuring `poll_rate`.
    pub fn determine_poll_rate(&mut self, poll_rate: u64) -> (r: u64)
        requires
            old(self).can_step(),
        ensures
            (final(self)@, r) == backoff_step(old(self)@, poll_rate),
            r <= poll_rate,
            r <= SLOWEST,
            final(self).wf(),
    {
        proof {
            use_type_invariant(&*self);
        }
        if poll_rate > self.previous_base || poll_rate == SLOWEST {
            assert(self.previous_base * self.num_cycles + self.previous_base <= u64::MAX) by (nonlinear_arith)
                requires
                    self.previous_base * (self.num_cycles + 1) <= u64::MAX,
            ;
            let increase = self.previous_base * self.num_cycles;
            self.num_cycles = match self.num_cycles.checked_add(1) {
                Some(v) => v,
                None => 1,
            };
            let grown = self.previous_base + increase;
            let base = if grown < poll_rate { grown } else { poll_rate };
            let base2 = if base < SLOWEST { base } else { SLOWEST };
            self.previous_base = base2;
            self.previous_base
        } else {
            self.num_cycles = 1;
            self.previous_base = if poll_rate < 1 { 1 } else { poll_rate };
            poll_rate
        }
    }
}

/// Sum of a sequence of readings.
pub open spec fn seq_sum(s: Seq<u64>) -> int
    decreases s.len(),
{
    if s.len() == 0 {
        0
    } else {
        s[0] + seq_sum(s.drop_first())
    }
}

proof fn lemma_seq_sum_drop_last(s: Seq<u64>)
    requires
        s.len() > 0,
    ensures
        seq_sum(s) == seq_sum(s.drop_last()) + s.last(),
    decreases s.len(),
{
    if s.len() == 1 {
        assert(s.drop_first().len() == 0);
        assert(s.drop_last().len() == 0);
        assert(seq_sum(s.drop_first()) == 0);
        assert(seq_sum(s.drop_last()) == 0);
    } else {
        lemma_seq_sum_drop_last(s.drop_first());
        assert(s.drop_first().drop_last() =~= s.drop_last().drop_first());
        assert(seq_sum(s.drop_last()) == s.drop_last()[0] + seq_sum(s.drop_last().drop_first()));
        assert(s.drop_last()[0] == s[0]);
        assert(s.drop_first().last() == s.last());
    }
}

proof fn lemma_seq_sum_push_front(x: u64, s: Seq<u64>)
    ensures
        seq_sum(seq![x] + s) == x + seq_sum(s),
{
    assert((seq![x] + s).drop_first() =~= s);
}

proof fn lemma_seq_sum_bound(s: Seq<u64>, hi: u64)
    requires
        forall|i: int| 0 <= i < s.len() ==> s[i] <= hi,
    ensures
        0 <= seq_sum(s) <= s.len() * hi,
    decreases s.len(),
{
    if s.len() > 0 {
        lemma_seq_sum_bound(s.drop_first(), hi);
        assert(s.len() * hi == hi + (s.len() - 1) * hi) by (nonlinear_arith);
    }
}

/// The readings a `RollingMean` holds, newest first, and its parameters.
pub struct RollingMeanView {
    pub items: Seq<u64>,
    pub sum: u64,
    pub size: u64,
    pub max_size: usize,
    pub tracker: BackoffView,
}

/// The window after `update` has pushed `adjusted` in front: the oldest
/// reading leaves once the window is full.
pub open spec fn window_after(items: Seq<u64>, max_size: usize, adjusted: u64) -> Seq<u64> {
    if items.len() >= max_size && items.len() > 0 {
        seq![adjusted] + items.drop_last()
    } else {
        seq![adjusted] + items
    }
}

/// A moving average over the last `max_size` poll-rate readings, each
/// first passed through a `Backoff`.
#[derive(Debug)]
pub struct RollingMean {
    deque: VecDeque<u64>,
    sum: u64,
    size: u64,
    max_size: usize,
    tracker: Backoff,
}

impl View for RollingMean {
    type V = RollingMeanView;

    closed spec fn view(&self) -> RollingMeanView {
        RollingMeanView {
            items: self.deque@,
            sum: self.sum,
            size: self.size,
            max_size: self.max_size,
            tracker: self.tracker@,
        }
    }
}

impl RollingMean {
    /// The facts that always hold of a rolling mean.
    pub open spec fn wf(self) -> bool {
        let v = self@;
        &&& window_fits(v.max_size)
        &&& v.sum == seq_sum(v.items)
        &&& forall|i: int| 0 <= i < v.items.len() ==> v.items[i] <= SLOWEST
        &&& v.size == (if v.items.len() <= v.max_size { v.items.len() } else { v.max_size as nat })
        &&& v.items.len() <= (if v.max_size == 0 { 1 } else { v.max_size as nat })
        &&& 1 <= v.tracker.num_cycles
        &&& 1 <= v.tracker.previous_base <= SLOWEST
    }

    /// Whether the next `update` cannot overflow.
    pub open spec fn can_update(self) -> bool {
        self@.tracker.previous_base * (self@.tracker.num_cycles + 1) <= u64::MAX
    }

    pub fn new(max_size: usize) -> (r: RollingMean)
        requires
            window_fits(max_size),
        ensures
            r@.items == Seq::<u64>::empty(),
            r@.sum == 0,
            r@.size == 0,
            r@.max_size == max_size,
            r@.tracker == (BackoffView { num_cycles: 1, previous_base: DEFAULT }),
            r.wf(),
    {
        RollingMean {
            deque: VecDeque::with_capacity(max_size),
            sum: 0,
            size: 0,
            max_size,
            tracker: Backoff::new(),
        }
    }

    pub fn sum(&self) -> (r: u64)
        ensures
            r == self@.sum,
    {
        self.sum
    }

    pub fn size(&self) -> (r: u64)
        ensures
            r == self@.size,
    {
        self.size
    }

    pub fn max_size(&self) -> (r: usize)
        ensures
            r == self@.max_size,
    {
        self.max_size
    }

    /// Number of readings currently held.
    pub fn len(&self) -> (r: usize)
        ensures
            r == self@.items.len(),
    {
        self.deque.len()
    }

    pub fn tracker(&self) -> (r: &Backoff)
        ensures
            r@ == self@.tracker,
    {
        &self.tracker
    }

    /// Whether `update` can be called without overflow.
    pub fn can_update_exec(&self) -> (r: bool)
        ensures
            r == self.can_update(),
    {
        self.tracker.can_step_exec()
    }

    /// Add a reading: it is first passed through the backoff tracker, then
    /// pushed in front; the oldest reading leaves when the window is full.
    pub fn update(&mut self, item: u64)
        requires
            old(self).wf(),
            old(self).can_update(),
        ensures
            ({
                let (t, adjusted) = backoff_step(old(self)@.tracker, item);
                &&& final(self)@.tracker == t
                &&& final(self)@.items == window_after(old(self)@.items, old(self)@.max_size, adjusted)
            }),
            final(self)@.max_size == old(self)@.max_size,
            final(self).wf(),
    {
        if self.deque.len() >= self.max_size {
            let ghost before = self.deque@;
            let popped = self.deque.pop_back();
            let v = match popped {
                Some(v) => v,
                None => 0,
            };
            proof {
                if before.len() > 0 {
                    lemma_seq_sum_drop_last(before);
                    lemma_seq_sum_bound(before.drop_last(), SLOWEST);
                    assert(self.deque@ =~= before.drop_last());
                }
            }
            self.sum = self.sum - v;
        } else {
            self.size = self.size + 1;
        }
        let adjusted_item = self.tracker.determine_poll_rate(item);
        let ghost mid = self.deque@;
        proof {
            lemma_seq_sum_push_front(adjusted_item, mid);
            lemma_seq_sum_bound(seq![adjusted_item] + mid, SLOWEST);
            assert((mid.len() + 1) * SLOWEST <= self.max_size * SLOWEST || mid.len() + 1 <= 1) by (nonlinear_arith)
                requires
                    mid.len() + 1 <= self.max_size || mid.len() + 1 <= 1,
            ;
        }
        self.deque.push_front(adjusted_item);
        self.sum = self.sum + adjusted_item;
    }

    /// Integer mean of the readings held (0 when empty).
    pub fn mean(&self) -> (r: u64)
        requires
            self.wf(),
        ensures
            r == (if self@.size == 0 { 0 } else { self@.sum / self@.size }),
            r <= SLOWEST,
    {
        proof {
            lemma_seq_sum_bound(self.deque@, SLOWEST);
            if self.size > 0 {
                assert(self.sum / self.size <= SLOWEST) by (nonlinear_arith)
                    requires
                        self.sum <= self.size * SLOWEST,
                        self.size > 0,
                ;
            }
        }
        match self.sum.checked_div(self.size) {
            Some(v) => v,
            None => 0,
        }
    }

    /// Empty the window; the backoff tracker keeps its state.
    pub fn reset(&mut self)
        requires
            old(self).wf(),
        ensures
            final(self)@.items == Seq::<u64>::empty(),
            final(self)@.sum == 0,
            final(self)@.size == 0,
            final(self)@.max_size == old(self)@.max_size,
            final(self)@.tracker == old(self)@.tracker,
            final(self).wf(),
    {
        self.sum = 0;
        self.size = 0;
        self.deque.clear();
    }
}

} // verus!
