//! The history tape of commands the user has typed.
use vstd::prelude::*;
use crate::text::{is_trim_bounds, trim};

verus! {

/// Text that is never recorded in the history.
pub open spec fn is_history_excluded(s: Seq<char>) -> bool {
    s == ":history"@ || s == ":history off"@
}

fn is_history_excluded_exec(s: &str) -> (r: bool)
    ensures
        r == is_history_excluded(s@),
{
    let a = ":history";
    let b = ":history off";
    proof {
        reveal_strlit(":history");
        reveal_strlit(":history off");
    }
    str_equal(s, a) || str_equal(s, b)
}

/// Character-wise equality of two strings.
pub fn str_equal(a: &str, b: &str) -> (r: bool)
    ensures
        r == (a@ == b@),
{
    let x = crate::text::str_chars(a);
    let y = crate::text::str_chars(b);
    if x.len() != y.len() {
        return false;
    }
    let mut i: usize = 0;
    while i < x.len()
        invariant
            x@ == a@,
            y@ == b@,
            x@.len() == y@.len(),
            i <= x@.len(),
            forall|k: int| 0 <= k < i ==> x@[k] == y@[k],
        decreases x@.len() - i,
    {
        if x[i] != y[i] {
            return false;
        }
        i = i + 1;
    }
    assert(a@ =~= b@);
    true
}

/// The state of a history tape.
pub struct TapeView {
    pub items: Seq<Seq<char>>,
    pub current_index: nat,
    pub should_scroll_back: bool,
}

/// Position after rewinding `n` items: nothing moves on the first rewind,
/// which only arms the tape; afterwards the index drops by `n`, stopping at 0.
pub open spec fn after_scroll_back(t: TapeView, n: nat) -> TapeView {
    if t.should_scroll_back {
        TapeView { current_index: if t.current_index >= n { (t.current_index - n) as nat } else { 0 }, ..t }
    } else {
        TapeView { should_scroll_back: true, ..t }
    }
}

/// Position after moving forward `n` items, stopping at the last item.
pub open spec fn after_scroll_forward(t: TapeView, n: nat) -> TapeView {
    let last = (t.items.len() - 1) as nat;
    if t.current_index != last {
        TapeView { current_index: if t.current_index + n <= last { t.current_index + n } else { last }, ..t }
    } else {
        t
    }
}

/// The commands typed so far, with a cursor for recalling them.
pub struct Tape {
    history_tape: Vec<String>,
    current_index: usize,
    should_scroll_back: bool,
}

impl View for Tape {
    type V = TapeView;

    closed spec fn view(&self) -> TapeView {
        TapeView {
            items: self.history_tape@.map_values(|s: String| s@),
            current_index: self.current_index as nat,
            should_scroll_back: self.should_scroll_back,
        }
    }
}

impl Tape {
    /// The tape is never empty and its cursor is on an item.
    pub open spec fn wf(&self) -> bool {
        &&& self@.items.len() > 0
        &&& self@.current_index < self@.items.len()
    }

    closed spec fn inner_wf(&self) -> bool {
        &&& self.history_tape@.len() > 0
        &&& self.current_index < self.history_tape@.len()
    }

    proof fn lemma_wf(&self)
        ensures
            self.wf() <==> self.inner_wf(),
            self@.items.len() == self.history_tape@.len(),
    {
    }

    /// A tape over the recorded history, the cursor on the newest item.
    pub fn new(history: Vec<String>) -> (t: Tape)
        requires
            history@.len() > 0,
        ensures
            t.wf(),
            t@.items == history@.map_values(|s: String| s@),
            t@.current_index == history@.len() - 1,
            !t@.should_scroll_back,
    {
        let n = history.len();
        Tape { history_tape: history, current_index: n - 1, should_scroll_back: false }
    }

    pub fn len(&self) -> (r: usize)
        ensures
            r == self@.items.len(),
    {
        proof {
            self.lemma_wf();
        }
        self.history_tape.len()
    }

    pub fn current_index(&self) -> (r: usize)
        ensures
            r == self@.current_index,
    {
        self.current_index
    }

    pub fn should_scroll_back(&self) -> (r: bool)
        ensures
            r == self@.should_scroll_back,
    {
        self.should_scroll_back
    }

    pub fn set_should_scroll_back(&mut self, value: bool)
        requires
            old(self).wf(),
        ensures
            final(self)@ == (TapeView { should_scroll_back: value, ..old(self)@ }),
            final(self).wf(),
    {
        self.should_scroll_back = value;
    }

    /// Add an item to the history tape: the item is trimmed, and unless it
    /// is an excluded command it is appended and the cursor reset to it.
    /// Returns the text to persist, if any.
    pub fn add_item(&mut self, item: &str) -> (r: Option<String>)
        requires
            old(self).wf(),
        ensures
            final(self).wf(),
            forall|lo: int, hi: int| is_trim_bounds(item@, lo, hi) ==> {
                let clean = item@.subrange(lo, hi);
                if is_history_excluded(clean) {
                    &&& r is None
                    &&& final(self)@ == old(self)@
                } else {
                    &&& r matches Some(s) && s@ == clean
                    &&& final(self)@.items == old(self)@.items.push(clean)
                    &&& final(self)@.current_index == old(self)@.items.len()
                    &&& !final(self)@.should_scroll_back
                }
            },
    {
        proof {
            self.lemma_wf();
        }
        let clean_item = trim(item);
        if !is_history_excluded_exec(clean_item.as_str()) {
            self.history_tape.push(clean_item.clone());
            self.should_scroll_back = false;
            self.current_index = self.history_tape.len() - 1;
            proof {
                assert(self@.items =~= old(self)@.items.push(clean_item@));
            }
            Some(clean_item)
        } else {
            None
        }
    }

    /// Rewind the tape if possible.
    pub fn scroll_back_n(&mut self, num_to_scroll: usize)
        requires
            old(self).wf(),
        ensures
            final(self)@ == after_scroll_back(old(self)@, num_to_scroll as nat),
            final(self).wf(),
    {
        proof {
            self.lemma_wf();
        }
        if !self.history_tape.is_empty() {
            if self.should_scroll_back {
                self.current_index = match self.current_index.checked_sub(num_to_scroll) {
                    Some(v) => v,
                    None => 0,
                };
            } else {
                self.should_scroll_back = true;
            }
        }
    }

    /// Scroll the tape forward if possible.
    pub fn scroll_forward_n(&mut self, num_to_scroll: usize)
        requires
            old(self).wf(),
        ensures
            final(self)@ == after_scroll_forward(old(self)@, num_to_scroll as nat),
            final(self).wf(),
    {
        proof {
            self.lemma_wf();
        }
        let last = self.history_tape.len() - 1;
        if self.current_index != last && !self.history_tape.is_empty() {
            let moved = match self.current_index.checked_add(num_to_scroll) {
                Some(v) => v,
                None => last,
            };
            self.current_index = if last < moved { last } else { moved };
        }
    }

    /// Common case where we scroll back a single item.
    pub fn scroll_back(&mut self) -> (r: String)
        requires
            old(self).wf(),
        ensures
            final(self)@ == after_scroll_back(old(self)@, 1),
            final(self).wf(),
            r@ == final(self)@.items[final(self)@.current_index as int],
    {
        self.scroll_back_n(1);
        self.get_current_item()
    }

    /// Common case where we scroll forward a single item.
    pub fn scroll_forward(&mut self) -> (r: String)
        requires
            old(self).wf(),
        ensures
            final(self)@ == after_scroll_forward(old(self)@, 1),
            final(self).wf(),
            r@ == final(self)@.items[final(self)@.current_index as int],
    {
        self.scroll_forward_n(1);
        self.get_current_item()
    }

    /// The item under the cursor.
    /// The item at `index`.
    pub fn item(&self, index: usize) -> (r: &String)
        requires
            self.wf(),
            index < self@.items.len(),
        ensures
            r@ == self@.items[index as int],
    {
        proof {
            self.lemma_wf();
        }
        &self.history_tape[index]
    }

    pub fn get_current_item(&self) -> (r: String)
        requires
            self.wf(),
        ensures
            r@ == self@.items[self@.current_index as int],
    {
        proof {
            self.lemma_wf();
        }
        self.history_tape[self.current_index].clone()
    }
}

/// Rewinding `n` items and then moving forward `n` items comes back to the
/// same item, as long as the rewind did not stop at the first item.
pub proof fn law_scroll_back_then_forward(t: TapeView, n: nat)
    requires
        t.should_scroll_back,
        t.current_index < t.items.len(),
        n <= t.current_index,
    ensures
        after_scroll_forward(after_scroll_back(t, n), n) == t,
{
    let b = after_scroll_back(t, n);
    if n == 0 {
        assert(b == t);
    }
}

/// Moving forward never leaves the tape, and never goes back.
pub proof fn law_scroll_forward_stays_on_tape(t: TapeView, n: nat)
    requires
        t.current_index < t.items.len(),
    ensures
        after_scroll_forward(t, n).current_index < t.items.len(),
        after_scroll_forward(t, n).current_index >= t.current_index,
{
}

} // verus!
