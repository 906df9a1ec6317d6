//! The hold stage of the gain envelope: a moving minimum over a fixed window.
//!
//! Gains are carried as order keys. Every gain the limiter holds is positive
//! and finite, and for such IEEE-754 values the raw bit pattern orders exactly
//! as the value does, so the minimum of the keys is the key of the minimum gain.

use std::collections::VecDeque;

use vstd::prelude::*;

verus! {

/// The smallest value of `values`; `u64::MAX` when there is none.
pub open spec fn min_value(values: Seq<u64>) -> u64
    decreases values.len(),
{
    if values.len() == 0 {
        u64::MAX
    } else {
        let rest = min_value(values.drop_last());
        if values.last() < rest {
            values.last()
        } else {
            rest
        }
    }
}

/// First position of the window of `window` values that ends before `count`.
pub open spec fn window_start(count: int, window: int) -> int {
    if count >= window {
        count - window
    } else {
        0
    }
}

/// The minimum over the last `window` values of `history` (all of them when
/// there are fewer).
pub open spec fn window_minimum(history: Seq<u64>, window: nat) -> u64 {
    min_value(history.subrange(window_start(history.len() as int, window as int), history.len() as int))
}

/// A non-empty sequence holds its minimum, and no element is below it.
pub proof fn lemma_min_value(values: Seq<u64>)
    requires
        values.len() > 0,
    ensures
        exists|i: int| 0 <= i < values.len() && values[i] == min_value(values),
        forall|i: int| 0 <= i < values.len() ==> min_value(values) <= values[i],
    decreases values.len(),
{
    if values.len() == 1 {
        assert(values.drop_last().len() == 0);
        assert(min_value(values.drop_last()) == u64::MAX);
        assert(values[0] == min_value(values));
    } else {
        let rest = values.drop_last();
        lemma_min_value(rest);
        let i = choose|i: int| 0 <= i < rest.len() && rest[i] == min_value(rest);
        if values.last() < min_value(rest) {
            assert(values[values.len() - 1] == min_value(values));
        } else {
            assert(values[i] == min_value(values));
        }
        assert forall|j: int| 0 <= j < values.len() implies min_value(values) <= values[j] by {
            if j < values.len() - 1 {
                assert(rest[j] == values[j]);
            }
        }
    }
}

/// A value that occurs in a sequence and is no larger than any element is
/// the sequence's minimum.
pub proof fn lemma_is_min_value(values: Seq<u64>, position: int)
    requires
        0 <= position < values.len(),
        forall|i: int| 0 <= i < values.len() ==> values[position] <= values[i],
    ensures
        values[position] == min_value(values),
{
    lemma_min_value(values);
    let i = choose|i: int| 0 <= i < values.len() && values[i] == min_value(values);
    assert(values[position] <= values[i]);
}

/// A position among the last `window` values of `history` that holds their
/// minimum.
pub open spec fn window_minimum_position(history: Seq<u64>, window: nat) -> int {
    choose|k: int| 0 <= k < history.len() && history.len() - window <= k && history[k] == window_minimum(history, window)
}

/// The minimum of the last `window` values is no larger than any of them and
/// is one of them.
pub proof fn lemma_window_minimum_of_last_values(history: Seq<u64>, window: nat)
    requires
        window > 0,
        history.len() > 0,
    ensures
        forall|k: int|
            0 <= k < history.len() && history.len() - window <= k ==> window_minimum(history, window)
                <= #[trigger] history[k],
        0 <= window_minimum_position(history, window) < history.len(),
        history.len() - window <= window_minimum_position(history, window),
        history[window_minimum_position(history, window)] == window_minimum(history, window),
{
    let start = window_start(history.len() as int, window as int);
    let last = history.subrange(start, history.len() as int);
    lemma_min_value(last);
    assert forall|k: int| 0 <= k < history.len() && history.len() - window <= k implies window_minimum(
        history,
        window,
    ) <= #[trigger] history[k] by {
        assert(last[k - start] == history[k]);
    }
    let i = choose|i: int| 0 <= i < last.len() && last[i] == min_value(last);
    assert(history[start + i] == window_minimum(history, window));
}

/// Whether some queued entry from position `k` on holds a value no larger
/// than the value seen at `k`.
pub open spec fn covered(queue: Seq<(usize, u64)>, history: Seq<u64>, k: int) -> bool {
    exists|t: int|
        #![trigger queue[t]]
        0 <= t < queue.len() && k <= queue[t].0 && queue[t].1 <= history[k]
}

/// Queued entries name positions in `low..high` of `history` with the values
/// seen there, in strictly increasing position and strictly increasing value.
pub open spec fn entries_valid(queue: Seq<(usize, u64)>, history: Seq<u64>, low: int, high: int) -> bool {
    &&& forall|t: int|
        #![trigger queue[t]]
        0 <= t < queue.len() ==> low <= queue[t].0 < high && history[queue[t].0 as int] == queue[t].1
    &&& forall|a: int, b: int|
        #![trigger queue[a], queue[b]]
        0 <= a < b < queue.len() ==> queue[a].0 < queue[b].0 && queue[a].1 < queue[b].1
}

/// The minimum of the last `window` values stepped in.
///
/// Only the candidates for a future minimum are queued: each queued value is
/// smaller than every value that came after it, so the front of the queue is
/// the current minimum.
#[derive(Clone)]
pub struct MovingMinimum {
    window: usize,
    index: usize,
    values: VecDeque<(usize, u64)>,
    history: Ghost<Seq<u64>>,
}

impl MovingMinimum {
    /// The number of values the minimum is taken over.
    pub closed spec fn window(&self) -> nat {
        self.window as nat
    }

    /// Every value stepped in since the last reset, oldest first.
    pub closed spec fn history(&self) -> Seq<u64> {
        self.history@
    }

    /// The queue is consistent with the values stepped in.
    pub closed spec fn well_formed(&self) -> bool {
        let queue = self.values@;
        let history = self.history@;
        let count = self.index as int;
        let low = window_start(count, self.window as int);
        &&& self.window > 0
        &&& history.len() == count
        &&& entries_valid(queue, history, low, count)
        &&& forall|k: int| low <= k < count ==> #[trigger] covered(queue, history, k)
    }

    /// A moving minimum over `window` values with nothing stepped in yet.
    pub fn new(window: usize) -> (minimum: Self)
        requires
            window > 0,
        ensures
            minimum.well_formed(),
            minimum.window() == window,
            minimum.history() == Seq::<u64>::empty(),
    {
        MovingMinimum {
            window,
            index: 0,
            values: VecDeque::with_capacity(window),
            history: Ghost(Seq::empty()),
        }
    }

    /// Forgets every value stepped in.
    pub fn reset(&mut self)
        requires
            old(self).well_formed(),
        ensures
            final(self).well_formed(),
            final(self).window() == old(self).window(),
            final(self).history() == Seq::<u64>::empty(),
    {
        self.index = 0;
        self.values.clear();
        self.history = Ghost(Seq::empty());
    }

    /// Steps `value` in and returns the minimum of the last `window` values,
    /// `value` included.
    pub fn step(&mut self, value: u64) -> (minimum: u64)
        requires
            old(self).well_formed(),
            old(self).history().len() < usize::MAX,
        ensures
            final(self).well_formed(),
            final(self).window() == old(self).window(),
            final(self).history() == old(self).history().push(value),
            minimum == window_minimum(final(self).history(), final(self).window()),
            minimum <= value,
            forall|k: int|
                0 <= k < final(self).history().len() && final(self).history().len() - final(self).window() <= k
                    ==> minimum <= #[trigger] final(self).history()[k],
            0 <= window_minimum_position(final(self).history(), final(self).window()) < final(self).history().len(),
            final(self).history().len() - final(self).window() <= window_minimum_position(
                final(self).history(),
                final(self).window(),
            ),
            final(self).history()[window_minimum_position(final(self).history(), final(self).window())]
                == minimum,
    {
        let ghost count = self.index as int;
        let ghost history = self.history@;
        let ghost window = self.window as int;
        let ghost queue = self.values@;

        // A queued value at least as large as the new one can never be the
        // minimum again: the new value outlives it.
        while self.values.len() > 0 && self.values[self.values.len() - 1].1 >= value
            invariant
                self.index == count,
                self.window == window,
                self.values@.len() <= queue.len(),
                self.values@ == queue.subrange(0, self.values@.len() as int),
                forall|t: int| self.values@.len() <= t < queue.len() ==> #[trigger] queue[t].1 >= value,
            decreases self.values@.len(),
        {
            self.values.pop_back();
        }
        let ghost kept = self.values@.len() as int;
        proof {
            if kept > 0 {
                assert(queue[kept - 1] == self.values@[kept - 1]);
            }
        }
        self.values.push_back((self.index, value));
        let ghost pushed = self.values@;
        let ghost new_history = history.push(value);
        proof {
            lemma_after_push(queue, history, window, count, kept, value);
        }

        assert(pushed[pushed.len() - 1].0 == count);
        let first_valid = (self.index + 1).saturating_sub(self.window);
        let ghost dropped: int = 0;
        while self.values.len() > 0 && self.values[0].0 < first_valid
            invariant
                self.index == count,
                self.window == window,
                0 <= dropped <= pushed.len(),
                self.values@ == pushed.subrange(dropped, pushed.len() as int),
                forall|t: int| 0 <= t < dropped ==> #[trigger] pushed[t].0 < first_valid,
                pushed.len() > 0,
                pushed[pushed.len() - 1].0 == count,
                count < first_valid + window,
                0 <= first_valid <= count + 1,
            decreases self.values@.len(),
        {
            self.values.pop_front();
            proof {
                dropped = dropped + 1;
            }
        }
        proof {
            lemma_after_drop(pushed, new_history, window_start(count, window), first_valid as int, count + 1, dropped);
        }
        self.index = self.index + 1;
        self.history = Ghost(new_history);
        let minimum = self.values[0].1;
        proof {
            lemma_front_is_minimum(self.values@, new_history, first_valid as int, count + 1);
            lemma_window_minimum_of_last_values(new_history, window as nat);
            assert(new_history[count] == value);
        }
        minimum
    }
}

/// Dropping the back entries not below `value` and queueing `(count, value)`
/// keeps the queue valid and every window position covered.
proof fn lemma_after_push(queue: Seq<(usize, u64)>, history: Seq<u64>, window: int, count: int, kept: int, value: u64)
    requires
        window > 0,
        history.len() == count,
        count < usize::MAX,
        entries_valid(queue, history, window_start(count, window), count),
        forall|k: int| window_start(count, window) <= k < count ==> #[trigger] covered(queue, history, k),
        0 <= kept <= queue.len(),
        forall|t: int| kept <= t < queue.len() ==> #[trigger] queue[t].1 >= value,
        kept > 0 ==> queue[kept - 1].1 < value,
    ensures
        entries_valid(
            queue.subrange(0, kept).push((count as usize, value)),
            history.push(value),
            window_start(count, window),
            count + 1,
        ),
        forall|k: int|
            window_start(count, window) <= k < count + 1 ==> #[trigger] covered(
                queue.subrange(0, kept).push((count as usize, value)),
                history.push(value),
                k,
            ),
{
    let pushed = queue.subrange(0, kept).push((count as usize, value));
    let new_history = history.push(value);
    let low = window_start(count, window);
    assert forall|t: int| 0 <= t < pushed.len() implies low <= #[trigger] pushed[t].0 < count + 1
        && new_history[pushed[t].0 as int] == pushed[t].1 by {
        if t < kept {
            assert(pushed[t] == queue[t]);
        }
    }
    assert forall|a: int, b: int| 0 <= a < b < pushed.len() implies #[trigger] pushed[a].0 < #[trigger] pushed[b].0
        && pushed[a].1 < pushed[b].1 by {
        assert(pushed[a] == queue[a]);
        if b < kept {
            assert(pushed[b] == queue[b]);
        } else {
            if a < kept - 1 {
                assert(queue[a].1 < queue[kept - 1].1);
            }
        }
    }
    assert forall|k: int| low <= k < count + 1 implies #[trigger] covered(pushed, new_history, k) by {
        if k == count {
            assert(pushed[kept] == (count as usize, value));
        } else {
            assert(covered(queue, history, k));
            let t = choose|t: int|
                #![trigger queue[t]]
                0 <= t < queue.len() && k <= queue[t].0 && queue[t].1 <= history[k];
            assert(new_history[k] == history[k]);
            if t < kept {
                assert(pushed[t] == queue[t]);
            } else {
                assert(queue[t].1 >= value);
                assert(pushed[kept] == (count as usize, value));
            }
        }
    }
}

/// Dropping the front entries that fell out of the window keeps the queue
/// valid and every position of the new window covered.
proof fn lemma_after_drop(
    pushed: Seq<(usize, u64)>,
    history: Seq<u64>,
    low: int,
    first_valid: int,
    count: int,
    dropped: int,
)
    requires
        entries_valid(pushed, history, low, count),
        forall|k: int| low <= k < count ==> #[trigger] covered(pushed, history, k),
        low <= first_valid,
        0 <= dropped <= pushed.len(),
        forall|t: int| 0 <= t < dropped ==> #[trigger] pushed[t].0 < first_valid,
        dropped < pushed.len() ==> pushed[dropped].0 >= first_valid,
    ensures
        entries_valid(pushed.subrange(dropped, pushed.len() as int), history, first_valid, count),
        forall|k: int|
            first_valid <= k < count ==> #[trigger] covered(
                pushed.subrange(dropped, pushed.len() as int),
                history,
                k,
            ),
{
    let kept = pushed.subrange(dropped, pushed.len() as int);
    assert forall|t: int| 0 <= t < kept.len() implies first_valid <= #[trigger] kept[t].0 < count
        && history[kept[t].0 as int] == kept[t].1 by {
        assert(kept[t] == pushed[t + dropped]);
        if t > 0 {
            assert(pushed[dropped].0 < pushed[t + dropped].0);
        }
    }
    assert forall|a: int, b: int| 0 <= a < b < kept.len() implies #[trigger] kept[a].0 < #[trigger] kept[b].0
        && kept[a].1 < kept[b].1 by {
        assert(kept[a] == pushed[a + dropped]);
        assert(kept[b] == pushed[b + dropped]);
    }
    assert forall|k: int| first_valid <= k < count implies #[trigger] covered(kept, history, k) by {
        assert(covered(pushed, history, k));
        let t = choose|t: int|
            #![trigger pushed[t]]
            0 <= t < pushed.len() && k <= pushed[t].0 && pushed[t].1 <= history[k];
        if t < dropped {
            assert(pushed[t].0 < first_valid);
        }
        assert(kept[t - dropped] == pushed[t]);
    }
}

/// With the queue valid and the window covered, the front entry holds the
/// window's minimum.
proof fn lemma_front_is_minimum(queue: Seq<(usize, u64)>, history: Seq<u64>, low: int, count: int)
    requires
        history.len() == count,
        0 <= low < count,
        entries_valid(queue, history, low, count),
        forall|k: int| low <= k < count ==> #[trigger] covered(queue, history, k),
    ensures
        queue.len() > 0,
        queue[0].1 == min_value(history.subrange(low, count)),
{
    assert(covered(queue, history, low));
    let window_values = history.subrange(low, count);
    let front = queue[0].0 as int;
    assert forall|i: int| 0 <= i < window_values.len() implies window_values[front - low] <= #[trigger] window_values[i] by {
        assert(covered(queue, history, low + i));
        let t = choose|t: int|
            #![trigger queue[t]]
            0 <= t < queue.len() && low + i <= queue[t].0 && queue[t].1 <= history[low + i];
        if t > 0 {
            assert(queue[0].1 < queue[t].1);
        }
    }
    lemma_is_min_value(window_values, front - low);
}

} // verus!
