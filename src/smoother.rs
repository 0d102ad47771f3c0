//! Debounced detection over the most recent per-window labels.
use crate::history::{ring_get, ring_items, ring_of_zeros, ring_push, HISTORY_LEN};
use circular_buffer::FixedCircularBuffer;
use vstd::prelude::*;

verus! {

/// The history sum must strictly exceed this for a detection.
pub const DETECTION_THRESHOLD: u32 = 1;

/// Sum of a sequence of labels.
pub open spec fn label_sum(s: Seq<u8>) -> int
    decreases s.len(),
{
    if s.len() == 0 {
        0
    } else {
        label_sum(s.drop_last()) + s.last() as int
    }
}

/// The detection state derived from a history.
pub open spec fn detected(h: Seq<u8>) -> bool {
    label_sum(h) > DETECTION_THRESHOLD as int
}

/// The history a smoother starts with: full of absent labels.
pub open spec fn initial_history() -> Seq<u8> {
    Seq::new(HISTORY_LEN as nat, |_i: int| 0u8)
}

/// One observation: the oldest label leaves, the new one enters at the back.
pub open spec fn shift_in(h: Seq<u8>, label: u8) -> Seq<u8> {
    h.drop_first().push(label)
}

/// The history after observing `labels` in order, starting from `h`.
pub open spec fn history_after(h: Seq<u8>, labels: Seq<u8>) -> Seq<u8>
    decreases labels.len(),
{
    if labels.len() == 0 {
        h
    } else {
        shift_in(history_after(h, labels.drop_last()), labels.last())
    }
}

/// Holds the last `HISTORY_LEN` labels and derives a stable detection state.
pub struct DetectionSmoother {
    history: FixedCircularBuffer<u8, 20>,
}

impl View for DetectionSmoother {
    type V = Seq<u8>;

    closed spec fn view(&self) -> Seq<u8> {
        ring_items(self.history)
    }
}

impl DetectionSmoother {
    /// The history always holds exactly `HISTORY_LEN` labels.
    pub open spec fn wf(&self) -> bool {
        self@.len() == HISTORY_LEN
    }

    /// A smoother whose history is full of absent (zero) labels.
    pub fn new() -> (r: Self)
        ensures
            r.wf(),
            r@ == initial_history(),
    {
        DetectionSmoother { history: ring_of_zeros() }
    }

    /// Sum of the labels currently held.
    pub fn history_sum(&self) -> (r: u32)
        requires
            self.wf(),
        ensures
            r as int == label_sum(self@),
    {
        let mut acc: u32 = 0;
        let mut i: usize = 0;
        while i < HISTORY_LEN
            invariant
                self.wf(),
                0 <= i <= HISTORY_LEN,
                acc as int == label_sum(self@.take(i as int)),
                acc <= 255 * i,
            decreases HISTORY_LEN - i,
        {
            let x = ring_get(&self.history, i);
            let v: u8 = match x {
                Some(v) => v,
                None => 0,
            };
            assert(self@.take(i + 1).drop_last() =~= self@.take(i as int));
            acc = acc + v as u32;
            i = i + 1;
        }
        assert(self@.take(HISTORY_LEN as int) =~= self@);
        acc
    }

    /// The current detection state.
    pub fn is_detected(&self) -> (r: bool)
        requires
            self.wf(),
        ensures
            r == detected(self@),
    {
        self.history_sum() > DETECTION_THRESHOLD
    }

    /// Records `label`, evicting the oldest one, and returns the new state.
    pub fn observe(&mut self, label: u8) -> (r: bool)
        requires
            old(self).wf(),
        ensures
            final(self).wf(),
            final(self)@ == shift_in(old(self)@, label),
            r == detected(final(self)@),
    {
        ring_push(&mut self.history, label);
        self.is_detected()
    }

    /// The most recent label.
    pub fn latest(&self) -> (r: u8)
        requires
            self.wf(),
        ensures
            r == self@.last(),
    {
        match ring_get(&self.history, HISTORY_LEN - 1) {
            Some(v) => v,
            None => 0,
        }
    }

    /// The labels held, oldest first.
    pub fn history(&self) -> (r: Vec<u8>)
        requires
            self.wf(),
        ensures
            r@ == self@,
    {
        let mut out: Vec<u8> = Vec::new();
        let mut i: usize = 0;
        while i < HISTORY_LEN
            invariant
                self.wf(),
                0 <= i <= HISTORY_LEN,
                out@ == self@.take(i as int),
            decreases HISTORY_LEN - i,
        {
            let v: u8 = match ring_get(&self.history, i) {
                Some(v) => v,
                None => 0,
            };
            out.push(v);
            assert(out@ =~= self@.take(i + 1));
            i = i + 1;
        }
        assert(self@.take(HISTORY_LEN as int) =~= self@);
        out
    }
}

/// Bounded memory with first-in first-out eviction: starting from any full
/// history `h`, after observing `labels` the history holds exactly
/// `HISTORY_LEN` labels, namely the last `HISTORY_LEN` of `h` followed by
/// `labels`.
pub proof fn lemma_history_fifo(h: Seq<u8>, labels: Seq<u8>)
    requires
        h.len() == HISTORY_LEN,
    ensures
        history_after(h, labels).len() == HISTORY_LEN,
        history_after(h, labels) == (h + labels).subrange(
            labels.len() as int,
            labels.len() + HISTORY_LEN,
        ),
    decreases labels.len(),
{
    let n = labels.len() as int;
    if n == 0 {
        assert((h + labels).subrange(0, HISTORY_LEN as int) =~= h);
    } else {
        lemma_history_fifo(h, labels.drop_last());
        let all = h + labels;
        let prev = h + labels.drop_last();
        assert(prev =~= all.take(all.len() - 1));
        assert(shift_in(prev.subrange(n - 1, n - 1 + HISTORY_LEN), labels.last())
            =~= all.subrange(n, n + HISTORY_LEN));
    }
}

/// Threshold rule over a run: starting from the initial history, the state
/// after observing `labels` is `true` exactly when the last `HISTORY_LEN`
/// observations (absent labels counting zero) sum to 2 or more; so it stays
/// `false` while that rolling sum is at most 1 and turns `true` at the first
/// observation that brings it to 2.
pub proof fn lemma_detection_threshold(labels: Seq<u8>)
    ensures
        detected(history_after(initial_history(), labels)) <==> label_sum(
            (initial_history() + labels).subrange(
                labels.len() as int,
                labels.len() + HISTORY_LEN,
            ),
        ) >= 2,
{
    lemma_history_fifo(initial_history(), labels);
}

} // verus!
