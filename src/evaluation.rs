//! Accuracy of smoothed detections against a known ground truth.
use crate::smoother::{detected, initial_history, shift_in, DetectionSmoother};
use vstd::prelude::*;

verus! {

/// Running counts of an evaluation run, with the smoother it feeds.
pub struct Evaluation {
    smoother: DetectionSmoother,
    predictions: u64,
    correct: u64,
}

impl Evaluation {
    /// The smoother's history.
    pub closed spec fn spec_history(&self) -> Seq<u8> {
        self.smoother@
    }

    pub closed spec fn spec_predictions(&self) -> nat {
        self.predictions as nat
    }

    pub closed spec fn spec_correct(&self) -> nat {
        self.correct as nat
    }

    pub open spec fn wf(&self) -> bool {
        &&& self.spec_history().len() == crate::history::HISTORY_LEN
        &&& self.spec_correct() <= self.spec_predictions()
    }

    /// A run with no predictions yet and an initial (all absent) history.
    pub fn new() -> (r: Self)
        ensures
            r.wf(),
            r.spec_history() == initial_history(),
            r.spec_predictions() == 0,
            r.spec_correct() == 0,
    {
        Evaluation { smoother: DetectionSmoother::new(), predictions: 0, correct: 0 }
    }

    /// Feeds the label predicted for one window through the smoother and
    /// compares the smoothed state with `truth`; returns the smoothed state.
    /// A window whose inference failed is simply not recorded.
    pub fn record(&mut self, label: u8, truth: bool) -> (r: bool)
        requires
            old(self).wf(),
            old(self).spec_predictions() < u64::MAX,
        ensures
            final(self).wf(),
            final(self).spec_history() == shift_in(old(self).spec_history(), label),
            r == detected(final(self).spec_history()),
            final(self).spec_predictions() == old(self).spec_predictions() + 1,
            final(self).spec_correct() == old(self).spec_correct() + if r == truth {
                1nat
            } else {
                0nat
            },
    {
        let state = self.smoother.observe(label);
        self.predictions = self.predictions + 1;
        if state == truth {
            self.correct = self.correct + 1;
        }
        state
    }

    /// Windows recorded so far.
    pub fn predictions(&self) -> (r: u64)
        ensures
            r == self.spec_predictions(),
    {
        self.predictions
    }

    /// Windows whose smoothed state matched the ground truth.
    pub fn correct(&self) -> (r: u64)
        ensures
            r == self.spec_correct(),
    {
        self.correct
    }

    /// The most recent label recorded.
    pub fn latest_label(&self) -> (r: u8)
        requires
            self.wf(),
        ensures
            r == self.spec_history().last(),
    {
        self.smoother.latest()
    }
}

} // verus!
