//! Lossless chunking of a sample stream into fixed-size, non-overlapping windows.
use vstd::arithmetic::div_mod::{lemma_fundamental_div_mod, lemma_fundamental_div_mod_converse};
use vstd::arithmetic::mul::{
    lemma_mul_inequality, lemma_mul_is_commutative, lemma_mul_is_distributive_add_other_way,
};
use vstd::prelude::*;

verus! {

/// The complete windows of length `w` in `s`, in order; the remainder of
/// `s.len() % w` samples forms no window.
pub open spec fn windows_of(s: Seq<i32>, w: nat) -> Seq<Seq<i32>>
    recommends
        w > 0,
{
    Seq::new(s.len() / w, |k: int| s.subrange(k * w, k * w + w))
}

/// The concatenation of a sequence of windows.
pub open spec fn concat(ws: Seq<Seq<i32>>) -> Seq<i32>
    decreases ws.len(),
{
    if ws.len() == 0 {
        Seq::empty()
    } else {
        concat(ws.drop_last()) + ws.last()
    }
}

/// Buffers incoming samples and hands out each window once it is complete.
pub struct WindowAccumulator {
    window_len: usize,
    pending: Vec<i32>,
}

impl WindowAccumulator {
    /// Samples per window (frames per window times channels).
    pub closed spec fn spec_window_len(&self) -> nat {
        self.window_len as nat
    }

    /// The samples of the window being filled, in arrival order.
    pub closed spec fn spec_pending(&self) -> Seq<i32> {
        self.pending@
    }

    /// The partial window is never complete.
    pub open spec fn wf(&self) -> bool {
        &&& self.spec_window_len() > 0
        &&& self.spec_pending().len() < self.spec_window_len()
    }

    /// An empty accumulator for windows of `window_size` frames of `channels`
    /// interleaved samples each.
    pub fn new(window_size: usize, channels: usize) -> (r: Self)
        requires
            window_size > 0,
            channels > 0,
            window_size * channels <= usize::MAX,
        ensures
            r.wf(),
            r.spec_window_len() == window_size * channels,
            r.spec_pending() == Seq::<i32>::empty(),
    {
        assert(window_size * channels > 0) by (nonlinear_arith)
            requires
                window_size > 0,
                channels > 0,
        ;
        WindowAccumulator { window_len: window_size * channels, pending: Vec::new() }
    }

    /// Samples per window.
    pub fn window_len(&self) -> (r: usize)
        ensures
            r == self.spec_window_len(),
    {
        self.window_len
    }

    /// Number of samples waiting for their window to complete.
    pub fn pending_len(&self) -> (r: usize)
        ensures
            r == self.spec_pending().len(),
    {
        self.pending.len()
    }

    /// Appends one sample; returns the window it completes, if any.
    pub fn push(&mut self, sample: i32) -> (r: Option<Vec<i32>>)
        requires
            old(self).wf(),
        ensures
            final(self).wf(),
            final(self).spec_window_len() == old(self).spec_window_len(),
            old(self).spec_pending().len() + 1 == old(self).spec_window_len() ==> {
                &&& r is Some
                &&& r->Some_0@ == old(self).spec_pending().push(sample)
                &&& final(self).spec_pending() == Seq::<i32>::empty()
            },
            old(self).spec_pending().len() + 1 < old(self).spec_window_len() ==> {
                &&& r is None
                &&& final(self).spec_pending() == old(self).spec_pending().push(sample)
            },
    {
        self.pending.push(sample);
        if self.pending.len() == self.window_len {
            let mut done: Vec<i32> = Vec::new();
            std::mem::swap(&mut done, &mut self.pending);
            Some(done)
        } else {
            None
        }
    }

    /// Appends `samples` in order and returns every window they complete, in
    /// order; what is left over stays pending.
    pub fn push_samples(&mut self, samples: &[i32]) -> (r: Vec<Vec<i32>>)
        requires
            old(self).wf(),
        ensures
            final(self).wf(),
            final(self).spec_window_len() == old(self).spec_window_len(),
            ({
                let all = old(self).spec_pending() + samples@;
                let w = old(self).spec_window_len();
                &&& r@.len() == windows_of(all, w).len()
                &&& forall|k: int| 0 <= k < r@.len() ==> r@[k]@ == windows_of(all, w)[k]
                &&& final(self).spec_pending() == all.subrange((r@.len() * w) as int, all.len() as int)
                &&& concat(r@.map_values(|v: Vec<i32>| v@)) + final(self).spec_pending() == all
            }),
    {
        let ghost start = self.spec_pending();
        let ghost w = self.spec_window_len() as int;
        let mut out: Vec<Vec<i32>> = Vec::new();
        let mut i: usize = 0;
        assert(start + samples@.take(0) =~= start);
        assert(start.subrange(0, start.len() as int) =~= start);
        assert(out@.len() * w == 0) by (nonlinear_arith)
            requires
                out@.len() == 0,
        ;
        while i < samples.len()
            invariant
                self.wf(),
                self.spec_window_len() == w,
                0 <= i <= samples@.len(),
                ({
                    let seen = start + samples@.take(i as int);
                    &&& seen.len() == out@.len() * w + self.spec_pending().len()
                    &&& forall|k: int|
                        0 <= k < out@.len() ==> out@[k]@ == seen.subrange(k * w, k * w + w)
                    &&& self.spec_pending() == seen.subrange(out@.len() * w, seen.len() as int)
                }),
            decreases samples.len() - i,
        {
            let ghost seen = start + samples@.take(i as int);
            let ghost next = start + samples@.take(i + 1);
            assert(next =~= seen.push(samples@[i as int]));
            let ghost n = out@.len() as int;
            match self.push(samples[i]) {
                Some(win) => {
                    out.push(win);
                    proof {
                        lemma_mul_is_distributive_add_other_way(w, n, 1);
                    }
                    assert(win@ =~= next.subrange(n * w, n * w + w));
                    assert(self.spec_pending() =~= next.subrange((n + 1) * w, next.len() as int));
                },
                None => {
                    assert(self.spec_pending() =~= next.subrange(n * w, next.len() as int));
                },
            }
            assert forall|k: int| 0 <= k < n implies out@[k]@ == next.subrange(k * w, k * w + w) by {
                lemma_mul_inequality(k + 1, n, w);
                lemma_mul_is_distributive_add_other_way(w, k, 1);
                assert(next.subrange(k * w, k * w + w) =~= seen.subrange(k * w, k * w + w));
            }
            i = i + 1;
        }
        let ghost all = start + samples@;
        assert(samples@.take(samples@.len() as int) =~= samples@);
        proof {
            lemma_fundamental_div_mod_converse(
                all.len() as int,
                w,
                out@.len() as int,
                self.spec_pending().len() as int,
            );
            let q = all.len() / (w as nat);
            assert(out@.map_values(|v: Vec<i32>| v@) =~= windows_of(all, w as nat));
            lemma_windows_lossless(all, w as nat);
            assert(all.take((q * (w as nat)) as int) + all.subrange(
                (q * (w as nat)) as int,
                all.len() as int,
            ) =~= all);
        }
        out
    }

    /// Drops the partial window; a partial window is never emitted.
    pub fn discard_partial(&mut self)
        requires
            old(self).wf(),
        ensures
            final(self).wf(),
            final(self).spec_window_len() == old(self).spec_window_len(),
            final(self).spec_pending() == Seq::<i32>::empty(),
    {
        self.pending.clear();
    }
}

/// The first `m` windows of `s` concatenated are the first `m * w` samples.
proof fn lemma_concat_prefix(s: Seq<i32>, w: nat, m: nat)
    requires
        w > 0,
        m <= s.len() / w,
    ensures
        concat(windows_of(s, w).take(m as int)) == s.take((m * w) as int),
    decreases m,
{
    lemma_fundamental_div_mod(s.len() as int, w as int);
    lemma_mul_inequality(m as int, s.len() as int / w as int, w as int);
    lemma_mul_is_commutative(w as int, s.len() as int / w as int);
    assert(m * w <= s.len());
    if m == 0 {
        assert(m * w == 0) by (nonlinear_arith)
            requires
                m == 0,
        ;
        assert(s.take(0) =~= Seq::<i32>::empty());
        assert(windows_of(s, w).take(0) =~= Seq::<Seq<i32>>::empty());
    } else {
        let m1 = (m - 1) as nat;
        lemma_concat_prefix(s, w, m1);
        let ws = windows_of(s, w).take(m as int);
        assert(ws.drop_last() =~= windows_of(s, w).take(m1 as int));
        lemma_mul_is_distributive_add_other_way(w as int, m1 as int, 1);
        assert(ws.last() == s.subrange((m1 * w) as int, (m1 * w + w) as int));
        assert(s.take((m * w) as int) =~= s.take((m1 * w) as int) + s.subrange((m1 * w) as int, (m1 * w + w) as int));
    }
}

/// Windowing completeness: a stream of `s.len()` samples, cut into windows of
/// `w` samples, gives exactly `s.len() / w` windows, each of `w` samples taken
/// in arrival order; the last `s.len() % w` samples are in no window.
pub proof fn lemma_windowing_complete(s: Seq<i32>, w: nat)
    requires
        w > 0,
    ensures
        windows_of(s, w).len() == s.len() / w,
        forall|k: int|
            0 <= k < windows_of(s, w).len() ==> #[trigger] windows_of(s, w)[k].len() == w
                && windows_of(s, w)[k] == s.subrange(k * w, k * w + w),
        (s.len() / w) * w + s.len() % w == s.len(),
{
    lemma_fundamental_div_mod(s.len() as int, w as int);
    assert forall|k: int| 0 <= k < windows_of(s, w).len() implies #[trigger] windows_of(
        s,
        w,
    )[k].len() == w && windows_of(s, w)[k] == s.subrange(k * w, k * w + w) by {
        lemma_mul_inequality(k + 1, s.len() as int / w as int, w as int);
        lemma_mul_is_distributive_add_other_way(w as int, k, 1);
    }
}

/// No duplication or loss: the windows of `s`, concatenated in order, are `s`
/// cut to the largest multiple of `w`.
pub proof fn lemma_windows_lossless(s: Seq<i32>, w: nat)
    requires
        w > 0,
    ensures
        concat(windows_of(s, w)) == s.take(((s.len() / w) * w) as int),
{
    lemma_concat_prefix(s, w, s.len() / w);
    assert(windows_of(s, w).take((s.len() / w) as int) =~= windows_of(s, w));
}

} // verus!
