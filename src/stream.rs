use vstd::prelude::*;

verus! {

/// What becomes of one drawn sample.
#[derive(Clone, Copy, Debug, PartialEq, Eq, Structural)]
pub enum Verdict {
    /// The sample fell outside a discard bound: draw again, nothing counts.
    Discard,
    /// Add the sample to the accumulator and emit the accumulator. The
    /// emitted value is the sum of the last `terms` accepted samples; after
    /// emitting, the accumulator is reset to zero when `reset_after` holds.
    Emit { terms: u64, reset_after: bool },
}

/// The decisions of the generation loop: how many samples are still owed,
/// which draws are discarded, and what the accumulator holds.
#[derive(Clone, Copy, Debug, PartialEq, Eq, Structural)]
pub struct SampleStream {
    /// Number of samples to emit; `None` for an endless stream.
    pub limit: Option<u64>,
    /// Whether each emitted value is the running sum of all accepted samples.
    pub cumulative: bool,
    /// Number of samples emitted so far (it stops growing at `u64::MAX`).
    pub emitted: u64,
}

/// Whether a draw, given as (below the lower bound, above the upper bound),
/// is kept.
pub open spec fn passes(d: (bool, bool)) -> bool {
    !(d.0 || d.1)
}

/// Number of kept draws among `draws`.
pub open spec fn accepted(draws: Seq<(bool, bool)>) -> nat
    decreases draws.len(),
{
    if draws.len() == 0 {
        0
    } else {
        accepted(draws.drop_last()) + if passes(draws.last()) {
            1nat
        } else {
            0
        }
    }
}

/// The stream and the verdict after judging one draw.
pub open spec fn step(s: SampleStream, d: (bool, bool)) -> (SampleStream, Verdict) {
    if !passes(d) {
        (s, Verdict::Discard)
    } else {
        let e: u64 = if s.emitted < u64::MAX {
            (s.emitted + 1) as u64
        } else {
            s.emitted
        };
        (
            SampleStream { limit: s.limit, cumulative: s.cumulative, emitted: e },
            Verdict::Emit { terms: if s.cumulative { e } else { 1 }, reset_after: !s.cumulative },
        )
    }
}

/// The stream and the verdicts after judging each of `draws` in turn.
pub open spec fn run(s: SampleStream, draws: Seq<(bool, bool)>) -> (SampleStream, Seq<Verdict>)
    decreases draws.len(),
{
    if draws.len() == 0 {
        (s, Seq::empty())
    } else {
        let (before, verdicts) = run(s, draws.drop_last());
        let (after, v) = step(before, draws.last());
        (after, verdicts.push(v))
    }
}

/// Over any run of draws: a draw is discarded exactly when it lies outside
/// a bound, discarded draws are not counted, and each emission counts one
/// more kept draw. In cumulative mode the value emitted for the k-th kept
/// draw is the sum of the first k kept draws (the accumulator is never
/// reset); otherwise it is that draw alone and the accumulator is reset.
pub proof fn lemma_run(s: SampleStream, draws: Seq<(bool, bool)>)
    requires
        s.emitted + draws.len() <= u64::MAX,
    ensures
        run(s, draws).1.len() == draws.len(),
        run(s, draws).0.emitted == s.emitted + accepted(draws),
        run(s, draws).0.limit == s.limit,
        run(s, draws).0.cumulative == s.cumulative,
        forall|i: int|
            0 <= i < draws.len() ==> (#[trigger] run(s, draws).1[i] is Discard <==> !passes(draws[i])),
        forall|i: int|
            0 <= i < draws.len() && passes(draws[i]) ==> #[trigger] run(s, draws).1[i] == (Verdict::Emit {
                terms: if s.cumulative {
                    (s.emitted + accepted(draws.take(i + 1))) as u64
                } else {
                    1
                },
                reset_after: !s.cumulative,
            }),
    decreases draws.len(),
{
    if draws.len() > 0 {
        let prefix = draws.drop_last();
        lemma_run(s, prefix);
        lemma_accepted_le(prefix);
        let (before, verdicts) = run(s, prefix);
        let n = draws.len() - 1;
        assert(draws.take(n + 1) == draws);
        assert forall|i: int| 0 <= i < n implies draws.take(i + 1) == prefix.take(i + 1) && draws[i] == prefix[i] by {
            assert(draws.take(i + 1) =~= prefix.take(i + 1));
        }
        assert forall|i: int| 0 <= i < draws.len() implies (#[trigger] run(s, draws).1[i] is Discard <==> !passes(draws[i])) by {
            if i < n {
                assert(run(s, draws).1[i] == verdicts[i]);
            }
        }
    }
}

proof fn lemma_accepted_le(draws: Seq<(bool, bool)>)
    ensures
        accepted(draws) <= draws.len(),
    decreases draws.len(),
{
    if draws.len() > 0 {
        lemma_accepted_le(draws.drop_last());
    }
}

impl SampleStream {
    pub open spec fn is_done_spec(&self) -> bool {
        match self.limit {
            Some(l) => self.emitted >= l,
            None => false,
        }
    }

    /// A stream that has emitted nothing yet.
    pub fn new(limit: Option<u64>, cumulative: bool) -> (r: SampleStream)
        ensures
            r.limit == limit,
            r.cumulative == cumulative,
            r.emitted == 0,
    {
        SampleStream { limit, cumulative, emitted: 0 }
    }

    /// Whether every requested sample has been emitted.
    pub fn is_done(&self) -> (r: bool)
        ensures
            r == self.is_done_spec(),
    {
        match self.limit {
            Some(l) => self.emitted >= l,
            None => false,
        }
    }

    /// Judges one drawn sample (after exponentiation), given whether it lies
    /// below the lower discard bound and whether it lies above the upper one.
    /// A discarded sample changes nothing; an accepted one is emitted and
    /// counted.
    pub fn judge(&mut self, below_lower: bool, above_upper: bool) -> (r: Verdict)
        requires
            !old(self).is_done_spec(),
        ensures
            (*final(self), r) == step(*old(self), (below_lower, above_upper)),
            final(self).limit == old(self).limit,
            final(self).cumulative == old(self).cumulative,
            (below_lower || above_upper) ==> r == Verdict::Discard && final(self).emitted == old(self).emitted,
            !(below_lower || above_upper) ==> final(self).emitted == if old(self).emitted < u64::MAX {
                old(self).emitted + 1
            } else {
                old(self).emitted as int
            },
            !(below_lower || above_upper) ==> r == (Verdict::Emit {
                terms: if old(self).cumulative {
                    final(self).emitted
                } else {
                    1
                },
                reset_after: !old(self).cumulative,
            }),
    {
        if below_lower || above_upper {
            return Verdict::Discard;
        }
        if self.emitted < u64::MAX {
            self.emitted = self.emitted + 1;
        }
        let terms: u64 = if self.cumulative { self.emitted } else { 1 };
        Verdict::Emit { terms, reset_after: !self.cumulative }
    }
}

} // verus!
