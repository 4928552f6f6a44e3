use vstd::prelude::*;

verus! {

/// New samples that must accumulate before the running average is compared
/// with the one at the previous checkpoint.
pub const SAMPLES_PER_CHECK: u32 = 20;

/// Hard cap on the samples taken for one pixel, so that a threshold that is
/// never met cannot keep a pixel sampling forever.
pub const MAX_SAMPLES: u32 = 10000;

/// What the pixel loop does next.
#[derive(PartialEq, Eq, Structural, Clone, Copy, Debug)]
pub enum SamplingStep {
    /// Trace one more primary ray and add its radiance to the running sum.
    TakeSample,
    /// Compare the running average now with the one at the last checkpoint,
    /// and report whether they differ by less than the threshold.
    CompareAverages,
    /// Stop: the pixel's color is the running sum over `samples`.
    Finish,
}

/// Adaptive stopping rule for the samples of one pixel.
///
/// `samples` counts the samples taken so far, `checkpoint` is the sample count
/// at the last comparison that did not converge (0 before the first one), and
/// `converged` records that a comparison found the averages close enough.
#[derive(Clone, Copy, Debug)]
pub struct Convergence {
    pub samples: u32,
    pub checkpoint: u32,
    pub converged: bool,
}

impl Convergence {
    /// The state invariant: the checkpoint lies at most one check interval
    /// behind the count, which never passes the cap.
    pub open spec fn wf(self) -> bool {
        &&& self.checkpoint <= self.samples
        &&& self.samples <= self.checkpoint + SAMPLES_PER_CHECK
        &&& self.samples <= MAX_SAMPLES
    }

    /// The step the controller asks for in this state.
    pub open spec fn action(self) -> SamplingStep {
        if self.converged || self.samples >= MAX_SAMPLES {
            SamplingStep::Finish
        } else if self.samples >= self.checkpoint + SAMPLES_PER_CHECK {
            SamplingStep::CompareAverages
        } else {
            SamplingStep::TakeSample
        }
    }

    /// The state once the step asked for has been done; `close` is what a
    /// comparison of averages reported, and is ignored by the other steps.
    pub open spec fn step(self, close: bool) -> Convergence {
        match self.action() {
            SamplingStep::TakeSample => Convergence { samples: (self.samples + 1) as u32, ..self },
            SamplingStep::CompareAverages => if close {
                Convergence { converged: true, ..self }
            } else {
                Convergence { checkpoint: self.samples, ..self }
            },
            SamplingStep::Finish => self,
        }
    }

    /// The state after `steps` steps, where each comparison made at sample
    /// count `n` reports `close(n)`.
    pub open spec fn run(self, close: spec_fn(nat) -> bool, steps: nat) -> Convergence
        decreases steps,
    {
        if steps == 0 {
            self
        } else {
            self.step(close(self.samples as nat)).run(close, (steps - 1) as nat)
        }
    }

    /// The state of a pixel with no samples yet.
    pub open spec fn new_spec() -> Convergence {
        Convergence { samples: 0, checkpoint: 0, converged: false }
    }

    /// A controller for a pixel with no samples yet.
    pub fn new() -> (r: Convergence)
        ensures
            r.wf(),
            r == Convergence::new_spec(),
    {
        Convergence { samples: 0, checkpoint: 0, converged: false }
    }

    /// The step the pixel loop must do next.
    pub fn next_step(&self) -> (r: SamplingStep)
        requires
            self.wf(),
        ensures
            r == self.action(),
    {
        if self.converged || self.samples >= MAX_SAMPLES {
            SamplingStep::Finish
        } else if self.samples >= self.checkpoint + SAMPLES_PER_CHECK {
            SamplingStep::CompareAverages
        } else {
            SamplingStep::TakeSample
        }
    }

    /// Records that one more sample was added to the running sum.
    pub fn record_sample(&mut self)
        requires
            old(self).wf(),
            old(self).action() == SamplingStep::TakeSample,
        ensures
            final(self).wf(),
            *final(self) == old(self).step(false),
            final(self).samples == old(self).samples + 1,
    {
        self.samples = self.samples + 1;
    }

    /// Records the outcome of a comparison of running averages: `close` is
    /// whether they differed by less than the convergence threshold. A close
    /// result stops sampling; otherwise the current count becomes the new
    /// checkpoint.
    pub fn record_comparison(&mut self, close: bool)
        requires
            old(self).wf(),
            old(self).action() == SamplingStep::CompareAverages,
        ensures
            final(self).wf(),
            *final(self) == old(self).step(close),
            final(self).converged == close,
            final(self).samples == old(self).samples,
            close ==> final(self).checkpoint == old(self).checkpoint,
            !close ==> final(self).checkpoint == old(self).samples,
    {
        if close {
            self.converged = true;
        } else {
            self.checkpoint = self.samples;
        }
    }
}

/// Every step keeps the state invariant.
pub proof fn lemma_step_wf(s: Convergence, close: bool)
    requires
        s.wf(),
    ensures
        s.step(close).wf(),
        s.step(close).samples >= s.samples,
{
}

/// Whatever the comparisons report, a run keeps the invariant, never takes
/// more than `MAX_SAMPLES` samples, and, once it asks to finish, stays
/// finished.
pub proof fn lemma_run_wf(s: Convergence, close: spec_fn(nat) -> bool, steps: nat)
    requires
        s.wf(),
    ensures
        s.run(close, steps).wf(),
        s.run(close, steps).samples <= MAX_SAMPLES,
        s.action() == SamplingStep::Finish ==> s.run(close, steps) == s,
    decreases steps,
{
    if steps > 0 {
        lemma_step_wf(s, close(s.samples as nat));
        lemma_run_wf(s.step(close(s.samples as nat)), close, (steps - 1) as nat);
    }
}

/// Steps within which any pixel's sampling ends: one per sample and at most
/// one comparison per sample, plus the final one.
pub open spec fn sampling_step_bound() -> nat {
    (2 * MAX_SAMPLES + 1) as nat
}

/// Steps still available to a state before it must ask to finish: each
/// step that is not `Finish` lowers it by at least one.
pub open spec fn steps_left(s: Convergence) -> nat {
    if s.action() == SamplingStep::Finish {
        0
    } else {
        let due: nat = if s.samples >= s.checkpoint + SAMPLES_PER_CHECK { 1 } else { 0 };
        (2 * (MAX_SAMPLES - s.samples) + due + 1) as nat
    }
}

proof fn lemma_steps_left_decrease(s: Convergence, close: bool)
    requires
        s.wf(),
        s.action() != SamplingStep::Finish,
    ensures
        steps_left(s.step(close)) < steps_left(s),
{
}

/// Running `n + 1` steps is running `n` steps and then one more.
pub proof fn lemma_run_last(s: Convergence, close: spec_fn(nat) -> bool, n: nat)
    ensures
        s.run(close, n + 1) == s.run(close, n).step(close(s.run(close, n).samples as nat)),
    decreases n,
{
    let t = s.step(close(s.samples as nat));
    assert(s.run(close, n + 1) == t.run(close, n));
    if n > 0 {
        lemma_run_last(t, close, (n - 1) as nat);
        assert(s.run(close, n) == t.run(close, (n - 1) as nat));
    }
}

/// From any valid state, a run of `steps_left` steps or more has reached
/// `Finish`, whatever the comparisons report.
pub proof fn lemma_run_finishes(s: Convergence, close: spec_fn(nat) -> bool, n: nat)
    requires
        s.wf(),
        n >= steps_left(s),
    ensures
        s.run(close, n).action() == SamplingStep::Finish,
    decreases n,
{
    if s.action() == SamplingStep::Finish {
        lemma_run_wf(s, close, n);
    } else {
        let c = close(s.samples as nat);
        lemma_steps_left_decrease(s, c);
        lemma_step_wf(s, c);
        lemma_run_finishes(s.step(c), close, (n - 1) as nat);
    }
}

/// Sampling always stops: from a fresh pixel, within `sampling_step_bound()`
/// steps the controller asks to finish, having taken at most `MAX_SAMPLES`
/// samples, whatever each comparison of averages reports.
pub proof fn lemma_sampling_terminates(close: spec_fn(nat) -> bool)
    ensures
        Convergence::new_spec().run(close, sampling_step_bound()).action() == SamplingStep::Finish,
        forall|n: nat| #[trigger] Convergence::new_spec().run(close, n).samples <= MAX_SAMPLES,
{
    lemma_run_finishes(Convergence::new_spec(), close, sampling_step_bound());
    assert forall|n: nat| #[trigger] Convergence::new_spec().run(close, n).samples <= MAX_SAMPLES by {
        lemma_run_wf(Convergence::new_spec(), close, n);
    }
}

proof fn lemma_first_interval(close: spec_fn(nat) -> bool, k: nat)
    requires
        k <= SAMPLES_PER_CHECK,
    ensures
        Convergence::new_spec().run(close, k) == (Convergence { samples: k as u32, checkpoint: 0, converged: false }),
    decreases k,
{
    if k > 0 {
        lemma_first_interval(close, (k - 1) as nat);
        lemma_run_last(Convergence::new_spec(), close, (k - 1) as nat);
    }
}

/// When the first comparison already finds the averages close (as with a
/// very large threshold), sampling stops at exactly the first checkpoint:
/// the controller asks for `SAMPLES_PER_CHECK` samples and nothing else
/// before that, then finishes with that many samples.
pub proof fn lemma_stops_at_first_checkpoint(close: spec_fn(nat) -> bool)
    requires
        close(SAMPLES_PER_CHECK as nat),
    ensures
        forall|k: nat| k < SAMPLES_PER_CHECK ==> #[trigger] Convergence::new_spec().run(close, k).action()
            == SamplingStep::TakeSample,
        Convergence::new_spec().run(close, SAMPLES_PER_CHECK as nat).action() == SamplingStep::CompareAverages,
        Convergence::new_spec().run(close, (SAMPLES_PER_CHECK + 1) as nat).action() == SamplingStep::Finish,
        Convergence::new_spec().run(close, (SAMPLES_PER_CHECK + 1) as nat).samples == SAMPLES_PER_CHECK,
{
    assert forall|k: nat| k < SAMPLES_PER_CHECK implies #[trigger] Convergence::new_spec().run(close, k).action()
        == SamplingStep::TakeSample by {
        lemma_first_interval(close, k);
    }
    lemma_first_interval(close, SAMPLES_PER_CHECK as nat);
    lemma_run_last(Convergence::new_spec(), close, SAMPLES_PER_CHECK as nat);
}

proof fn lemma_never_close_run(s: Convergence, close: spec_fn(nat) -> bool, n: nat)
    requires
        s.wf(),
        !s.converged,
        forall|m: nat| !#[trigger] close(m),
    ensures
        !s.run(close, n).converged,
    decreases n,
{
    if n > 0 {
        lemma_step_wf(s, close(s.samples as nat));
        lemma_never_close_run(s.step(close(s.samples as nat)), close, (n - 1) as nat);
    }
}

/// When no comparison ever finds the averages close (as with a threshold
/// near zero), sampling still stops, at exactly `MAX_SAMPLES` samples.
pub proof fn lemma_stops_at_cap(close: spec_fn(nat) -> bool)
    requires
        forall|m: nat| !#[trigger] close(m),
    ensures
        Convergence::new_spec().run(close, sampling_step_bound()).action() == SamplingStep::Finish,
        Convergence::new_spec().run(close, sampling_step_bound()).samples == MAX_SAMPLES,
{
    let n = sampling_step_bound();
    lemma_run_finishes(Convergence::new_spec(), close, n);
    lemma_run_wf(Convergence::new_spec(), close, n);
    lemma_never_close_run(Convergence::new_spec(), close, n);
}

} // verus!
