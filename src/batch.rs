use vstd::prelude::*;

verus! {

/// What the driver of a batch does next.
#[derive(Clone, Copy, Debug, PartialEq, Eq, Structural)]
pub enum Step {
    /// Draw the current generation.
    Render,
    /// Replace the generation with the next one.
    Update,
    /// Clear the display.
    Clear,
    /// Pause for the given number of nanoseconds.
    Sleep(u64),
    /// The batch is over.
    Finished,
}

/// Where a batch stands within the current generation.
#[derive(Clone, Copy, Debug, PartialEq, Eq, Structural)]
pub enum Phase {
    Render,
    Update,
    Clear,
    Sleep,
}

/// The abstract state of a batch: the generations still to run, the step
/// the current one is at, and the pause between generations.
pub struct BatchModel {
    pub remaining: nat,
    pub phase: Phase,
    pub interval_nanos: u64,
}

/// A batch of `ticks` generations, none when `ticks` is not positive.
pub open spec fn batch_start(ticks: int, interval_nanos: u64) -> BatchModel {
    BatchModel {
        remaining: if ticks > 0 { ticks as nat } else { 0 },
        phase: Phase::Render,
        interval_nanos,
    }
}

/// The step that a batch in state `m` asks for.
pub open spec fn step_of(m: BatchModel) -> Step {
    if m.remaining == 0 {
        Step::Finished
    } else {
        match m.phase {
            Phase::Render => Step::Render,
            Phase::Update => Step::Update,
            Phase::Clear => Step::Clear,
            Phase::Sleep => Step::Sleep(m.interval_nanos),
        }
    }
}

/// The state of a batch after the step of state `m` has been handed out.
pub open spec fn advance(m: BatchModel) -> BatchModel {
    if m.remaining == 0 {
        m
    } else {
        match m.phase {
            Phase::Render => BatchModel { phase: Phase::Update, ..m },
            Phase::Update => BatchModel { phase: Phase::Clear, ..m },
            Phase::Clear => BatchModel { phase: Phase::Sleep, ..m },
            Phase::Sleep => BatchModel { remaining: (m.remaining - 1) as nat, phase: Phase::Render, ..m },
        }
    }
}

/// The state of a batch after `k` steps from state `m`.
pub open spec fn run(m: BatchModel, k: nat) -> BatchModel
    decreases k,
{
    if k == 0 {
        m
    } else {
        run(advance(m), (k - 1) as nat)
    }
}

/// The `j`-th step of a generation, for `j` below four.
pub open spec fn generation_step(j: int, interval_nanos: u64) -> Step {
    if j == 0 {
        Step::Render
    } else if j == 1 {
        Step::Update
    } else if j == 2 {
        Step::Clear
    } else {
        Step::Sleep(interval_nanos)
    }
}

/// The state of a generation-by-generation loop: how many generations remain
/// and how long to pause after each.
pub struct Batch {
    remaining: u64,
    phase: Phase,
    interval_nanos: u64,
}

impl View for Batch {
    type V = BatchModel;

    closed spec fn view(&self) -> BatchModel {
        BatchModel { remaining: self.remaining as nat, phase: self.phase, interval_nanos: self.interval_nanos }
    }
}

impl Batch {
    /// A batch of `ticks` generations, each followed by a pause of
    /// `interval_nanos` nanoseconds. A batch of zero or fewer generations is
    /// finished from the start.
    pub fn new(ticks: i64, interval_nanos: u64) -> (r: Batch)
        ensures
            r@ == batch_start(ticks as int, interval_nanos),
    {
        let remaining: u64 = if ticks > 0 { ticks as u64 } else { 0 };
        Batch { remaining, phase: Phase::Render, interval_nanos }
    }

    /// The number of generations not yet completed.
    pub fn remaining(&self) -> (r: u64)
        ensures
            r == self@.remaining,
    {
        self.remaining
    }

    /// Hands out the next step and moves past it: each generation is
    /// rendered, updated, followed by a clear of the display, then a pause.
    pub fn next(&mut self) -> (r: Step)
        ensures
            r == step_of(old(self)@),
            final(self)@ == advance(old(self)@),
    {
        if self.remaining == 0 {
            return Step::Finished;
        }
        match self.phase {
            Phase::Render => {
                self.phase = Phase::Update;
                Step::Render
            },
            Phase::Update => {
                self.phase = Phase::Clear;
                Step::Update
            },
            Phase::Clear => {
                self.phase = Phase::Sleep;
                Step::Clear
            },
            Phase::Sleep => {
                self.phase = Phase::Render;
                self.remaining = self.remaining - 1;
                Step::Sleep(self.interval_nanos)
            },
        }
    }
}

/// Running a batch twice as many steps is running it once, then again.
proof fn lemma_run_split(m: BatchModel, a: nat, b: nat)
    ensures
        run(m, a + b) == run(run(m, a), b),
    decreases a,
{
    if a > 0 {
        lemma_run_split(advance(m), (a - 1) as nat, b);
        assert(run(m, a + b) == run(advance(m), (a + b - 1) as nat));
    }
}

/// A finished batch stays finished, and asks for nothing but `Finished`.
pub proof fn lemma_finished_stays(m: BatchModel, k: nat)
    requires
        m.remaining == 0,
    ensures
        run(m, k) == m,
        step_of(run(m, k)) == Step::Finished,
    decreases k,
{
    if k > 0 {
        lemma_finished_stays(advance(m), (k - 1) as nat);
    }
}

/// A batch of zero or fewer generations renders nothing, updates nothing and
/// never pauses: every step it hands out is `Finished`.
pub proof fn lemma_empty_batch(ticks: int, interval_nanos: u64, k: nat)
    requires
        ticks <= 0,
    ensures
        step_of(run(batch_start(ticks, interval_nanos), k)) == Step::Finished,
{
    lemma_finished_stays(batch_start(ticks, interval_nanos), k);
}

/// A batch of `ticks` generations hands out, for each generation in turn,
/// `Render`, `Update`, `Clear` and a pause of the configured interval, and
/// after those `4 * ticks` steps it is finished.
pub proof fn lemma_batch_steps(ticks: nat, interval_nanos: u64, g: nat, j: nat)
    ensures
        g < ticks && j < 4 ==> step_of(run(batch_start(ticks as int, interval_nanos), 4 * g + j))
            == generation_step(j as int, interval_nanos),
        step_of(run(batch_start(ticks as int, interval_nanos), 4 * ticks)) == Step::Finished,
{
    let s = batch_start(ticks as int, interval_nanos);
    lemma_generations_done(ticks, interval_nanos, ticks);
    if g < ticks && j < 4 {
        lemma_generations_done(ticks, interval_nanos, g);
        let m = run(s, 4 * g);
        lemma_run_split(s, 4 * g, j);
        reveal_with_fuel(run, 4);
    }
}

/// After `4 * g` steps, `g` generations of the batch are complete.
proof fn lemma_generations_done(ticks: nat, interval_nanos: u64, g: nat)
    requires
        g <= ticks,
    ensures
        run(batch_start(ticks as int, interval_nanos), 4 * g) == (BatchModel {
            remaining: (ticks - g) as nat,
            phase: Phase::Render,
            interval_nanos,
        }),
    decreases g,
{
    let s = batch_start(ticks as int, interval_nanos);
    if g > 0 {
        lemma_generations_done(ticks, interval_nanos, (g - 1) as nat);
        let m = run(s, 4 * (g - 1) as nat);
        lemma_run_split(s, 4 * (g - 1) as nat, 4);
        assert(4 * (g - 1) as nat + 4 == 4 * g);
        reveal_with_fuel(run, 5);
    }
}

} // verus!
