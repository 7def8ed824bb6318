use vstd::prelude::*;

verus! {

/// Process-wide tick settings, fixed at startup.
#[derive(Clone, Copy, Debug, PartialEq, Eq, Structural)]
pub struct TickConfig {
    /// Wall-clock time the ticks of one frame may take, in nanoseconds.
    pub budget_ns: u64,
    /// Simulated time of one tick, in nanoseconds.
    pub interval_ns: u64,
}

/// Whether a frame runs another tick: a whole step is due and the frame's
/// wall-clock budget, of which `spent` is used, is not exceeded.
pub open spec fn runs_tick(acc: int, step: int, budget: int, spent: int) -> bool {
    acc >= step && spent <= budget
}

/// Ticks a frame runs from accumulated time `acc`, where `spent[k]` is the
/// part of the budget used when the frame considers running tick `k`.
pub open spec fn frame_ticks(acc: int, step: int, budget: int, spent: Seq<u64>) -> nat
    decreases spent.len(),
{
    if spent.len() > 0 && runs_tick(acc, step, budget, spent[0] as int) {
        1 + frame_ticks(acc - step, step, budget, spent.drop_first())
    } else {
        0
    }
}

/// Accumulated time a frame leaves for the next one.
pub open spec fn frame_leftover(acc: int, step: int, budget: int, spent: Seq<u64>) -> int {
    acc - frame_ticks(acc, step, budget, spent) * step
}

/// What one decision of [`TickInfo::next_tick`] does: with `spent` of the
/// budget used it answers `r`, and `s` becomes `s2`.
pub open spec fn tick_post(s: TickInfo, spent: u64, r: bool, s2: TickInfo) -> bool {
    &&& r == runs_tick(s.acc_ns as int, s.step_ns as int, s.budget_ns as int, spent as int)
    &&& s2.acc_ns == if r {
        s.acc_ns - s.step_ns
    } else {
        s.acc_ns as int
    }
    &&& s2.budget_ns == s.budget_ns
    &&& s2.step_ns == s.step_ns
}

/// Time-paced scheduling state: the accumulated time not yet simulated.
#[derive(Clone, Copy, Debug, PartialEq, Eq, Structural)]
pub struct TickInfo {
    pub acc_ns: u64,
    pub budget_ns: u64,
    pub step_ns: u64,
}

impl TickInfo {
    /// An empty accumulator for the given settings.
    pub fn new(config: TickConfig) -> (r: TickInfo)
        ensures
            r.acc_ns == 0,
            r.budget_ns == config.budget_ns,
            r.step_ns == config.interval_ns,
    {
        TickInfo { acc_ns: 0, budget_ns: config.budget_ns, step_ns: config.interval_ns }
    }

    /// Adds the frame's elapsed time to the accumulator.
    pub fn begin_frame(&mut self, elapsed_ns: u64)
        requires
            old(self).acc_ns + elapsed_ns <= u64::MAX,
        ensures
            final(self).acc_ns == old(self).acc_ns + elapsed_ns,
            final(self).budget_ns == old(self).budget_ns,
            final(self).step_ns == old(self).step_ns,
    {
        self.acc_ns = self.acc_ns + elapsed_ns;
    }

    /// Decides whether the frame runs one more tick, `spent_ns` into its
    /// stepping phase; if so, takes one step off the accumulator.
    pub fn next_tick(&mut self, spent_ns: u64) -> (r: bool)
        ensures
            tick_post(*old(self), spent_ns, r, *final(self)),
    {
        if self.acc_ns >= self.step_ns && spent_ns <= self.budget_ns {
            self.acc_ns = self.acc_ns - self.step_ns;
            true
        } else {
            false
        }
    }
}

/// With no time added to a drained accumulator, a frame runs no tick and
/// leaves the accumulator as it was.
pub proof fn lemma_idle_frame(acc: int, step: int, budget: int, spent: Seq<u64>)
    requires
        0 <= acc < step,
    ensures
        frame_ticks(acc + 0, step, budget, spent) == 0,
        frame_leftover(acc + 0, step, budget, spent) == acc,
{
    assert(0 * step == 0);
}

/// However far behind the accumulator is, a frame runs at most `acc / step`
/// ticks, stops at the first moment it finds its budget exceeded, and leaves
/// every step it did not run in the accumulator.
pub proof fn lemma_frame_bounded(acc: int, step: int, budget: int, spent: Seq<u64>, j: int)
    requires
        acc >= 0,
        step > 0,
        0 <= j < spent.len(),
        spent[j] > budget,
    ensures
        frame_ticks(acc, step, budget, spent) <= acc / step,
        frame_ticks(acc, step, budget, spent) <= j,
        0 <= frame_leftover(acc, step, budget, spent),
        frame_leftover(acc, step, budget, spent) + frame_ticks(acc, step, budget, spent) * step == acc,
    decreases spent.len(),
{
    lemma_frame_within(acc, step, budget, spent);
    if j > 0 && runs_tick(acc, step, budget, spent[0] as int) {
        let rest = spent.drop_first();
        assert(rest[j - 1] == spent[j]);
        lemma_frame_bounded(acc - step, step, budget, rest, j - 1);
    }
}

proof fn lemma_frame_within(acc: int, step: int, budget: int, spent: Seq<u64>)
    requires
        acc >= 0,
        step > 0,
    ensures
        frame_ticks(acc, step, budget, spent) * step <= acc,
        frame_ticks(acc, step, budget, spent) <= acc / step,
    decreases spent.len(),
{
    let k = frame_ticks(acc, step, budget, spent);
    if spent.len() > 0 && runs_tick(acc, step, budget, spent[0] as int) {
        lemma_frame_within(acc - step, step, budget, spent.drop_first());
        let k1 = frame_ticks(acc - step, step, budget, spent.drop_first());
        assert(k * step == k1 * step + step) by (nonlinear_arith)
            requires k == 1 + k1;
    } else {
        assert(k == 0);
        assert(k * step == 0) by (nonlinear_arith)
            requires k == 0;
    }
    assert(k <= acc / step) by (nonlinear_arith)
        requires k * step <= acc, step > 0, k >= 0;
}

/// Call `i` of a stepping phase (see [`lemma_frame_run`]).
pub open spec fn run_step(states: Seq<TickInfo>, spent: Seq<u64>, results: Seq<bool>, i: int) -> bool {
    tick_post(states[i], spent[i], results[i], states[i + 1])
}

/// A frame's stepping phase as run by the caller: it calls
/// [`TickInfo::next_tick`] with the readings `spent` in turn, from state
/// `states[i]` to `states[i + 1]`, until the first refusal. The ticks it
/// runs and the time it leaves are those of [`frame_ticks`] and
/// [`frame_leftover`].
pub proof fn lemma_frame_run(states: Seq<TickInfo>, spent: Seq<u64>, results: Seq<bool>)
    requires
        spent.len() > 0,
        results.len() == spent.len(),
        states.len() == spent.len() + 1,
        forall|i: int| 0 <= i < spent.len() ==> #[trigger] run_step(states, spent, results, i),
        forall|i: int| 0 <= i < spent.len() - 1 ==> #[trigger] results[i],
        !results.last(),
    ensures
        frame_ticks(states[0].acc_ns as int, states[0].step_ns as int, states[0].budget_ns as int, spent) == spent.len() - 1,
        states.last().acc_ns == frame_leftover(
            states[0].acc_ns as int,
            states[0].step_ns as int,
            states[0].budget_ns as int,
            spent,
        ),
    decreases spent.len(),
{
    let s0 = states[0];
    let (acc, step, budget) = (s0.acc_ns as int, s0.step_ns as int, s0.budget_ns as int);
    assert(run_step(states, spent, results, 0));
    if spent.len() == 1 {
        assert(!runs_tick(acc, step, budget, spent[0] as int));
        assert(frame_ticks(acc, step, budget, spent) == 0);
        assert(0 * step == 0);
    } else {
        assert(results[0]);
        let st = states.drop_first();
        let sp = spent.drop_first();
        let rs = results.drop_first();
        assert forall|i: int| 0 <= i < sp.len() implies #[trigger] run_step(st, sp, rs, i) by {
            assert(run_step(states, spent, results, i + 1));
            assert(st[i] == states[i + 1] && st[i + 1] == states[i + 2]);
        }
        assert forall|i: int| 0 <= i < sp.len() - 1 implies #[trigger] rs[i] by {
            assert(results[i + 1]);
        }
        lemma_frame_run(st, sp, rs);
        assert(st[0] == states[1]);
        let k = frame_ticks(acc - step, step, budget, sp);
        assert(frame_ticks(acc, step, budget, spent) == 1 + k);
        assert((1 + k) * step == step + k * step) by (nonlinear_arith);
    }
}

/// Network-paced scheduling state: ticks announced by the network layer
/// and not yet run, and the number of the next tick.
#[derive(Clone, Copy, Debug, PartialEq, Eq, Structural)]
pub struct TickState {
    pub cur_tick: u16,
    pub ticks_pending: usize,
}

/// The tick number after `t`, wrapping around.
pub open spec fn tick_after(t: u16) -> u16 {
    ((t + 1) % 0x1_0000) as u16
}

impl TickState {
    pub fn new() -> (r: TickState)
        ensures
            r.cur_tick == 0,
            r.ticks_pending == 0,
    {
        TickState { cur_tick: 0, ticks_pending: 0 }
    }

    /// Records `count` tick notifications; the first of them, if any, gives
    /// the current tick number.
    pub fn add_pending(&mut self, count: usize, first: Option<u16>)
        requires
            old(self).ticks_pending + count <= usize::MAX,
        ensures
            final(self).ticks_pending == old(self).ticks_pending + count,
            final(self).cur_tick == match first {
                Some(t) => t,
                None => old(self).cur_tick,
            },
    {
        self.ticks_pending = self.ticks_pending + count;
        if let Some(t) = first {
            self.cur_tick = t;
        }
    }

    /// Decides whether the frame runs one more tick, `spent_ns` into its
    /// stepping phase with a budget of `budget_ns`. If so, returns the number
    /// of the tick to run and counts it off.
    pub fn next_tick(&mut self, spent_ns: u64, budget_ns: u64) -> (r: Option<u16>)
        ensures
            old(self).ticks_pending > 0 && spent_ns <= budget_ns ==> {
                &&& r == Some(old(self).cur_tick)
                &&& final(self).ticks_pending == old(self).ticks_pending - 1
                &&& final(self).cur_tick == tick_after(old(self).cur_tick)
            },
            !(old(self).ticks_pending > 0 && spent_ns <= budget_ns) ==> r.is_none() && *final(self)
                == *old(self),
    {
        if self.ticks_pending > 0 && spent_ns <= budget_ns {
            self.ticks_pending = self.ticks_pending - 1;
            let t = self.cur_tick;
            self.cur_tick = if t == u16::MAX {
                0
            } else {
                t + 1
            };
            Some(t)
        } else {
            None
        }
    }
}

} // verus!
