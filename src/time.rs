use vstd::prelude::*;

verus! {

/// What an [`Accumulator`] holds, as plain numbers.
pub struct AccumulatorView {
    /// Time gathered and not yet turned into whole intervals.
    pub acc: int,
    /// Length of one interval.
    pub interval: int,
}

/// Gathers elapsed nanoseconds and hands them out as whole intervals,
/// keeping the remainder for later.
#[derive(Clone, Debug)]
pub struct Accumulator {
    acc_ns: u64,
    interval_ns: u64,
}

impl View for Accumulator {
    type V = AccumulatorView;

    closed spec fn view(&self) -> AccumulatorView {
        AccumulatorView { acc: self.acc_ns as int, interval: self.interval_ns as int }
    }
}

pub const NANOS_PER_MILLI: u64 = 1_000_000;

pub const NANOS_PER_SEC: u64 = 1_000_000_000;

impl Accumulator {
    /// An empty accumulator with an interval of `interval_ns` nanoseconds.
    pub fn from_nanos(interval_ns: u64) -> (r: Self)
        ensures
            r@ == (AccumulatorView { acc: 0, interval: interval_ns as int }),
    {
        Accumulator { acc_ns: 0, interval_ns }
    }

    /// An empty accumulator with an interval of `interval_ms` milliseconds.
    pub fn from_millis(interval_ms: u32) -> (r: Self)
        ensures
            r@ == (AccumulatorView { acc: 0, interval: NANOS_PER_MILLI * interval_ms }),
    {
        Self::from_nanos(NANOS_PER_MILLI * interval_ms as u64)
    }

    /// An empty accumulator with an interval of `interval_s` seconds.
    pub fn from_secs(interval_s: u32) -> (r: Self)
        ensures
            r@ == (AccumulatorView { acc: 0, interval: NANOS_PER_SEC * interval_s }),
    {
        Self::from_nanos(NANOS_PER_SEC * interval_s as u64)
    }

    /// An accumulator that already holds one full interval of
    /// `interval_ns` nanoseconds, so that its first advance yields at once.
    pub fn ready_from_nanos(interval_ns: u64) -> (r: Self)
        ensures
            r@ == (AccumulatorView { acc: interval_ns as int, interval: interval_ns as int }),
    {
        Accumulator { acc_ns: interval_ns, interval_ns }
    }

    /// Like [`Accumulator::ready_from_nanos`], with the interval in milliseconds.
    pub fn ready_from_millis(interval_ms: u32) -> (r: Self)
        ensures
            r@ == (AccumulatorView {
                acc: NANOS_PER_MILLI * interval_ms,
                interval: NANOS_PER_MILLI * interval_ms,
            }),
    {
        Self::ready_from_nanos(NANOS_PER_MILLI * interval_ms as u64)
    }

    /// Like [`Accumulator::ready_from_nanos`], with the interval in seconds.
    pub fn ready_from_secs(interval_s: u32) -> (r: Self)
        ensures
            r@ == (AccumulatorView {
                acc: NANOS_PER_SEC * interval_s,
                interval: NANOS_PER_SEC * interval_s,
            }),
    {
        Self::ready_from_nanos(NANOS_PER_SEC * interval_s as u64)
    }

    /// The numbers an accumulator holds are those of its two `u64` fields.
    pub proof fn lemma_ranges(&self)
        ensures
            0 <= self@.acc <= u64::MAX,
            0 <= self@.interval <= u64::MAX,
    {
    }

    /// Time gathered and not yet handed out.
    pub fn accumulated_ns(&self) -> (r: u64)
        ensures
            r == self@.acc,
    {
        self.acc_ns
    }

    /// Length of one interval.
    pub fn interval_ns(&self) -> (r: u64)
        ensures
            r == self@.interval,
    {
        self.interval_ns
    }

    /// Adds `ns` nanoseconds and returns `0..n`, where `n` is the number of
    /// whole intervals now gathered; the remainder stays for the next call.
    pub fn advance(&mut self, ns: u64) -> (r: std::ops::Range<u64>)
        requires
            old(self)@.interval > 0,
            old(self)@.acc + ns <= u64::MAX,
        ensures
            r.start == 0,
            r.end == (old(self)@.acc + ns) / old(self)@.interval,
            final(self)@.acc == (old(self)@.acc + ns) % old(self)@.interval,
            final(self)@.interval == old(self)@.interval,
    {
        self.acc_ns = self.acc_ns + ns;
        let n = self.acc_ns / self.interval_ns;
        self.acc_ns = self.acc_ns % self.interval_ns;
        0..n
    }
}

} // verus!
