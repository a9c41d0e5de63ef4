//! A bounded window of goroutine counts and the test for sustained growth.
use std::collections::VecDeque;
use vstd::prelude::*;

verus! {

/// How many samples the window keeps.
pub const MAX_SAMPLES: usize = 120;

/// The shortest span, in seconds, over which growth counts as a leak.
pub const MIN_LEAK_WINDOW_SECS: u64 = 300;

/// The smallest increase in goroutines that counts as a leak.
pub const MIN_GOROUTINE_INCREASE: u64 = 50;

/// The shortest span, in seconds, over which a growth rate is given.
pub const MIN_RATE_WINDOW_SECS: u64 = 60;

/// The most recent `(epoch, goroutines)` samples, oldest first.
pub struct GoroutineTrend {
    samples: VecDeque<(u64, u64)>,
}

/// The last `n` items of `s`, or all of them where there are fewer.
pub open spec fn last_n<A>(s: Seq<A>, n: nat) -> Seq<A> {
    if s.len() > n {
        s.skip(s.len() - n)
    } else {
        s
    }
}

/// Seconds from the first to the last sample, counted as zero where the
/// clock went back.
pub open spec fn span_secs(s: Seq<(u64, u64)>) -> nat {
    if s.last().0 >= s[0].0 {
        (s.last().0 - s[0].0) as nat
    } else {
        0
    }
}

/// The increase from the first to the last count, zero where it fell.
pub open spec fn increase(s: Seq<(u64, u64)>) -> nat {
    if s.last().1 >= s[0].1 {
        (s.last().1 - s[0].1) as nat
    } else {
        0
    }
}

/// The first count, the last count and the seconds between them, where
/// the window spans at least a minute.
pub open spec fn growth_window_spec(s: Seq<(u64, u64)>) -> Option<(u64, u64, u64)> {
    if s.len() == 0 || span_secs(s) < MIN_RATE_WINDOW_SECS {
        None
    } else {
        Some((s[0].1, s.last().1, span_secs(s) as u64))
    }
}

/// Sustained growth: over at least five minutes the count rose by at least
/// fifty, at a rate of at least one goroutine a minute.
pub open spec fn suspicious(s: Seq<(u64, u64)>) -> bool {
    &&& s.len() > 0
    &&& span_secs(s) >= MIN_LEAK_WINDOW_SECS
    &&& increase(s) >= MIN_GOROUTINE_INCREASE
    &&& increase(s) * 60 >= span_secs(s)
}

impl View for GoroutineTrend {
    type V = Seq<(u64, u64)>;

    closed spec fn view(&self) -> Seq<(u64, u64)> {
        self.samples@
    }
}

impl GoroutineTrend {
    pub fn new() -> (t: Self)
        ensures
            t@ == Seq::<(u64, u64)>::empty(),
    {
        GoroutineTrend { samples: VecDeque::new() }
    }

    /// Adds a sample; the window keeps the newest `MAX_SAMPLES`.
    pub fn record(&mut self, epoch: u64, goroutines: u64)
        ensures
            final(self)@ == last_n(old(self)@.push((epoch, goroutines)), MAX_SAMPLES as nat),
    {
        let ghost s = old(self)@.push((epoch, goroutines));
        self.samples.push_back((epoch, goroutines));
        while self.samples.len() > MAX_SAMPLES
            invariant
                self.samples@ == last_n(s, self.samples@.len()),
                self.samples@.len() <= s.len(),
                s.len() <= MAX_SAMPLES ==> self.samples@.len() == s.len(),
                s.len() > MAX_SAMPLES ==> self.samples@.len() >= MAX_SAMPLES,
            decreases self.samples.len(),
        {
            let ghost before = self.samples@;
            let _ = self.samples.pop_front();
            assert(self.samples@ =~= last_n(s, self.samples@.len()));
        }
        assert(self.samples@ =~= last_n(s, MAX_SAMPLES as nat));
    }

    /// The number of samples held.
    pub fn len(&self) -> (n: usize)
        ensures
            n == self@.len(),
    {
        self.samples.len()
    }

    /// The first count, the last count and the seconds between them, as
    /// the growth rate per minute `(last - first) / seconds * 60` needs
    /// them; `None` where the window spans less than a minute.
    pub fn growth_window(&self) -> (r: Option<(u64, u64, u64)>)
        ensures
            r == growth_window_spec(self@),
    {
        let n = self.samples.len();
        if n == 0 {
            return None;
        }
        let (first_epoch, first_count) = self.samples[0];
        let (last_epoch, last_count) = self.samples[n - 1];
        let elapsed = last_epoch.saturating_sub(first_epoch);
        if elapsed < MIN_RATE_WINDOW_SECS {
            return None;
        }
        Some((first_count, last_count, elapsed))
    }

    /// Whether the window shows sustained goroutine growth.
    pub fn is_suspicious(&self) -> (b: bool)
        ensures
            b == suspicious(self@),
    {
        let n = self.samples.len();
        if n == 0 {
            return false;
        }
        let (first_epoch, first_count) = self.samples[0];
        let (last_epoch, last_count) = self.samples[n - 1];
        let elapsed = last_epoch.saturating_sub(first_epoch);
        let grown = last_count.saturating_sub(first_count);
        if elapsed < MIN_LEAK_WINDOW_SECS || grown < MIN_GOROUTINE_INCREASE {
            return false;
        }
        (grown as u128) * 60 >= elapsed as u128
    }
}

impl Default for GoroutineTrend {
    fn default() -> (t: Self)
        ensures
            t@ == Seq::<(u64, u64)>::empty(),
    {
        GoroutineTrend::new()
    }
}

/// The window never holds more than `MAX_SAMPLES` samples, and a sample
/// just recorded is the newest one.
pub proof fn lemma_record_bounded(s: Seq<(u64, u64)>, epoch: u64, goroutines: u64)
    ensures
        last_n(s.push((epoch, goroutines)), MAX_SAMPLES as nat).len() <= MAX_SAMPLES,
        last_n(s.push((epoch, goroutines)), MAX_SAMPLES as nat).last() == (epoch, goroutines),
{
}

/// A window that spans less than five minutes, or over which the count
/// rose by less than fifty, is never suspicious.
pub proof fn lemma_short_or_flat_window_not_suspicious(s: Seq<(u64, u64)>)
    requires
        s.len() > 0,
        span_secs(s) < MIN_LEAK_WINDOW_SECS || increase(s) < MIN_GOROUTINE_INCREASE,
    ensures
        !suspicious(s),
{
}

/// Growth is measured from the first to the last sample of the window: it
/// is sustained exactly when the last sample lies at least five minutes
/// after the first, holds at least fifty goroutines more, and the rise is
/// at least one goroutine per minute over that whole time, whatever the
/// samples in between hold.
pub proof fn lemma_suspicious_first_to_last(s: Seq<(u64, u64)>)
    ensures
        suspicious(s) <==> {
            &&& s.len() > 0
            &&& s.last().0 >= s[0].0 + 300
            &&& s.last().1 >= s[0].1 + 50
            &&& (s.last().1 - s[0].1) * 60 >= s.last().0 - s[0].0
        },
{
}

/// Two windows with the same first and last samples are judged alike,
/// whatever lies between them.
pub proof fn lemma_suspicious_ignores_middle(s: Seq<(u64, u64)>, t: Seq<(u64, u64)>)
    requires
        s.len() > 0,
        t.len() > 0,
        s[0] == t[0],
        s.last() == t.last(),
    ensures
        suspicious(s) == suspicious(t),
{
}

} // verus!
