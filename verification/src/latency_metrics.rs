//! Rolling window of round-trip measurements with one remote.

use crate::ping::Micros;
use crate::ping::Timestamp;
use std::collections::VecDeque;
use vstd::prelude::*;

verus! {

/// A round-trip time in microseconds.
pub type Latency = u64;

/// The number of measurements that a window keeps.
pub const MAX_MEASUREMENT_COUNT: usize = 20;

/// After this long without a measurement one more ping is wanted.
pub const PING_TIMEOUT: Micros = 3_000_000;

/// After this long without a measurement, while pings are outstanding, the
/// session is nudged.
pub const PING_NUDGE_INTERVAL: Micros = 1_000_000;

/// The window after `latency` was appended: the oldest sample leaves once
/// the window is full.
pub open spec fn window_after(window: Seq<Latency>, latency: Latency) -> Seq<Latency> {
    if window.len() >= MAX_MEASUREMENT_COUNT {
        window.subrange(1, window.len() as int).push(latency)
    } else {
        window.push(latency)
    }
}

/// `value` is the smallest sample of `window`.
pub open spec fn is_min_of(value: Latency, window: Seq<Latency>) -> bool {
    &&& window.contains(value)
    &&& forall|i: int| 0 <= i < window.len() ==> value <= #[trigger] window[i]
}

/// Pings wanted to fill a window of `len` samples.
pub open spec fn baseline_need(len: nat) -> nat {
    if len >= MAX_MEASUREMENT_COUNT {
        0
    } else {
        (MAX_MEASUREMENT_COUNT - len) as nat
    }
}

/// Pings wanted because the last measurement is older than the timeout.
pub open spec fn timeout_need(last_update: Timestamp, now: Timestamp) -> nat {
    if now > last_update && now - last_update > PING_TIMEOUT {
        1
    } else {
        0
    }
}

/// The larger of the two needs.
pub open spec fn pings_needed(len: nat, last_update: Timestamp, now: Timestamp) -> nat {
    if baseline_need(len) >= timeout_need(last_update, now) {
        baseline_need(len)
    } else {
        timeout_need(last_update, now)
    }
}

/// The mathematical content of a remote's latency metrics.
pub struct MetricsModel {
    /// The samples, oldest first.
    pub window: Seq<Latency>,
    /// When the newest sample was registered.
    pub last_update: Timestamp,
    /// Pings that were asked for and whose measurement has not arrived.
    pub pending: nat,
}

impl MetricsModel {
    pub open spec fn well_formed(self) -> bool {
        1 <= self.window.len() <= MAX_MEASUREMENT_COUNT
    }

    /// Every sample is positive.
    pub open spec fn samples_positive(self) -> bool {
        forall|i: int| 0 <= i < self.window.len() ==> #[trigger] self.window[i] > 0
    }

    /// Metrics that hold one measurement, taken at `now`.
    pub open spec fn first(latency: Latency, now: Timestamp) -> MetricsModel {
        MetricsModel { window: seq![latency], last_update: now, pending: 0 }
    }

    /// The metrics after a measurement taken at `now` was registered.
    pub open spec fn registered(self, latency: Latency, now: Timestamp) -> MetricsModel {
        MetricsModel {
            window: window_after(self.window, latency),
            last_update: now,
            pending: if self.pending == 0 {
                0
            } else {
                (self.pending - 1) as nat
            },
        }
    }

    /// How many more measurements are wanted at `now`; `None` while pings
    /// asked for earlier are pending.
    pub open spec fn wanted(self, now: Timestamp) -> Option<nat> {
        if self.pending > 0 {
            None
        } else {
            Some(pings_needed(self.window.len(), self.last_update, now))
        }
    }

    /// The metrics after they were asked how many measurements are wanted:
    /// that many pings are then pending.
    pub open spec fn polled(self, now: Timestamp) -> MetricsModel {
        match self.wanted(now) {
            Some(n) => MetricsModel { pending: n, ..self },
            None => self,
        }
    }

    /// Whether the last measurement is older than the nudge interval.
    pub open spec fn stale(self, now: Timestamp) -> bool {
        now > self.last_update && now - self.last_update > PING_NUDGE_INTERVAL
    }
}

/// Latency measurements with one remote.
#[derive(Clone, Debug, PartialEq, Eq)]
pub struct LatencyMetrics {
    latencies: VecDeque<Latency>,
    last_update: Timestamp,
    pending_pings: usize,
}

impl View for LatencyMetrics {
    type V = MetricsModel;

    closed spec fn view(&self) -> MetricsModel {
        MetricsModel {
            window: self.latencies@,
            last_update: self.last_update,
            pending: self.pending_pings as nat,
        }
    }
}

impl LatencyMetrics {
    pub open spec fn well_formed(&self) -> bool {
        self@.well_formed()
    }

    /// Metrics that hold one measurement, taken at `now`.
    pub fn new(latency: Latency, now: Timestamp) -> (metrics: Self)
        ensures
            metrics.well_formed(),
            metrics@ == MetricsModel::first(latency, now),
    {
        let mut latencies: VecDeque<Latency> = VecDeque::new();
        latencies.push_back(latency);
        assert(latencies@ =~= seq![latency]);
        LatencyMetrics { latencies, last_update: now, pending_pings: 0 }
    }

    /// Appends a measurement taken at `now`; one pending ping is settled.
    /// A full window drops its oldest sample.
    pub fn register_latency(&mut self, latency: Latency, now: Timestamp)
        requires
            old(self).well_formed(),
        ensures
            final(self).well_formed(),
            final(self)@ == old(self)@.registered(latency, now),
            final(self)@.window.last() == latency,
            old(self)@.samples_positive() && latency > 0 ==> final(self)@.samples_positive(),
    {
        if self.latencies.len() >= MAX_MEASUREMENT_COUNT {
            let _ = self.latencies.pop_front();
        }
        self.latencies.push_back(latency);
        self.last_update = now;
        self.pending_pings = self.pending_pings.saturating_sub(1);
    }

    /// The newest measurement.
    pub fn latest_latency(&self) -> (latency: Latency)
        requires
            self.well_formed(),
        ensures
            latency == self@.window.last(),
    {
        self.latencies[self.latencies.len() - 1]
    }

    /// The smallest measurement in the window.
    pub fn min_latency(&self) -> (latency: Latency)
        requires
            self.well_formed(),
        ensures
            is_min_of(latency, self@.window),
    {
        let mut best: Latency = self.latencies[0];
        let mut i: usize = 1;
        while i < self.latencies.len()
            invariant
                1 <= i <= self.latencies@.len(),
                exists|k: int| 0 <= k < i && self.latencies@[k] == best,
                forall|k: int| 0 <= k < i ==> best <= #[trigger] self.latencies@[k],
            decreases self.latencies@.len() - i,
        {
            let sample: Latency = self.latencies[i];
            if sample < best {
                best = sample;
            }
            i += 1;
        }
        best
    }

    /// How many more measurements are wanted at time `now`.
    ///
    /// `None` while pings asked for earlier are still pending. Otherwise the
    /// number needed to fill the window, or one if the last measurement is
    /// older than the timeout, whichever is larger; that many pings are then
    /// pending.
    pub fn how_many_more_pings(&mut self, now: Timestamp) -> (wanted: Option<usize>)
        requires
            old(self).well_formed(),
        ensures
            final(self).well_formed(),
            final(self)@ == old(self)@.polled(now),
            match wanted {
                Some(n) => old(self)@.wanted(now) == Some(n as nat),
                None => old(self)@.wanted(now).is_none(),
            },
    {
        if self.pending_pings > 0 {
            return None;
        }
        let timeout_pings: usize = if now.saturating_sub(self.last_update) > PING_TIMEOUT {
            1
        } else {
            0
        };
        let count_pings: usize = MAX_MEASUREMENT_COUNT.saturating_sub(self.latencies.len());
        self.pending_pings = if timeout_pings > count_pings {
            timeout_pings
        } else {
            count_pings
        };
        Some(self.pending_pings)
    }

    /// When the newest sample was registered.
    pub fn last_update(&self) -> (at: Timestamp)
        ensures
            at == self@.last_update,
    {
        self.last_update
    }

    /// The number of samples in the window.
    pub fn len(&self) -> (n: usize)
        ensures
            n == self@.window.len(),
    {
        self.latencies.len()
    }

    /// The number of pending pings.
    pub fn pending_pings(&self) -> (n: usize)
        ensures
            n == self@.pending,
    {
        self.pending_pings
    }

    /// Whether the last measurement is older than the nudge interval.
    pub fn is_stale(&self, now: Timestamp) -> (stale: bool)
        ensures
            stale == self@.stale(now),
    {
        now.saturating_sub(self.last_update) > PING_NUDGE_INTERVAL
    }

    /// A copy of the metrics.
    pub fn snapshot(&self) -> (copy: Self)
        ensures
            copy@ == self@,
    {
        let mut latencies: VecDeque<Latency> = VecDeque::new();
        let mut i: usize = 0;
        while i < self.latencies.len()
            invariant
                i <= self.latencies@.len(),
                latencies@ == self.latencies@.subrange(0, i as int),
            decreases self.latencies@.len() - i,
        {
            latencies.push_back(self.latencies[i]);
            i += 1;
            assert(latencies@ =~= self.latencies@.subrange(0, i as int));
        }
        assert(latencies@ =~= self.latencies@);
        LatencyMetrics {
            latencies,
            last_update: self.last_update,
            pending_pings: self.pending_pings,
        }
    }
}

/// The window never holds fewer than one or more than twenty samples, however
/// many measurements are registered.
pub proof fn lemma_window_stays_bounded(window: Seq<Latency>, latency: Latency)
    requires
        1 <= window.len() <= MAX_MEASUREMENT_COUNT,
    ensures
        1 <= window_after(window, latency).len() <= MAX_MEASUREMENT_COUNT,
        window_after(window, latency).last() == latency,
        window.len() < MAX_MEASUREMENT_COUNT ==> window_after(window, latency).len()
            == window.len() + 1,
        window.len() == MAX_MEASUREMENT_COUNT ==> window_after(window, latency).len()
            == MAX_MEASUREMENT_COUNT,
{
}

/// A window has exactly one smallest sample value.
pub proof fn lemma_min_is_unique(a: Latency, b: Latency, window: Seq<Latency>)
    requires
        is_min_of(a, window),
        is_min_of(b, window),
    ensures
        a == b,
{
    let i = choose|i: int| 0 <= i < window.len() && window[i] == a;
    let j = choose|j: int| 0 <= j < window.len() && window[j] == b;
    assert(b <= window[i]);
    assert(a <= window[j]);
}

} // verus!
