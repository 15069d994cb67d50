//! Sliding-window rate limiting, tracked per caller identity.
//!
//! Each identity has a history of admission timestamps.  A call is admitted
//! exactly when, after pruning timestamps that fell out of the window, fewer
//! than the class limit remain; the timestamp is recorded on admission only.
//! The whole behaviour is captured by the pure transition functions
//! [`rl_admit`] and [`rl_next`], and the exact-admission and reset laws are
//! proved about them below.

use vstd::prelude::*;
use crate::types::Principal;

verus! {

/// A single identity's admission history, most recent last.
pub struct RateEntry {
    pub principal: Principal,
    pub timestamps: Vec<u64>,
}

/// Sliding-window request counter per caller identity.
pub struct RateLimiter {
    pub entries: Vec<RateEntry>,
}

/// Hard cap on a single identity's stored history.
pub const RATE_HISTORY_CAP: usize = 1000;

/// How many recent timestamps survive when the cap is exceeded.
pub const RATE_HISTORY_KEEP: usize = 100;

// ---------------------------------------------------------------------------
// Pure model
// ---------------------------------------------------------------------------

/// Lower bound of the window ending at `now`: timestamps at or before it are
/// stale.
pub open spec fn window_start(now: u64, window: u64) -> u64 {
    if now >= window {
        (now - window) as u64
    } else {
        0
    }
}

/// The history with stale timestamps removed, order kept.
pub open spec fn pruned_hist(h: Seq<u64>, start: u64) -> Seq<u64>
    decreases h.len(),
{
    if h.len() == 0 {
        Seq::<u64>::empty()
    } else {
        let rest = pruned_hist(h.drop_last(), start);
        if h.last() > start {
            rest.push(h.last())
        } else {
            rest
        }
    }
}

/// The pruned history trimmed to the most recent entries when it exceeds the
/// hard cap.
pub open spec fn capped_hist(p: Seq<u64>) -> Seq<u64> {
    if p.len() > RATE_HISTORY_CAP {
        p.subrange(p.len() - RATE_HISTORY_KEEP, p.len() as int)
    } else {
        p
    }
}

/// Whether a call at `now` is admitted against history `h`.
pub open spec fn rl_admit(h: Seq<u64>, now: u64, window: u64, max: nat) -> bool {
    capped_hist(pruned_hist(h, window_start(now, window))).len() < max
}

/// The history after a call at `now` (the timestamp is appended only when the
/// call was admitted).
pub open spec fn rl_next(h: Seq<u64>, now: u64, window: u64, max: nat) -> Seq<u64> {
    let c = capped_hist(pruned_hist(h, window_start(now, window)));
    if c.len() < max {
        c.push(now)
    } else {
        c
    }
}

/// The admission outcomes of successive calls at `times`, starting from
/// history `h`.
pub open spec fn rl_results(h: Seq<u64>, times: Seq<u64>, window: u64, max: nat) -> Seq<bool>
    decreases times.len(),
{
    if times.len() == 0 {
        Seq::<bool>::empty()
    } else {
        seq![rl_admit(h, times[0], window, max)]
            + rl_results(rl_next(h, times[0], window, max), times.drop_first(), window, max)
    }
}

// ---------------------------------------------------------------------------
// Facts about pruning
// ---------------------------------------------------------------------------

/// A history whose timestamps all lie past the window start is kept whole.
pub proof fn lemma_pruned_all_kept(h: Seq<u64>, start: u64)
    requires
        forall|i: int| 0 <= i < h.len() ==> #[trigger] h[i] > start,
    ensures
        pruned_hist(h, start) == h,
    decreases h.len(),
{
    if h.len() > 0 {
        lemma_pruned_all_kept(h.drop_last(), start);
        assert(pruned_hist(h, start) =~= h);
    } else {
        assert(pruned_hist(h, start) =~= h);
    }
}

/// A history whose timestamps are all stale prunes to nothing.
pub proof fn lemma_pruned_all_dropped(h: Seq<u64>, start: u64)
    requires
        forall|i: int| 0 <= i < h.len() ==> #[trigger] h[i] <= start,
    ensures
        pruned_hist(h, start) == Seq::<u64>::empty(),
    decreases h.len(),
{
    if h.len() > 0 {
        lemma_pruned_all_dropped(h.drop_last(), start);
    }
}

// ---------------------------------------------------------------------------
// Laws
// ---------------------------------------------------------------------------

/// One admission outcome per call.
pub proof fn lemma_rl_results_len(h: Seq<u64>, times: Seq<u64>, window: u64, max: nat)
    ensures
        rl_results(h, times, window, max).len() == times.len(),
    decreases times.len(),
{
    if times.len() > 0 {
        lemma_rl_results_len(
            rl_next(h, times[0], window, max),
            times.drop_first(),
            window,
            max,
        );
    }
}

/// Helper for the exact-admission law: when every stored and every arriving
/// timestamp lies inside one window `[base, base + window)`, nothing is ever
/// pruned, so the i-th call is admitted exactly while the total count stays
/// under the limit.
proof fn lemma_rl_all_in_window(pre: Seq<u64>, times: Seq<u64>, window: u64, max: nat, base: u64)
    requires
        1 <= base,
        max <= RATE_HISTORY_CAP,
        pre.len() <= max,
        forall|i: int| 0 <= i < pre.len() ==> base <= #[trigger] pre[i] < base + window,
        forall|i: int| 0 <= i < times.len() ==> base <= #[trigger] times[i] < base + window,
    ensures
        forall|i: int| 0 <= i < times.len()
            ==> #[trigger] rl_results(pre, times, window, max)[i] == (pre.len() + i < max),
    decreases times.len(),
{
    if times.len() > 0 {
        let now = times[0];
        let start = window_start(now, window);
        assert(forall|i: int| 0 <= i < pre.len() ==> #[trigger] pre[i] > start);
        lemma_pruned_all_kept(pre, start);
        assert(capped_hist(pre) == pre);
        let h2 = rl_next(pre, now, window, max);
        if pre.len() < max {
            assert(h2 == pre.push(now));
            assert(forall|i: int| 0 <= i < h2.len() ==> base <= #[trigger] h2[i] < base + window);
        } else {
            assert(h2 == pre);
        }
        lemma_rl_all_in_window(h2, times.drop_first(), window, max, base);
        lemma_rl_results_len(pre, times, window, max);
        lemma_rl_results_len(h2, times.drop_first(), window, max);
        assert(rl_results(pre, times, window, max)
            == seq![rl_admit(pre, now, window, max)]
                + rl_results(h2, times.drop_first(), window, max));
        assert(rl_results(pre, times, window, max)[0] == (pre.len() + 0 < max));
        assert(forall|i: int| 1 <= i < times.len()
            ==> #[trigger] rl_results(pre, times, window, max)[i]
                == rl_results(h2, times.drop_first(), window, max)[i - 1]);
        assert(forall|i: int| 1 <= i < times.len()
            ==> #[trigger] rl_results(h2, times.drop_first(), window, max)[i - 1]
                == (h2.len() + i - 1 < max));
        if pre.len() < max {
            assert(h2.len() == pre.len() + 1);
        } else {
            assert(h2.len() == pre.len());
        }
    }
}

/// Exact admission: with a fresh identity and a limit of `max` per `window`,
/// a burst of calls inside one window is admitted for exactly the first
/// `max` calls and refused from the `max + 1`-th on.
pub proof fn lemma_rate_limiter_exact(times: Seq<u64>, window: u64, max: nat)
    requires
        max <= RATE_HISTORY_CAP,
        times.len() > 0,
        1 <= times[0],
        forall|i: int| 0 <= i < times.len()
            ==> times[0] <= #[trigger] times[i] < times[0] + window,
    ensures
        forall|i: int| 0 <= i < times.len()
            ==> #[trigger] rl_results(Seq::<u64>::empty(), times, window, max)[i] == (i < max),
{
    lemma_rl_all_in_window(Seq::<u64>::empty(), times, window, max, times[0]);
}

/// Reset: once a full window has elapsed past every recorded timestamp, the
/// count starts over — the next call is admitted and the history holds only
/// its timestamp.
pub proof fn lemma_rate_limiter_resets(h: Seq<u64>, now: u64, window: u64, max: nat)
    requires
        1 <= max,
        forall|i: int| 0 <= i < h.len() ==> #[trigger] h[i] + window <= now,
    ensures
        rl_admit(h, now, window, max),
        rl_next(h, now, window, max) == seq![now],
{
    let start = window_start(now, window);
    assert(forall|i: int| 0 <= i < h.len() ==> #[trigger] h[i] <= start);
    lemma_pruned_all_dropped(h, start);
    assert(rl_next(h, now, window, max) =~= seq![now]);
}

// ---------------------------------------------------------------------------
// State and executable operations
// ---------------------------------------------------------------------------

impl RateLimiter {
    /// Identities are tracked at most once each.
    pub open spec fn wf(self) -> bool {
        forall|i: int, j: int|
            0 <= i < j < self.entries@.len()
                ==> (#[trigger] self.entries@[i]).principal != (#[trigger] self.entries@[j]).principal
    }

    pub open spec fn has_entry(self, p: Principal) -> bool {
        exists|i: int| 0 <= i < self.entries@.len()
            && (#[trigger] self.entries@[i]).principal == p
    }

    /// The admission history recorded for `p` (empty when untracked).
    pub open spec fn history_of(self, p: Principal) -> Seq<u64> {
        if self.has_entry(p) {
            let i = choose|i: int| 0 <= i < self.entries@.len()
                && (#[trigger] self.entries@[i]).principal == p;
            self.entries@[i].timestamps@
        } else {
            Seq::<u64>::empty()
        }
    }

    pub fn new() -> (r: RateLimiter)
        ensures
            r.wf(),
            forall|p: Principal| #[trigger] r.history_of(p) == Seq::<u64>::empty(),
    {
        RateLimiter { entries: Vec::new() }
    }

    /// The index of `p`'s entry, when one exists.
    fn find_entry(&self, p: Principal) -> (r: Option<usize>)
        ensures
            match r {
                Some(i) => i < self.entries@.len() && self.entries@[i as int].principal == p,
                None => !self.has_entry(p),
            },
    {
        let mut i: usize = 0;
        while i < self.entries.len()
            invariant
                i <= self.entries@.len(),
                forall|k: int| 0 <= k < i ==> (#[trigger] self.entries@[k]).principal != p,
            decreases self.entries@.len() - i,
        {
            if self.entries[i].principal == p {
                return Some(i);
            }
            i = i + 1;
        }
        None
    }

    /// Admits the call and records its timestamp iff the count of timestamps
    /// still inside the window is below `max`.  Other identities' histories
    /// are untouched.
    pub fn allow(&mut self, p: Principal, now: u64, max: usize, window: u64) -> (admitted: bool)
        requires
            old(self).wf(),
        ensures
            final(self).wf(),
            admitted == rl_admit(old(self).history_of(p), now, window, max as nat),
            final(self).history_of(p)
                == rl_next(old(self).history_of(p), now, window, max as nat),
            forall|q: Principal| q != p
                ==> #[trigger] final(self).history_of(q) == old(self).history_of(q),
    {
        let idx: usize = match self.find_entry(p) {
            Some(i) => i,
            None => {
                let i = self.entries.len();
                self.entries.push(RateEntry { principal: p, timestamps: Vec::new() });
                proof {
                    assert(self.entries@[i as int].principal == p);
                    assert(self.history_of(p) == self.entries@[i as int].timestamps@);
                    assert forall|q: Principal| q != p
                        implies old(self).has_entry(q) == self.has_entry(q) by {
                        if old(self).has_entry(q) {
                            let a = choose|a: int| 0 <= a < old(self).entries@.len()
                                && (#[trigger] old(self).entries@[a]).principal == q;
                            assert(self.entries@[a].principal == q);
                        }
                        if self.has_entry(q) {
                            let a = choose|a: int| 0 <= a < self.entries@.len()
                                && (#[trigger] self.entries@[a]).principal == q;
                            assert(a < old(self).entries@.len());
                            assert(old(self).entries@[a].principal == q);
                        }
                    }
                    assert forall|q: Principal| q != p
                        implies #[trigger] self.history_of(q) == old(self).history_of(q) by {
                        if self.has_entry(q) {
                            let a = choose|a: int| 0 <= a < self.entries@.len()
                                && (#[trigger] self.entries@[a]).principal == q;
                            let b = choose|b: int| 0 <= b < old(self).entries@.len()
                                && (#[trigger] old(self).entries@[b]).principal == q;
                            assert(a < old(self).entries@.len());
                            assert(a == b);
                        }
                    }
                }
                i
            },
        };
        let ghost h0 = self.history_of(p);
        let ghost mid = *self;
        proof {
            assert(idx < self.entries@.len());
            assert(old(self).history_of(p) == h0);
            let w = choose|w: int| 0 <= w < self.entries@.len()
                && (#[trigger] self.entries@[w]).principal == p;
            assert(w == idx as int);
            assert(mid.entries@[idx as int].timestamps@ == h0);
        }
        let start: u64 = if now >= window { now - window } else { 0 };

        // Prune stale timestamps, keeping order.
        let old_ts = &self.entries[idx].timestamps;
        let mut kept: Vec<u64> = Vec::new();
        let mut i: usize = 0;
        proof {
            assert(old_ts@.subrange(0, 0) =~= Seq::<u64>::empty());
        }
        while i < old_ts.len()
            invariant
                idx < mid.entries@.len(),
                old_ts@ == mid.entries@[idx as int].timestamps@,
                i <= old_ts@.len(),
                kept@ == pruned_hist(old_ts@.subrange(0, i as int), start),
            decreases old_ts@.len() - i,
        {
            let t = old_ts[i];
            if t > start {
                kept.push(t);
            }
            i = i + 1;
            proof {
                let prefix = old_ts@.subrange(0, i as int);
                assert(prefix.drop_last() =~= old_ts@.subrange(0, i - 1));
                assert(prefix.last() == old_ts@[i - 1]);
            }
        }
        proof {
            assert(old_ts@.subrange(0, old_ts@.len() as int) =~= old_ts@);
            assert(kept@ == pruned_hist(h0, start));
        }

        // Bound a single identity's memory: trim to the most recent entries.
        if kept.len() > RATE_HISTORY_CAP {
            let cut = kept.len() - RATE_HISTORY_KEEP;
            let mut trimmed: Vec<u64> = Vec::new();
            let mut j: usize = cut;
            while j < kept.len()
                invariant
                    cut <= j <= kept@.len(),
                    cut == kept@.len() - RATE_HISTORY_KEEP,
                    trimmed@ == kept@.subrange(cut as int, j as int),
                decreases kept@.len() - j,
            {
                trimmed.push(kept[j]);
                j = j + 1;
                proof {
                    assert(trimmed@ =~= kept@.subrange(cut as int, j as int));
                }
            }
            kept = trimmed;
            proof {
                assert(kept@ == capped_hist(pruned_hist(h0, start)));
            }
        }
        proof {
            assert(kept@ == capped_hist(pruned_hist(h0, start)));
        }

        let admitted = kept.len() < max;
        if admitted {
            kept.push(now);
        }
        self.entries[idx].timestamps = kept;
        proof {
            assert(self.entries@ =~= mid.entries@.update(idx as int, self.entries@[idx as int]));
            assert(self.entries@[idx as int].principal == p);
            assert(self.wf());
            assert(self.has_entry(p));
            let w = choose|w: int| 0 <= w < self.entries@.len()
                && (#[trigger] self.entries@[w]).principal == p;
            assert(w == idx as int);
            assert(self.history_of(p) == rl_next(h0, now, window, max as nat));
            assert forall|q: Principal| q != p
                implies #[trigger] self.history_of(q) == mid.history_of(q) by {
                assert(self.has_entry(q) == mid.has_entry(q)) by {
                    if mid.has_entry(q) {
                        let b = choose|b: int| 0 <= b < mid.entries@.len()
                            && (#[trigger] mid.entries@[b]).principal == q;
                        assert(b != idx as int);
                        assert(self.entries@[b].principal == q);
                    }
                    if self.has_entry(q) {
                        let a = choose|a: int| 0 <= a < self.entries@.len()
                            && (#[trigger] self.entries@[a]).principal == q;
                        assert(a != idx as int);
                        assert(mid.entries@[a].principal == q);
                    }
                }
                if self.has_entry(q) {
                    let a = choose|a: int| 0 <= a < self.entries@.len()
                        && (#[trigger] self.entries@[a]).principal == q;
                    let b = choose|b: int| 0 <= b < mid.entries@.len()
                        && (#[trigger] mid.entries@[b]).principal == q;
                    assert(a != idx as int);
                    assert(self.entries@[b] == mid.entries@[b]);
                    assert(a == b);
                }
            }
            assert(forall|q: Principal| q != p
                ==> #[trigger] mid.history_of(q) == old(self).history_of(q));
        }
        admitted
    }

    /// How many timestamps for `p` are still inside the window ending at
    /// `now`, and how long ago the oldest recorded timestamp was.
    pub fn info(&self, p: Principal, now: u64, window: u64) -> (r: (usize, u64))
        requires
            self.wf(),
        ensures
            r.0 == pruned_hist(self.history_of(p), window_start(now, window)).len(),
            self.history_of(p).len() == 0 ==> r.1 == 0,
            self.history_of(p).len() > 0 && self.history_of(p)[0] <= now
                ==> r.1 == now - self.history_of(p)[0],
    {
        let idx_opt = self.find_entry(p);
        match idx_opt {
            None => {
                proof {
                    assert(self.history_of(p) =~= Seq::<u64>::empty());
                    assert(pruned_hist(Seq::<u64>::empty(), window_start(now, window)).len() == 0);
                }
                (0, 0)
            },
            Some(idx) => {
                proof {
                    assert(self.has_entry(p));
                    let w = choose|w: int| 0 <= w < self.entries@.len()
                        && (#[trigger] self.entries@[w]).principal == p;
                    assert(w == idx as int);
                }
                let ts = &self.entries[idx].timestamps;
                let start: u64 = if now >= window { now - window } else { 0 };
                let mut count: usize = 0;
                let mut i: usize = 0;
                proof {
                    assert(ts@.subrange(0, 0) =~= Seq::<u64>::empty());
                }
                while i < ts.len()
                    invariant
                        ts@ == self.history_of(p),
                        start == window_start(now, window),
                        i <= ts@.len(),
                        count == pruned_hist(ts@.subrange(0, i as int), start).len(),
                        count <= i,
                    decreases ts@.len() - i,
                {
                    let t = ts[i];
                    if t > start {
                        count = count + 1;
                    }
                    i = i + 1;
                    proof {
                        let prefix = ts@.subrange(0, i as int);
                        assert(prefix.drop_last() =~= ts@.subrange(0, i - 1));
                        assert(prefix.last() == ts@[i - 1]);
                    }
                }
                proof {
                    assert(ts@.subrange(0, ts@.len() as int) =~= ts@);
                }
                let age: u64 = if ts.len() > 0 {
                    let first = ts[0];
                    if first <= now {
                        now - first
                    } else {
                        0
                    }
                } else {
                    0
                };
                (count, age)
            },
        }
    }

    /// Periodic sweep: prunes every identity's history to the cleanup window
    /// and drops identities with no remaining activity.
    #[verifier::rlimit(50)]
    pub fn cleanup(&mut self, now: u64, cleanup_window: u64)
        requires
            old(self).wf(),
        ensures
            final(self).wf(),
            forall|p: Principal| #[trigger] final(self).history_of(p)
                == pruned_hist(old(self).history_of(p), window_start(now, cleanup_window)),
    {
        let start: u64 = if now >= cleanup_window { now - cleanup_window } else { 0 };
        let ghost pre = *self;
        let mut fresh: Vec<RateEntry> = Vec::new();
        let mut i: usize = 0;
        while i < self.entries.len()
            invariant
                *self == pre,
                pre.wf(),
                i <= self.entries@.len(),
                start == window_start(now, cleanup_window),
                // Every retained entry is a pruned nonempty copy of a
                // pre-sweep entry among the first i.
                forall|k: int| 0 <= k < fresh@.len()
                    ==> exists|s: int| 0 <= s < i
                        && (#[trigger] fresh@[k]).principal == pre.entries@[s].principal
                        && fresh@[k].timestamps@ == pruned_hist(pre.entries@[s].timestamps@, start),
                forall|k: int| 0 <= k < fresh@.len()
                    ==> (#[trigger] fresh@[k]).timestamps@.len() > 0,
                // Every pre-sweep entry among the first i with surviving
                // activity is retained.
                forall|s: int| 0 <= s < i
                    && pruned_hist((#[trigger] pre.entries@[s]).timestamps@, start).len() > 0
                    ==> exists|k: int| 0 <= k < fresh@.len()
                        && (#[trigger] fresh@[k]).principal == pre.entries@[s].principal
                        && fresh@[k].timestamps@ == pruned_hist(pre.entries@[s].timestamps@, start),
                // Uniqueness of principals among retained entries.
                forall|k1: int, k2: int| 0 <= k1 < k2 < fresh@.len()
                    ==> (#[trigger] fresh@[k1]).principal != (#[trigger] fresh@[k2]).principal,
            decreases self.entries@.len() - i,
        {
            let ts = &self.entries[i].timestamps;
            let mut kept: Vec<u64> = Vec::new();
            let mut j: usize = 0;
            proof {
                assert(ts@.subrange(0, 0) =~= Seq::<u64>::empty());
            }
            while j < ts.len()
                invariant
                    i < pre.entries@.len(),
                    ts@ == pre.entries@[i as int].timestamps@,
                    j <= ts@.len(),
                    kept@ == pruned_hist(ts@.subrange(0, j as int), start),
                decreases ts@.len() - j,
            {
                let t = ts[j];
                if t > start {
                    kept.push(t);
                }
                j = j + 1;
                proof {
                    let prefix = ts@.subrange(0, j as int);
                    assert(prefix.drop_last() =~= ts@.subrange(0, j - 1));
                    assert(prefix.last() == ts@[j - 1]);
                }
            }
            proof {
                assert(ts@.subrange(0, ts@.len() as int) =~= ts@);
                assert(kept@ == pruned_hist(pre.entries@[i as int].timestamps@, start));
            }
            let ghost fresh_before = fresh@;
            if kept.len() > 0 {
                let p = self.entries[i].principal;
                proof {
                    assert forall|k: int| 0 <= k < fresh@.len()
                        implies (#[trigger] fresh@[k]).principal != p by {
                        let s = choose|s: int| 0 <= s < i
                            && (#[trigger] fresh@[k]).principal == pre.entries@[s].principal
                            && fresh@[k].timestamps@ == pruned_hist(pre.entries@[s].timestamps@, start);
                        assert(pre.entries@[s].principal != pre.entries@[i as int].principal);
                    }
                }
                fresh.push(RateEntry { principal: p, timestamps: kept });
                proof {
                    let newk = fresh@.len() - 1;
                    assert(fresh@[newk].principal == pre.entries@[i as int].principal);
                    assert(fresh@[newk].timestamps@
                        == pruned_hist(pre.entries@[i as int].timestamps@, start));
                    assert forall|s: int| 0 <= s < i + 1
                        && pruned_hist((#[trigger] pre.entries@[s]).timestamps@, start).len() > 0
                        implies exists|k: int| 0 <= k < fresh@.len()
                            && (#[trigger] fresh@[k]).principal == pre.entries@[s].principal
                            && fresh@[k].timestamps@
                                == pruned_hist(pre.entries@[s].timestamps@, start) by {
                        if s == i {
                            assert(0 <= newk < fresh@.len()
                                && fresh@[newk].principal == pre.entries@[s].principal
                                && fresh@[newk].timestamps@
                                    == pruned_hist(pre.entries@[s].timestamps@, start));
                        } else {
                            let k = choose|k: int| 0 <= k < fresh_before.len()
                                && (#[trigger] fresh_before[k]).principal == pre.entries@[s].principal
                                && fresh_before[k].timestamps@
                                    == pruned_hist(pre.entries@[s].timestamps@, start);
                            assert(fresh@[k] == fresh_before[k]);
                        }
                    }
                }
            } else {
                proof {
                    assert(pruned_hist(pre.entries@[i as int].timestamps@, start).len() == 0);
                    assert forall|s: int| 0 <= s < i + 1
                        && pruned_hist((#[trigger] pre.entries@[s]).timestamps@, start).len() > 0
                        implies exists|k: int| 0 <= k < fresh@.len()
                            && (#[trigger] fresh@[k]).principal == pre.entries@[s].principal
                            && fresh@[k].timestamps@
                                == pruned_hist(pre.entries@[s].timestamps@, start) by {
                        assert(s < i);
                    }
                }
            }
            i = i + 1;
        }
        self.entries = fresh;
        proof {
            assert forall|p: Principal| #[trigger] self.history_of(p)
                == pruned_hist(pre.history_of(p), start) by {
                if self.has_entry(p) {
                    let k = choose|k: int| 0 <= k < self.entries@.len()
                        && (#[trigger] self.entries@[k]).principal == p;
                    let s = choose|s: int| 0 <= s < pre.entries@.len()
                        && (#[trigger] self.entries@[k]).principal == pre.entries@[s].principal
                        && self.entries@[k].timestamps@
                            == pruned_hist(pre.entries@[s].timestamps@, start);
                    assert(pre.has_entry(p));
                    let b = choose|b: int| 0 <= b < pre.entries@.len()
                        && (#[trigger] pre.entries@[b]).principal == p;
                    assert(b == s);
                    assert(pre.history_of(p) == pre.entries@[s].timestamps@);
                } else {
                    if pre.has_entry(p) {
                        let b = choose|b: int| 0 <= b < pre.entries@.len()
                            && (#[trigger] pre.entries@[b]).principal == p;
                        if pruned_hist(pre.entries@[b].timestamps@, start).len() > 0 {
                            let k = choose|k: int| 0 <= k < self.entries@.len()
                                && (#[trigger] self.entries@[k]).principal == pre.entries@[b].principal
                                && self.entries@[k].timestamps@
                                    == pruned_hist(pre.entries@[b].timestamps@, start);
                            assert(self.has_entry(p));
                            assert(false);
                        }
                        assert(pre.history_of(p) == pre.entries@[b].timestamps@);
                        assert(self.history_of(p) =~= pruned_hist(pre.history_of(p), start));
                    } else {
                        assert(pre.history_of(p) =~= Seq::<u64>::empty());
                        assert(self.history_of(p) =~= Seq::<u64>::empty());
                    }
                }
            }
        }
    }
}

} // verus!
