//! A sliding-window rate limiter: at most `max_requests` requests are let
//! through in any window of `window_nanos`; a request over the limit is
//! told how long to wait.
//!
//! Times are nanoseconds on a clock that does not go back.

use vstd::prelude::*;

verus! {

/// The extra wait added to the time until a slot frees, in nanoseconds
/// (100 ms).
pub const WAIT_MARGIN_NANOS: u64 = 100_000_000;

/// What a request is told.
#[derive(Debug, Clone, Copy, PartialEq, Eq, Structural)]
pub enum SlotDecision {
    /// The request may go now
    Allowed,
    /// The limit is reached: try again after this many nanoseconds
    Wait(u64),
}

/// The times of the requests let through in the current window.
#[derive(Debug)]
pub struct SlidingWindow {
    request_times: Vec<u64>,
    max_requests: usize,
    window_nanos: u64,
}

/// The time from `earlier` to `now`, zero when `now` is earlier.
pub open spec fn since(now: u64, earlier: u64) -> nat {
    if now >= earlier {
        (now - earlier) as nat
    } else {
        0
    }
}

/// A request made at `t` still counts at `now`.
pub open spec fn in_window(t: u64, now: u64, window: u64) -> bool {
    since(now, t) < window
}

/// The requests of `ts` that still count at `now`.
pub open spec fn live_at(ts: Seq<u64>, now: u64, window: u64) -> Seq<u64> {
    ts.filter(|t: u64| in_window(t, now, window))
}

/// One request at `now` to a limiter holding `ts`: the times it holds
/// afterwards, and whether the request was allowed.
pub open spec fn spec_step(ts: Seq<u64>, now: u64, max: nat, window: u64) -> (Seq<u64>, bool) {
    let live = live_at(ts, now, window);
    if live.len() < max {
        (live.push(now), true)
    } else {
        (live, false)
    }
}

/// Requests at the times of `calls`, in order, to a limiter that held
/// none: the times it holds afterwards, and the times of the requests it
/// allowed.
pub open spec fn spec_run(calls: Seq<u64>, max: nat, window: u64) -> (Seq<u64>, Seq<u64>)
    decreases calls.len(),
{
    if calls.len() == 0 {
        (Seq::empty(), Seq::empty())
    } else {
        let prev = spec_run(calls.drop_last(), max, window);
        let next = spec_step(prev.0, calls.last(), max, window);
        (next.0, if next.1 {
            prev.1.push(calls.last())
        } else {
            prev.1
        })
    }
}

impl SlidingWindow {
    /// The times recorded.
    pub closed spec fn times(&self) -> Seq<u64> {
        self.request_times@
    }

    /// The most requests let through in a window.
    pub closed spec fn max(&self) -> nat {
        self.max_requests as nat
    }

    /// The window, in nanoseconds.
    pub closed spec fn window(&self) -> u64 {
        self.window_nanos
    }

    /// Never more times recorded than requests allowed per window.
    pub closed spec fn wf(&self) -> bool {
        self.request_times@.len() <= self.max_requests
    }

    /// A limiter with no request recorded.
    pub fn new(max_requests: usize, window_nanos: u64) -> (r: Self)
        ensures
            r.wf(),
            r.times() == Seq::<u64>::empty(),
            r.max() == max_requests,
            r.window() == window_nanos,
    {
        SlidingWindow { request_times: Vec::new(), max_requests, window_nanos }
    }

    /// Forget the requests that left the window at `now`.
    fn prune(&mut self, now: u64)
        requires
            old(self).wf(),
        ensures
            final(self).wf(),
            final(self).times() == old(self).times().filter(
                |t: u64| in_window(t, now, old(self).window()),
            ),
            final(self).max() == old(self).max(),
            final(self).window() == old(self).window(),
    {
        let ghost all = self.request_times@;
        let ghost keep = |t: u64| in_window(t, now, self.window_nanos);
        let n = self.request_times.len();
        let mut kept: Vec<u64> = Vec::new();
        let mut i: usize = 0;
        while i < n
            invariant
                n == all.len(),
                i <= n,
                self.request_times@ == all,
                keep == (|t: u64| in_window(t, now, self.window_nanos)),
                kept@ == all.subrange(0, i as int).filter(keep),
            decreases n - i,
        {
            let t = self.request_times[i];
            assert(all.subrange(0, i + 1).drop_last() =~= all.subrange(0, i as int));
            assert(all.subrange(0, i + 1).last() == t);
            reveal_with_fuel(Seq::<u64>::filter, 1);
            let age: u64 = if now >= t {
                now - t
            } else {
                0
            };
            if age < self.window_nanos {
                kept.push(t);
            }
            i = i + 1;
        }
        assert(all.subrange(0, n as int) =~= all);
        proof {
            all.lemma_filter_len(keep);
        }
        self.request_times = kept;
    }

    /// Ask for a slot at time `now`: requests that left the window are
    /// forgotten; under the limit the request is recorded and allowed;
    /// otherwise it must wait until the oldest request leaves the window,
    /// and 100 ms more. A limiter that allows no request at all has no
    /// oldest request to wait for, and is not asked.
    pub fn try_acquire(&mut self, now: u64) -> (r: SlotDecision)
        requires
            old(self).wf(),
            old(self).max() > 0,
        ensures
            final(self).wf(),
            final(self).max() == old(self).max(),
            final(self).window() == old(self).window(),
            ({
                let live = old(self).times().filter(|t: u64| in_window(t, now, old(self).window()));
                if live.len() < old(self).max() {
                    r == SlotDecision::Allowed && final(self).times() == live.push(now)
                } else {
                    final(self).times() == live && r == SlotDecision::Wait(
                        ({
                            let left = old(self).window() - since(now, live[0]);
                            let w = if left > 0 {
                                left
                            } else {
                                0
                            };
                            if w + WAIT_MARGIN_NANOS <= u64::MAX {
                                w + WAIT_MARGIN_NANOS
                            } else {
                                u64::MAX as int
                            }
                        }) as u64,
                    )
                }
            }),
            (final(self).times(), r is Allowed) == spec_step(
                old(self).times(),
                now,
                old(self).max(),
                old(self).window(),
            ),
    {
        self.prune(now);
        if self.request_times.len() < self.max_requests {
            self.request_times.push(now);
            return SlotDecision::Allowed;
        }
        let oldest = self.request_times[0];
        SlotDecision::Wait(self.wait_from(oldest, now))
    }

    fn wait_from(&self, oldest: u64, now: u64) -> (r: u64)
        ensures
            r == ({
                let left = self.window() - since(now, oldest);
                let w = if left > 0 {
                    left
                } else {
                    0
                };
                if w + WAIT_MARGIN_NANOS <= u64::MAX {
                    w + WAIT_MARGIN_NANOS
                } else {
                    u64::MAX as int
                }
            }),
    {
        let elapsed: u64 = if now >= oldest {
            now - oldest
        } else {
            0
        };
        let left: u64 = if self.window_nanos > elapsed {
            self.window_nanos - elapsed
        } else {
            0
        };
        if left <= u64::MAX - WAIT_MARGIN_NANOS {
            left + WAIT_MARGIN_NANOS
        } else {
            u64::MAX
        }
    }

    /// How many recorded requests still count at `now`.
    pub fn active_requests(&self, now: u64) -> (r: usize)
        ensures
            r == self.times().filter(|t: u64| in_window(t, now, self.window())).len(),
    {
        let ghost all = self.request_times@;
        let ghost keep = |t: u64| in_window(t, now, self.window_nanos);
        let mut count: usize = 0;
        let mut i: usize = 0;
        while i < self.request_times.len()
            invariant
                i <= all.len(),
                self.request_times@ == all,
                keep == (|t: u64| in_window(t, now, self.window_nanos)),
                count == all.subrange(0, i as int).filter(keep).len(),
                count <= i,
            decreases all.len() - i,
        {
            let t = self.request_times[i];
            assert(all.subrange(0, i + 1).drop_last() =~= all.subrange(0, i as int));
            assert(all.subrange(0, i + 1).last() == t);
            reveal_with_fuel(Seq::<u64>::filter, 1);
            let age: u64 = if now >= t {
                now - t
            } else {
                0
            };
            if age < self.window_nanos {
                count = count + 1;
            }
            i = i + 1;
        }
        assert(all.subrange(0, all.len() as int) =~= all);
        count
    }

    /// Forget every request.
    pub fn reset(&mut self)
        requires
            old(self).wf(),
        ensures
            final(self).wf(),
            final(self).times() == Seq::<u64>::empty(),
            final(self).max() == old(self).max(),
            final(self).window() == old(self).window(),
    {
        self.request_times = Vec::new();
    }

    /// The most requests let through in a window.
    pub fn max_requests(&self) -> (r: usize)
        ensures
            r == self.max(),
    {
        self.max_requests
    }
}

/// However requests come, a limiter never holds more requests than it
/// allows per window: an allowed request is recorded only below the
/// limit, and a refused one is not recorded.
pub proof fn law_never_over_limit(before: SlidingWindow, after: SlidingWindow, now: u64, r: SlotDecision)
    requires
        before.wf(),
        after.max() == before.max(),
        ({
            let live = before.times().filter(|t: u64| in_window(t, now, before.window()));
            if live.len() < before.max() {
                r == SlotDecision::Allowed && after.times() == live.push(now)
            } else {
                after.times() == live && r is Wait
            }
        }),
    ensures
        after.times().len() <= after.max(),
        r == SlotDecision::Allowed ==> after.times().last() == now,
        forall|i: int| 0 <= i < after.times().len() - 1 ==> in_window(#[trigger] after.times()[i], now, before.window()),
{
    let pred = |t: u64| in_window(t, now, before.window());
    let live = before.times().filter(pred);
    before.times().lemma_filter_len(pred);
    assert forall|i: int| 0 <= i < after.times().len() - 1 implies in_window(
        #[trigger] after.times()[i],
        now,
        before.window(),
    ) by {
        assert(after.times()[i] == live[i]);
        before.times().lemma_filter_pred(pred, i);
    }
}

/// The times that do not go back.
pub open spec fn non_decreasing(s: Seq<u64>) -> bool {
    forall|i: int, j: int| 0 <= i <= j < s.len() ==> s[i] <= s[j]
}

/// Of times in order, all at or before `now`, those still in the window
/// at `now` are the last ones.
proof fn lemma_live_suffix(ts: Seq<u64>, now: u64, window: u64) -> (a: int)
    requires
        non_decreasing(ts),
        forall|i: int| 0 <= i < ts.len() ==> ts[i] <= now,
    ensures
        0 <= a <= ts.len(),
        live_at(ts, now, window) == ts.subrange(a, ts.len() as int),
        forall|i: int| 0 <= i < a ==> !in_window(#[trigger] ts[i], now, window),
        forall|i: int| a <= i < ts.len() ==> in_window(#[trigger] ts[i], now, window),
    decreases ts.len(),
{
    reveal_with_fuel(Seq::<u64>::filter, 1);
    if ts.len() == 0 {
        assert(ts.subrange(0, 0) =~= Seq::<u64>::empty());
        0
    } else {
        let n = ts.len() as int;
        let init = ts.drop_last();
        assert forall|i: int, j: int| 0 <= i <= j < init.len() implies init[i] <= init[j] by {
            assert(init[i] == ts[i] && init[j] == ts[j]);
        }
        let b = lemma_live_suffix(init, now, window);
        assert(live_at(ts, now, window) == if in_window(ts.last(), now, window) {
            live_at(init, now, window).push(ts.last())
        } else {
            live_at(init, now, window)
        });
        if in_window(ts.last(), now, window) {
            assert(init.subrange(b, n - 1).push(ts.last()) =~= ts.subrange(b, n));
            assert forall|i: int| 0 <= i < b implies !in_window(#[trigger] ts[i], now, window) by {
                assert(ts[i] == init[i]);
            }
            assert forall|i: int| b <= i < n implies in_window(#[trigger] ts[i], now, window) by {
                if i < n - 1 {
                    assert(ts[i] == init[i]);
                }
            }
            b
        } else {
            assert forall|i: int| 0 <= i < n implies !in_window(#[trigger] ts[i], now, window) by {
                assert(ts[i] <= ts[n - 1]);
            }
            if b < n - 1 {
                assert(init[b] == ts[b]);
                assert(in_window(init[b], now, window));
            }
            assert(init.subrange(b, n - 1) =~= ts.subrange(n, n));
            n
        }
    }
}

/// What holds after every run: the limiter holds the last times granted,
/// every earlier grant has left the window at the last request, the
/// grants are in order and not after the last request, and any grant
/// `max` grants after another is at least a window later.
proof fn lemma_run(calls: Seq<u64>, max: nat, window: u64)
    requires
        max > 0,
        non_decreasing(calls),
    ensures
        ({
            let (ts, g) = spec_run(calls, max, window);
            &&& ts.len() <= g.len()
            &&& ts == g.subrange(g.len() - ts.len(), g.len() as int)
            &&& calls.len() > 0 ==> forall|j: int|
                0 <= j < g.len() - ts.len() ==> !in_window(#[trigger] g[j], calls.last(), window)
            &&& non_decreasing(g)
            &&& calls.len() > 0 ==> forall|j: int| 0 <= j < g.len() ==> #[trigger] g[j] <= calls.last()
            &&& forall|k: int| 0 <= k && k + max < g.len() ==> #[trigger] g[k + max] - g[k] >= window
        }),
    decreases calls.len(),
{
    if calls.len() > 0 {
        let init = calls.drop_last();
        assert forall|i: int, j: int| 0 <= i <= j < init.len() implies init[i] <= init[j] by {
            assert(init[i] == calls[i] && init[j] == calls[j]);
        }
        lemma_run(init, max, window);
        let (ts, g) = spec_run(init, max, window);
        let now = calls.last();
        let n = ts.len() as int;
        let off = g.len() - n;
        if init.len() > 0 {
            assert(init.last() <= now);
        }
        assert forall|j: int| 0 <= j < g.len() implies #[trigger] g[j] <= now by {
            if init.len() > 0 {
                assert(g[j] <= init.last());
            }
        }
        assert forall|i: int, j: int| 0 <= i <= j < ts.len() implies ts[i] <= ts[j] by {
            assert(ts[i] == g[off + i] && ts[j] == g[off + j]);
        }
        assert forall|i: int| 0 <= i < ts.len() implies ts[i] <= now by {
            assert(ts[i] == g[off + i]);
        }
        let a = lemma_live_suffix(ts, now, window);
        let live = live_at(ts, now, window);
        // Every grant before the live ones has left the window at `now`.
        assert forall|j: int| 0 <= j < off + a implies !in_window(#[trigger] g[j], now, window) by {
            if j < off {
                assert(!in_window(g[j], init.last(), window));
                assert(g[j] <= init.last());
            } else {
                assert(g[j] == ts[j - off]);
            }
        }
        assert(live =~= g.subrange(off + a, g.len() as int));
        if live.len() < max {
            let g2 = g.push(now);
            let ts2 = live.push(now);
            assert(ts2 =~= g2.subrange(g2.len() - ts2.len(), g2.len() as int));
            assert forall|j: int| 0 <= j < g2.len() - ts2.len() implies !in_window(
                #[trigger] g2[j],
                now,
                window,
            ) by {
                assert(g2[j] == g[j]);
            }
            assert forall|j: int| 0 <= j < g2.len() implies #[trigger] g2[j] <= now by {
                if j < g.len() {
                    assert(g2[j] == g[j]);
                }
            }
            assert forall|i: int, j: int| 0 <= i <= j < g2.len() implies g2[i] <= g2[j] by {
                if j < g.len() {
                    assert(g2[i] == g[i] && g2[j] == g[j]);
                } else if i < g.len() {
                    assert(g2[i] == g[i]);
                }
            }
            assert forall|k: int| 0 <= k && k + max < g2.len() implies #[trigger] g2[k + max]
                - g2[k] >= window by {
                if k + max < g.len() {
                    assert(g2[k + max] == g[k + max] && g2[k] == g[k]);
                } else {
                    assert(g2[k] == g[k]);
                    assert(!in_window(g2[k], now, window));
                }
            }
        } else {
            assert forall|j: int| 0 <= j < g.len() - live.len() implies !in_window(
                #[trigger] g[j],
                now,
                window,
            ) by {}
        }
    }
}

/// No window holds more allowed requests than the limit: over requests at
/// times that do not go back, made to a limiter that held none, a request
/// allowed `max` allowed requests after another comes at least a window
/// after it.
pub proof fn law_window_holds_at_most_max(calls: Seq<u64>, max: nat, window: u64)
    requires
        max > 0,
        non_decreasing(calls),
    ensures
        forall|k: int|
            0 <= k && k + max < spec_run(calls, max, window).1.len() ==> #[trigger] spec_run(
                calls,
                max,
                window,
            ).1[k + max] - spec_run(calls, max, window).1[k] >= window,
{
    lemma_run(calls, max, window);
}

} // verus!
