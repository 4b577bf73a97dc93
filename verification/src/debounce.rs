//! The event filter and debouncer: consumes the raw change-event stream
//! and coalesces bursts of events on the same path within a fixed time
//! window into a single notification per path. Removals and metadata-only
//! events are dropped here and never trigger a compile; a rename counts as
//! a change of its destination path.
//!
//! Time enters as a monotone tick count supplied by the caller, so the
//! coalescing itself is a pure state machine: a pending notification per
//! path, stamped with the instant its window closes, delivered in the
//! order the windows close.

use vstd::prelude::*;
use crate::pipeline::{event_target, spec_event_target, RawEvent};
use crate::text::str_eq;

verus! {

/// One pending notification: a changed path and the instant its debounce
/// window closes.
pub struct Entry {
    /// The changed path.
    pub path: String,
    /// When the coalescing window for this path closes.
    pub deadline: u64,
}

/// The debouncer's state: the fixed window, the last instant it saw, and
/// the pending notifications in order of closing window.
pub struct Debouncer {
    /// Length of the coalescing window, in ticks.
    pub window: u64,
    /// The latest instant handed to `note`; time never runs backwards.
    pub last_time: u64,
    /// Pending notifications, deadlines nondecreasing, paths distinct.
    pub pending: Vec<Entry>,
}

/// Whether some pending entry carries `key`.
pub open spec fn has_key(p: Seq<(Seq<char>, u64)>, key: Seq<char>) -> bool {
    exists|i: int| 0 <= i < p.len() && p[i].0 == key
}

/// The pending state after a change of `key` is noted: an existing entry
/// for `key` is withdrawn and the path re-enters at the back with the
/// fresh deadline; a new path simply enters at the back.
pub open spec fn spec_note(p: Seq<(Seq<char>, u64)>, key: Seq<char>, deadline: u64) -> Seq<
    (Seq<char>, u64),
> {
    if has_key(p, key) {
        let i = choose|i: int| 0 <= i < p.len() && p[i].0 == key;
        p.remove(i).push((key, deadline))
    } else {
        p.push((key, deadline))
    }
}

/// How many pending notifications are due at `now`: the length of the
/// leading run of deadlines that have passed.
pub open spec fn split_point(p: Seq<(Seq<char>, u64)>, now: u64) -> int
    decreases p.len(),
{
    if p.len() > 0 && p[0].1 <= now {
        1 + split_point(p.drop_first(), now)
    } else {
        0
    }
}

/// The paths of a pending sequence, in order.
pub open spec fn paths_of(p: Seq<(Seq<char>, u64)>) -> Seq<Seq<char>> {
    p.map_values(|e: (Seq<char>, u64)| e.0)
}

impl Debouncer {
    /// The pending notifications as plain values.
    pub open spec fn pending_view(&self) -> Seq<(Seq<char>, u64)> {
        self.pending@.map_values(|e: Entry| (e.path@, e.deadline))
    }

    /// Well-formedness: paths pairwise distinct, deadlines nondecreasing
    /// along the queue, and no deadline further out than one full window
    /// after the last seen instant.
    pub open spec fn wf(&self) -> bool {
        &&& forall|i: int, j: int|
            0 <= i < j < self.pending@.len() ==> self.pending@[i].path@ != self.pending@[j].path@
        &&& forall|i: int, j: int|
            0 <= i <= j < self.pending@.len() ==> self.pending@[i].deadline
                <= self.pending@[j].deadline
        &&& forall|i: int|
            0 <= i < self.pending@.len() ==> self.pending@[i].deadline <= self.last_time
                + self.window
    }

    /// A fresh debouncer with the given window and nothing pending.
    pub fn new(window: u64) -> (d: Debouncer)
        ensures
            d.wf(),
            d.window == window,
            d.last_time == 0,
            d.pending_view() == Seq::<(Seq<char>, u64)>::empty(),
    {
        let d = Debouncer { window, last_time: 0, pending: Vec::new() };
        proof {
            assert(d.pending_view() =~= Seq::<(Seq<char>, u64)>::empty());
        }
        d
    }

    /// Notes one raw event at instant `now`. An event that dispatches no
    /// compile leaves the pending queue as it was; for the others the
    /// affected path ends up pending exactly once, its window closing one
    /// window length after `now`.
    pub fn note(&mut self, e: RawEvent, now: u64)
        requires
            old(self).wf(),
            old(self).last_time <= now,
            now + old(self).window <= u64::MAX,
        ensures
            final(self).wf(),
            final(self).window == old(self).window,
            final(self).last_time == now,
            match spec_event_target(&e) {
                Some(key) => final(self).pending_view() == spec_note(
                    old(self).pending_view(),
                    key,
                    (now + old(self).window) as u64,
                ),
                None => final(self).pending_view() == old(self).pending_view(),
            },
    {
        let ghost old_view = self.pending_view();
        match event_target(e) {
            None => {
                self.last_time = now;
            },
            Some(p) => {
                let n = self.pending.len();
                let mut i: usize = 0;
                let mut found: Option<usize> = None;
                while i < n
                    invariant
                        n == self.pending@.len(),
                        i <= n,
                        match found {
                            Some(f) => f < n && self.pending@[f as int].path@ == p@ && f < i,
                            None => forall|j: int|
                                0 <= j < i ==> self.pending@[j].path@ != p@,
                        },
                        found is Some ==> i == n,
                    decreases n - i,
                {
                    if str_eq(self.pending[i].path.as_str(), p.as_str()) {
                        found = Some(i);
                        i = n;
                    } else {
                        i = i + 1;
                    }
                }
                let deadline = now + self.window;
                match found {
                    Some(f) => {
                        proof {
                            assert(old_view[f as int].0 == p@);
                            assert(has_key(old_view, p@));
                            let c = choose|i: int|
                                0 <= i < old_view.len() && old_view[i].0 == p@;
                            assert(old_view[c].0 == p@);
                            assert(c == f);
                        }
                        self.pending.remove(f);
                        self.pending.push(Entry { path: p, deadline });
                        proof {
                            assert(self.pending_view() =~= spec_note(
                                old_view,
                                spec_event_target(&e)->Some_0,
                                deadline,
                            ));
                        }
                    },
                    None => {
                        proof {
                            assert(!has_key(old_view, p@)) by {
                                assert(forall|j: int|
                                    0 <= j < old_view.len() ==> old_view[j].0
                                        == self.pending@[j].path@);
                            }
                        }
                        self.pending.push(Entry { path: p, deadline });
                        proof {
                            assert(self.pending_view() =~= spec_note(
                                old_view,
                                spec_event_target(&e)->Some_0,
                                deadline,
                            ));
                        }
                    },
                }
                self.last_time = now;
            },
        }
    }

    /// Delivers the notifications whose windows have closed by `now`, in
    /// the order they close, and withdraws them from the queue.
    pub fn drain(&mut self, now: u64) -> (out: Vec<String>)
        requires
            old(self).wf(),
        ensures
            final(self).wf(),
            final(self).window == old(self).window,
            final(self).last_time == old(self).last_time,
            ({
                let k = split_point(old(self).pending_view(), now);
                &&& out@.map_values(|s: String| s@) == paths_of(
                    old(self).pending_view().subrange(0, k),
                )
                &&& final(self).pending_view() == old(self).pending_view().subrange(
                    k,
                    old(self).pending_view().len() as int,
                )
            }),
    {
        let ghost old_view = self.pending_view();
        proof {
            assert(old_view =~= old_view.subrange(0, old_view.len() as int));
        }
        let mut out: Vec<String> = Vec::new();
        while self.pending.len() > 0 && self.pending[0].deadline <= now
            invariant
                self.window == old(self).window,
                self.last_time == old(self).last_time,
                out@.len() <= old_view.len(),
                self.pending_view() == old_view.subrange(
                    out@.len() as int,
                    old_view.len() as int,
                ),
                out@.map_values(|s: String| s@) == paths_of(
                    old_view.subrange(0, out@.len() as int),
                ),
                forall|j: int| 0 <= j < out@.len() ==> old_view[j].1 <= now,
                self.wf(),
            decreases self.pending.len(),
        {
            let ghost j = out@.len() as int;
            let ghost prev = self.pending@;
            let ghost prev_view = self.pending_view();
            proof {
                assert(prev.len() > 0);
                assert(prev_view.len() == prev.len());
                assert(prev_view == old_view.subrange(j, old_view.len() as int));
                assert(j < old_view.len());
                assert(prev_view[0] == (prev[0].path@, prev[0].deadline));
                assert(prev_view[0] == old_view[j]);
                assert(prev_view[0].1 == prev[0].deadline);
            }
            let e = self.pending.remove(0);
            let ghost prev_out = out@;
            out.push(e.path);
            proof {
                assert(self.pending@ =~= prev.subrange(1, prev.len() as int));
                assert(self.pending_view().len() == self.pending@.len());
                assert forall|idx: int| 0 <= idx < self.pending@.len() implies self.pending_view()[idx]
                    == old_view[j + 1 + idx] by {
                    assert(self.pending@[idx] == prev[idx + 1]);
                    assert(self.pending_view()[idx] == (self.pending@[idx].path@, self.pending@[idx].deadline));
                    assert(prev_view[idx + 1] == (prev[idx + 1].path@, prev[idx + 1].deadline));
                    assert(prev_view[idx + 1] == old_view[j + 1 + idx]);
                }
                assert(self.pending_view() =~= old_view.subrange(j + 1, old_view.len() as int));
                assert(e.path@ == old_view[j].0);
                prev_out.lemma_push_map_commute(|s: String| s@, e.path);
                assert(out@ == prev_out.push(e.path));
                assert(out@.map_values(|s: String| s@) =~= paths_of(
                    old_view.subrange(0, j + 1),
                ));
                assert forall|a: int, b: int|
                    0 <= a < b < self.pending@.len() implies self.pending@[a].path@
                    != self.pending@[b].path@ by {
                    assert(self.pending@[a] == prev[a + 1]);
                    assert(self.pending@[b] == prev[b + 1]);
                }
                assert forall|a: int, b: int|
                    0 <= a <= b < self.pending@.len() implies self.pending@[a].deadline
                    <= self.pending@[b].deadline by {
                    assert(self.pending@[a] == prev[a + 1]);
                    assert(self.pending@[b] == prev[b + 1]);
                }
                assert forall|a: int| 0 <= a < self.pending@.len() implies self.pending@[a].deadline
                    <= self.last_time + self.window by {
                    assert(self.pending@[a] == prev[a + 1]);
                }
            }
        }
        proof {
            let j = out@.len() as int;
            if self.pending.len() > 0 {
                assert(self.pending_view()[0] == old_view[j]);
                assert(self.pending_view()[0].1 == self.pending@[0].deadline);
                assert(old_view[j].1 > now);
            }
            lemma_split_point_at(old_view, now, j);
        }
        out
    }
}

/// One beat of the driver's cadence on a single watched path: the
/// notifications due at `t` go out first, then the change at `t` is noted.
/// The state pairs the pending queue with how many signals went out so far.
pub open spec fn run_once(
    st: (Seq<(Seq<char>, u64)>, int),
    key: Seq<char>,
    t: u64,
    window: u64,
) -> (Seq<(Seq<char>, u64)>, int) {
    let k = split_point(st.0, t);
    (spec_note(st.0.subrange(k, st.0.len() as int), key, (t + window) as u64), st.1 + k)
}

/// A whole run on a single watched path: starting from an empty queue,
/// changes of `key` arrive at the given instants, and at each instant the
/// due notifications are delivered first.
pub open spec fn run_events(key: Seq<char>, times: Seq<u64>, window: u64) -> (
    Seq<(Seq<char>, u64)>,
    int,
) decreases times.len(),
{
    if times.len() == 0 {
        (Seq::<(Seq<char>, u64)>::empty(), 0)
    } else {
        run_once(run_events(key, times.drop_last(), window), key, times.last(), window)
    }
}

/// Debounce coalescing, first half: a burst of changes on one path, each
/// arriving before the window of the one before it closes, emits no signal
/// while it lasts and leaves exactly one notification pending — so once
/// its window closes, the burst yields exactly one signal.
pub proof fn lemma_burst_coalesces(key: Seq<char>, times: Seq<u64>, window: u64)
    requires
        times.len() >= 1,
        forall|i: int| 0 <= i < times.len() - 1 ==> #[trigger] times[i] <= times[i + 1],
        forall|i: int| 0 <= i < times.len() - 1 ==> times[i + 1] < #[trigger] (times[i] + window),
        forall|i: int| 0 <= i < times.len() ==> #[trigger] (times[i] + window) <= u64::MAX,
    ensures
        run_events(key, times, window).0 == seq![(key, (times.last() + window) as u64)],
        run_events(key, times, window).1 == 0,
        run_events(key, times, window).1 + run_events(key, times, window).0.len() == 1,
    decreases times.len(),
{
    let t = times.last();
    assert((t + window) as u64 == t + window);
    if times.len() == 1 {
        let st = run_events(key, times.drop_last(), window);
        assert(times.drop_last().len() == 0);
        assert(st.0 == Seq::<(Seq<char>, u64)>::empty());
        assert(split_point(st.0, t) == 0);
        assert(st.0.subrange(0, 0) =~= Seq::<(Seq<char>, u64)>::empty());
        assert(!has_key(Seq::<(Seq<char>, u64)>::empty(), key));
        assert(Seq::<(Seq<char>, u64)>::empty().push((key, (t + window) as u64)) =~= seq![
            (key, (t + window) as u64),
        ]);
    } else {
        let prefix = times.drop_last();
        assert(prefix.len() == times.len() - 1);
        assert(forall|i: int| 0 <= i < prefix.len() ==> prefix[i] == times[i]);
        lemma_burst_coalesces(key, prefix, window);
        let st = run_events(key, prefix, window);
        let d = (prefix.last() + window) as u64;
        assert(st.0 == seq![(key, d)]);
        assert(prefix.last() == times[times.len() - 2]);
        assert(t < times[times.len() - 2] + window);
        assert(st.0[0].1 == d);
        assert(d > t);
        assert(split_point(st.0, t) == 0);
        assert(st.0.subrange(0, 1) =~= st.0);
        assert(st.0[0].0 == key);
        assert(has_key(st.0, key));
        let c = choose|i: int| 0 <= i < st.0.len() && st.0[i].0 == key;
        assert(c == 0);
        assert(st.0.remove(0) =~= Seq::<(Seq<char>, u64)>::empty());
        assert(st.0.remove(0).push((key, (t + window) as u64)) =~= seq![
            (key, (t + window) as u64),
        ]);
    }
}

/// Debounce coalescing, second half: changes on one path that each arrive
/// only after the window of the one before it has closed each produce
/// their own signal — counting the last pending notification, N such
/// changes yield exactly N signals.
pub proof fn lemma_spread_separates(key: Seq<char>, times: Seq<u64>, window: u64)
    requires
        times.len() >= 1,
        forall|i: int|
            0 <= i < times.len() - 1 ==> #[trigger] (times[i] + window) <= times[i + 1],
        forall|i: int| 0 <= i < times.len() ==> #[trigger] (times[i] + window) <= u64::MAX,
    ensures
        run_events(key, times, window).0 == seq![(key, (times.last() + window) as u64)],
        run_events(key, times, window).1 == times.len() - 1,
        run_events(key, times, window).1 + run_events(key, times, window).0.len()
            == times.len(),
    decreases times.len(),
{
    let t = times.last();
    assert((t + window) as u64 == t + window);
    if times.len() == 1 {
        let st = run_events(key, times.drop_last(), window);
        assert(times.drop_last().len() == 0);
        assert(st.0 == Seq::<(Seq<char>, u64)>::empty());
        assert(split_point(st.0, t) == 0);
        assert(st.0.subrange(0, 0) =~= Seq::<(Seq<char>, u64)>::empty());
        assert(!has_key(Seq::<(Seq<char>, u64)>::empty(), key));
        assert(Seq::<(Seq<char>, u64)>::empty().push((key, (t + window) as u64)) =~= seq![
            (key, (t + window) as u64),
        ]);
    } else {
        let prefix = times.drop_last();
        assert(prefix.len() == times.len() - 1);
        assert(forall|i: int| 0 <= i < prefix.len() ==> prefix[i] == times[i]);
        lemma_spread_separates(key, prefix, window);
        let st = run_events(key, prefix, window);
        let d = (prefix.last() + window) as u64;
        assert(st.0 == seq![(key, d)]);
        assert(prefix.last() == times[times.len() - 2]);
        assert(times[times.len() - 2] + window <= t);
        assert(st.0[0].1 == d);
        assert(d <= t);
        assert(st.0.drop_first() =~= Seq::<(Seq<char>, u64)>::empty());
        assert(split_point(st.0.drop_first(), t) == 0);
        assert(split_point(st.0, t) == 1);
        assert(st.0.subrange(1, 1) =~= Seq::<(Seq<char>, u64)>::empty());
        assert(!has_key(st.0.subrange(1, 1), key));
        assert(st.0.subrange(1, 1).push((key, (t + window) as u64)) =~= seq![
            (key, (t + window) as u64),
        ]);
    }
}

/// `split_point` is exactly the length of the leading run of passed
/// deadlines.
proof fn lemma_split_point_at(p: Seq<(Seq<char>, u64)>, now: u64, k: int)
    requires
        0 <= k <= p.len(),
        forall|i: int| 0 <= i < k ==> p[i].1 <= now,
        k == p.len() || p[k].1 > now,
    ensures
        split_point(p, now) == k,
    decreases p.len(),
{
    if k == 0 {
        assert(p.len() == 0 || p[0].1 > now);
    } else {
        assert(p[0].1 <= now);
        let q = p.drop_first();
        assert(forall|i: int| 0 <= i < k - 1 ==> q[i].1 <= now);
        lemma_split_point_at(q, now, k - 1);
    }
}

} // verus!
