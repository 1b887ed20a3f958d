//! The fan-in's own bookkeeping: rotations counted per car over the current rate window, and
//! the pacing of a replayed session.

use vstd::prelude::*;

verus! {

/// One car's rate window: when it started and how many rotations arrived since.
#[derive(Debug)]
pub struct RateWindow<W> {
    /// Car id.
    pub car: String,
    /// When the window started.
    pub window_start: W,
    /// Rotations received in the window.
    pub scans_in_window: u32,
}

/// Every car's id appears once.
pub open spec fn unique_windows<W>(w: Seq<RateWindow<W>>) -> bool {
    forall|i: int, j: int| 0 <= i < j < w.len() ==> #[trigger] w[i].car@ != #[trigger] w[j].car@
}

/// Rotations counted in the current window of the car with this id (0 when it has none).
pub open spec fn in_window<W>(w: Seq<RateWindow<W>>, car: Seq<char>) -> nat {
    if exists|i: int| 0 <= i < w.len() && #[trigger] w[i].car@ == car {
        w[choose|i: int| 0 <= i < w.len() && #[trigger] w[i].car@ == car].scans_in_window as nat
    } else {
        0
    }
}

/// `w0` with one rotation of `car` counted: its window's count one higher (same start), or,
/// for a car without a window, a new one opened at `now` with one rotation at the end; every
/// other window unchanged.
pub open spec fn scan_counted<W>(w0: Seq<RateWindow<W>>, w1: Seq<RateWindow<W>>, car: Seq<char>, now: W) -> bool {
    if exists|i: int| 0 <= i < w0.len() && #[trigger] w0[i].car@ == car {
        let i = choose|i: int| 0 <= i < w0.len() && #[trigger] w0[i].car@ == car;
        &&& w1.len() == w0.len()
        &&& w1[i].car@ == car
        &&& w1[i].window_start == w0[i].window_start
        &&& w1[i].scans_in_window == w0[i].scans_in_window + 1
        &&& forall|j: int| 0 <= j < w0.len() && j != i ==> #[trigger] w1[j] == w0[j]
    } else {
        &&& w1.len() == w0.len() + 1
        &&& forall|j: int| 0 <= j < w0.len() ==> #[trigger] w1[j] == w0[j]
        &&& w1[w0.len() as int].car@ == car
        &&& w1[w0.len() as int].window_start == now
        &&& w1[w0.len() as int].scans_in_window == 1
    }
}

proof fn lemma_window_of<W>(w: Seq<RateWindow<W>>, car: Seq<char>, i: int)
    requires
        unique_windows(w),
        0 <= i < w.len(),
        w[i].car@ == car,
    ensures
        in_window(w, car) == w[i].scans_in_window,
        (choose|j: int| 0 <= j < w.len() && #[trigger] w[j].car@ == car) == i,
{
    assert(exists|j: int| 0 <= j < w.len() && #[trigger] w[j].car@ == car);
    let k = choose|j: int| 0 <= j < w.len() && #[trigger] w[j].car@ == car;
    if k != i {
        if k < i {
            assert(w[k].car@ != w[i].car@);
        } else {
            assert(w[i].car@ != w[k].car@);
        }
    }
}

proof fn lemma_no_window<W>(w: Seq<RateWindow<W>>, car: Seq<char>)
    requires
        forall|j: int| 0 <= j < w.len() ==> #[trigger] w[j].car@ != car,
    ensures
        in_window(w, car) == 0,
{
}

/// Rotations per car over the current window, `W` being an instant.
pub struct ScanRates<W> {
    windows: Vec<RateWindow<W>>,
}

impl<W: Copy> ScanRates<W> {
    /// The windows, in the order the cars first sent a rotation.
    pub closed spec fn windows(&self) -> Seq<RateWindow<W>> {
        self.windows@
    }

    /// Every car's id appears once.
    pub open spec fn wf(&self) -> bool {
        unique_windows(self.windows())
    }

    /// No window yet.
    pub fn new() -> (r: Self)
        ensures
            r.wf(),
            r.windows().len() == 0,
    {
        ScanRates { windows: Vec::new() }
    }

    /// Rotations counted in the current window of this car.
    pub fn in_window(&self, car: &str) -> (n: u32)
        requires
            self.wf(),
        ensures
            n == in_window(self.windows(), car@),
    {
        let key = car.to_owned();
        let n = self.windows.len();
        let mut i: usize = 0;
        while i < n
            invariant
                n == self.windows@.len(),
                key@ == car@,
                unique_windows(self.windows@),
                i <= n,
                forall|j: int| 0 <= j < i ==> #[trigger] self.windows@[j].car@ != car@,
            decreases n - i,
        {
            if self.windows[i].car == key {
                proof {
                    let k = choose|k: int| 0 <= k < self.windows@.len() && #[trigger] self.windows@[k].car@ == car@;
                    if k != i {
                        if k < i {
                            assert(self.windows@[k].car@ != self.windows@[i as int].car@);
                        } else {
                            assert(self.windows@[i as int].car@ != self.windows@[k].car@);
                        }
                    }
                }
                return self.windows[i].scans_in_window;
            }
            i = i + 1;
        }
        0
    }

    /// Counts one rotation of this car, opening its window at `now` if it has none.
    pub fn count_scan(&mut self, car: &str, now: W)
        requires
            old(self).wf(),
            in_window(old(self).windows(), car@) < u32::MAX,
        ensures
            final(self).wf(),
            scan_counted(old(self).windows(), final(self).windows(), car@, now),
            in_window(final(self).windows(), car@) == in_window(old(self).windows(), car@) + 1,
            forall|other: Seq<char>| other != car@ ==> in_window(final(self).windows(), other)
                == in_window(old(self).windows(), other),
    {
        let key = car.to_owned();
        let n = self.windows.len();
        let ghost w0 = self.windows@;
        let mut i: usize = 0;
        while i < n
            invariant
                n == self.windows@.len(),
                w0 == self.windows@,
                w0 == old(self).windows@,
                key@ == car@,
                unique_windows(self.windows@),
                in_window(self.windows@, car@) < u32::MAX,
                i <= n,
                forall|j: int| 0 <= j < i ==> #[trigger] self.windows@[j].car@ != car@,
            decreases n - i,
        {
            if self.windows[i].car == key {
                proof {
                    lemma_window_of(w0, car@, i as int);
                }
                self.windows[i].scans_in_window = self.windows[i].scans_in_window + 1;
                proof {
                    let w1 = self.windows@;
                    assert forall|a: int, b: int| 0 <= a < b < w1.len() implies #[trigger] w1[a].car@
                        != #[trigger] w1[b].car@ by {
                        assert(w0[a].car@ != w0[b].car@);
                    }
                    assert(w1[i as int].scans_in_window == w0[i as int].scans_in_window + 1);
                    assert(w1[i as int].car@ == car@);
                    lemma_window_of(w1, car@, i as int);
                    assert(in_window(w1, car@) == in_window(w0, car@) + 1);
                    assert forall|other: Seq<char>| other != car@ implies in_window(w1, other)
                        == in_window(w0, other) by {
                        if exists|j: int| 0 <= j < w0.len() && #[trigger] w0[j].car@ == other {
                            let j0 = choose|j: int| 0 <= j < w0.len() && #[trigger] w0[j].car@ == other;
                            lemma_window_of(w0, other, j0);
                            lemma_window_of(w1, other, j0);
                        } else {
                            assert forall|j: int| 0 <= j < w1.len() implies #[trigger] w1[j].car@ != other by {
                                assert(w0[j].car@ != other);
                            }
                            lemma_no_window(w1, other);
                        }
                    }
                }
                return;
            }
            i = i + 1;
        }
        self.windows.push(RateWindow { car: key, window_start: now, scans_in_window: 1 });
        proof {
            let w1 = self.windows@;
            assert forall|j: int| 0 <= j < w0.len() implies #[trigger] w1[j] == w0[j] by {}
            assert forall|a: int, b: int| 0 <= a < b < w1.len() implies #[trigger] w1[a].car@
                != #[trigger] w1[b].car@ by {
                if b < w0.len() {
                    assert(w0[a].car@ != w0[b].car@);
                } else {
                    assert(w0[a].car@ != car@);
                }
            }
            lemma_no_window(w0, car@);
            lemma_window_of(w1, car@, n as int);
            assert forall|other: Seq<char>| other != car@ implies in_window(w1, other) == in_window(
                w0,
                other,
            ) by {
                if exists|j: int| 0 <= j < w0.len() && #[trigger] w0[j].car@ == other {
                    let j0 = choose|j: int| 0 <= j < w0.len() && #[trigger] w0[j].car@ == other;
                    lemma_window_of(w0, other, j0);
                    lemma_window_of(w1, other, j0);
                } else {
                    assert forall|j: int| 0 <= j < w1.len() implies #[trigger] w1[j].car@ != other by {
                        if j < w0.len() {
                            assert(w0[j].car@ != other);
                        }
                    }
                    lemma_no_window(w1, other);
                }
            }
        }
    }

    /// Closes every window: returns them as they were, and opens a new empty one at `now`
    /// for each car.
    pub fn tick(&mut self, now: W) -> (closed: Vec<RateWindow<W>>)
        requires
            old(self).wf(),
        ensures
            final(self).wf(),
            closed@ == old(self).windows(),
            final(self).windows().len() == old(self).windows().len(),
            forall|i: int| 0 <= i < closed@.len() ==> {
                &&& #[trigger] final(self).windows()[i].car@ == closed@[i].car@
                &&& final(self).windows()[i].window_start == now
                &&& final(self).windows()[i].scans_in_window == 0
            },
    {
        let mut closed: Vec<RateWindow<W>> = Vec::new();
        std::mem::swap(&mut closed, &mut self.windows);
        let n = closed.len();
        let mut i: usize = 0;
        while i < n
            invariant
                n == closed@.len(),
                unique_windows(closed@),
                i <= n,
                self.windows@.len() == i,
                forall|j: int| 0 <= j < i ==> {
                    &&& #[trigger] self.windows@[j].car@ == closed@[j].car@
                    &&& self.windows@[j].window_start == now
                    &&& self.windows@[j].scans_in_window == 0
                },
            decreases n - i,
        {
            let car = closed[i].car.clone();
            let ghost before = self.windows@;
            self.windows.push(RateWindow { car, window_start: now, scans_in_window: 0 });
            proof {
                assert forall|j: int| 0 <= j < i implies #[trigger] self.windows@[j] == before[j] by {}
                assert(self.windows@[i as int].car@ == closed@[i as int].car@);
                assert(self.windows@[i as int].window_start == now);
                assert(self.windows@[i as int].scans_in_window == 0);
                assert forall|j: int| 0 <= j < i + 1 implies {
                    &&& #[trigger] self.windows@[j].car@ == closed@[j].car@
                    &&& self.windows@[j].window_start == now
                    &&& self.windows@[j].scans_in_window == 0
                } by {
                    if j < i {
                        assert(self.windows@[j] == before[j]);
                    }
                }
            }
            i = i + 1;
        }
        proof {
            let w1 = self.windows@;
            assert forall|a: int, b: int| 0 <= a < b < w1.len() implies #[trigger] w1[a].car@
                != #[trigger] w1[b].car@ by {
                assert(closed@[a].car@ != closed@[b].car@);
            }
        }
        closed
    }
}

/// How long to wait before replaying an event seen at `at_ms` when the previous one was seen
/// at `prev_ms`: the gap, only when time moved forward.
pub fn replay_gap_ms(prev_ms: Option<u64>, at_ms: u64) -> (gap: Option<u64>)
    ensures
        match prev_ms {
            Some(p) => if at_ms > p {
                gap == Some((at_ms - p) as u64)
            } else {
                gap is None
            },
            None => gap is None,
        },
{
    match prev_ms {
        Some(p) => {
            if at_ms > p {
                Some(at_ms - p)
            } else {
                None
            }
        },
        None => None,
    }
}

} // verus!
