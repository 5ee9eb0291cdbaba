//! The iteration controller: a cursor over the segmentation set.

use vstd::prelude::*;
use crate::interval::Interval;
use crate::kernel::{measured, reported, scan, Measurement, OverlapResult};
use crate::matrix::{Matrix, ShapeError};

verus! {

/// What one call of [`Scanner::advance`] found.
#[derive(Clone, Copy, Debug, PartialEq, Eq, Structural)]
pub enum Step {
    /// The next segment, with its position in the segmentation set. The data
    /// set is now to be measured against it.
    Scan { index: usize, segment: Interval },
    /// Every segment has been handed out. This is no batch, not even an empty one.
    Exhausted,
}

/// What one call of [`Scanner::advance_with`] returns.
#[derive(Debug)]
pub enum Advance {
    /// The results for the next segment, in the order of the data set. The
    /// batch may be empty.
    Batch(Vec<OverlapResult>),
    /// Every segment has been handed out.
    Exhausted,
}

/// The state of a scanner: how many segments it has handed out, and what it
/// was made with.
pub struct State {
    pub cursor: nat,
    pub threshold: u64,
    pub segmentation: Seq<Interval>,
    pub data: Seq<Interval>,
}

impl State {
    /// The state of a scanner that has handed out nothing yet.
    pub open spec fn fresh(segmentation: Seq<Interval>, data: Seq<Interval>, threshold: u64) -> State {
        State { cursor: 0, threshold, segmentation, data }
    }

    /// The cursor lies within the segmentation set or directly behind it, and
    /// the set is one that a vector can hold.
    pub open spec fn valid(self) -> bool {
        self.cursor <= self.segmentation.len() <= usize::MAX
    }

    /// Whether every segment has been handed out.
    pub open spec fn exhausted(self) -> bool {
        self.cursor >= self.segmentation.len()
    }

    /// What the next call of `advance` returns.
    pub open spec fn step(self) -> Step {
        if self.exhausted() {
            Step::Exhausted
        } else {
            Step::Scan { index: self.cursor as usize, segment: self.segmentation[self.cursor as int] }
        }
    }

    /// The state that the next call of `advance` leaves: the cursor has moved
    /// on by one, unless the scanner was exhausted. Nothing else changes.
    pub open spec fn next(self) -> State {
        if self.exhausted() {
            self
        } else {
            State { cursor: self.cursor + 1, ..self }
        }
    }

    /// The state after `calls` calls of `advance`.
    pub open spec fn after(self, calls: nat) -> State
        decreases calls,
    {
        if calls == 0 {
            self
        } else {
            self.after((calls - 1) as nat).next()
        }
    }
}

/// A scanner: a segmentation set, a data set and a threshold, fixed when it is
/// made, and a cursor into the segmentation set that only moves forward.
pub struct Scanner {
    cursor: usize,
    threshold: u64,
    segmentation: Vec<Interval>,
    data: Vec<Interval>,
}

impl View for Scanner {
    type V = State;

    closed spec fn view(&self) -> State {
        State {
            cursor: self.cursor as nat,
            threshold: self.threshold,
            segmentation: self.segmentation@,
            data: self.data@,
        }
    }
}

impl Scanner {
    #[verifier::type_invariant]
    spec fn cursor_in_range(&self) -> bool {
        self.cursor <= self.segmentation.len()
    }

    /// A scanner over the given sets that has handed out nothing yet.
    pub fn new(segmentation: Vec<Interval>, data: Vec<Interval>, threshold: u64) -> (scanner: Scanner)
        ensures
            scanner@ == State::fresh(segmentation@, data@, threshold),
            scanner@.valid(),
    {
        Scanner { cursor: 0, threshold, segmentation, data }
    }

    /// Hands out the segment under the cursor and moves the cursor on by one,
    /// or reports that no segment is left. Only the cursor changes; an
    /// exhausted scanner stays as it is.
    pub fn advance(&mut self) -> (step: Step)
        ensures
            old(self)@.valid(),
            step == old(self)@.step(),
            final(self)@ == old(self)@.next(),
            final(self)@.valid(),
    {
        proof {
            use_type_invariant(&*self);
        }
        if self.cursor < self.segmentation.len() {
            let index: usize = self.cursor;
            let segment = self.segmentation[index];
            self.cursor = index + 1;
            Step::Scan { index, segment }
        } else {
            Step::Exhausted
        }
    }

    /// Advances, and where a segment was handed out, measures every data
    /// interval against it, in the order of the data set, and returns the
    /// batch of those whose overlap exceeds the threshold, in that order.
    /// See [`measure`](crate::kernel::measure) for the two operations.
    pub fn advance_with<S: Fn(u64, u64) -> u64, D: Fn(u64, u64) -> u64>(&mut self, subtract: &S, divide: &D) -> (r:
        Advance)
        requires
            forall|a: u64, b: u64| #[trigger] subtract.requires((a, b)),
            forall|a: u64, b: u64| #[trigger] divide.requires((a, b)),
        ensures
            final(self)@ == old(self)@.next(),
            final(self)@.valid(),
            match r {
                Advance::Exhausted => old(self)@.step() == Step::Exhausted,
                Advance::Batch(results) => old(self)@.step() matches Step::Scan { segment, .. }
                    && exists|measurements: Seq<Measurement>|
                    measured(*subtract, *divide, segment, old(self)@.data, measurements) && results@
                        == reported(measurements, old(self)@.threshold),
            },
    {
        match self.advance() {
            Step::Exhausted => Advance::Exhausted,
            Step::Scan { index: _, segment } => Advance::Batch(
                scan(segment, &self.data, self.threshold, subtract, divide),
            ),
        }
    }

    /// How many segments have been handed out.
    pub fn cursor(&self) -> (r: usize)
        ensures
            r == self@.cursor,
            self@.valid(),
    {
        proof {
            use_type_invariant(self);
        }
        self.cursor
    }

    /// How many segments there are.
    pub fn segmentation_count(&self) -> (r: usize)
        ensures
            r == self@.segmentation.len(),
    {
        self.segmentation.len()
    }

    /// Whether every segment has been handed out.
    pub fn is_exhausted(&self) -> (r: bool)
        ensures
            r == self@.exhausted(),
    {
        self.cursor >= self.segmentation.len()
    }

    /// The threshold that an overlap has to exceed, as a binary64 bit pattern.
    pub fn threshold(&self) -> (r: u64)
        ensures
            r == self@.threshold,
    {
        self.threshold
    }

    /// The segmentation set.
    pub fn segmentation(&self) -> (r: &Vec<Interval>)
        ensures
            r@ == self@.segmentation,
    {
        &self.segmentation
    }

    /// The data set.
    pub fn data(&self) -> (r: &Vec<Interval>)
        ensures
            r@ == self@.data,
    {
        &self.data
    }
}

/// A scanner over the intervals that two matrices hold, row by row, or what is
/// wrong with the shape of the first matrix that is no sequence of intervals.
/// The scanner keeps copies: it does not refer to the matrices afterwards.
pub fn merge_interval_index(segmentation: &Matrix, data: &Matrix, proximity_threshold: u64) -> (r: Result<
    Scanner,
    ShapeError,
>)
    ensures
        match r {
            Ok(scanner) => {
                &&& segmentation.fault() is None
                &&& data.fault() is None
                &&& scanner@ == State::fresh(segmentation.rows(), data.rows(), proximity_threshold)
                &&& scanner@.valid()
            },
            Err(error) => if segmentation.fault() is Some {
                segmentation.fault() == Some(error)
            } else {
                data.fault() == Some(error)
            },
        },
{
    let segments = match segmentation.intervals() {
        Ok(intervals) => intervals,
        Err(error) => {
            return Err(error);
        },
    };
    let data_intervals = match data.intervals() {
        Ok(intervals) => intervals,
        Err(error) => {
            return Err(error);
        },
    };
    Ok(Scanner::new(segments, data_intervals, proximity_threshold))
}

/// Calls of `advance` change neither set nor the threshold, however many are made.
pub proof fn lemma_sets_are_fixed(state: State, calls: nat)
    ensures
        state.after(calls).segmentation == state.segmentation,
        state.after(calls).data == state.data,
        state.after(calls).threshold == state.threshold,
    decreases calls,
{
    if calls > 0 {
        lemma_sets_are_fixed(state, (calls - 1) as nat);
    }
}

/// The cursor after `calls` calls of `advance`: it has moved on by one for each
/// call until it reached the end of the segmentation set, and stayed there.
pub proof fn lemma_cursor_after(state: State, calls: nat)
    requires
        state.valid(),
    ensures
        state.after(calls).valid(),
        state.after(calls).cursor == if state.cursor + calls <= state.segmentation.len() {
            state.cursor + calls
        } else {
            state.segmentation.len()
        },
    decreases calls,
{
    if calls > 0 {
        lemma_cursor_after(state, (calls - 1) as nat);
        lemma_sets_are_fixed(state, (calls - 1) as nat);
    }
}

/// A fresh scanner hands out its segments in order, one for each call of
/// `advance`, and after as many calls as there are segments every further call
/// reports exhaustion and changes nothing.
pub proof fn lemma_exhaustion(segmentation: Seq<Interval>, data: Seq<Interval>, threshold: u64, calls: nat)
    requires
        segmentation.len() <= usize::MAX,
    ensures
        calls < segmentation.len() ==> State::fresh(segmentation, data, threshold).after(calls).step() == (
        Step::Scan { index: calls as usize, segment: segmentation[calls as int] }),
        calls >= segmentation.len() ==> State::fresh(segmentation, data, threshold).after(calls).step()
            == Step::Exhausted,
        calls >= segmentation.len() ==> State::fresh(segmentation, data, threshold).after(calls).next()
            == State::fresh(segmentation, data, threshold).after(calls),
{
    let fresh = State::fresh(segmentation, data, threshold);
    lemma_cursor_after(fresh, calls);
    lemma_sets_are_fixed(fresh, calls);
}

/// Two scanners made with the same sets and threshold, after equally many calls
/// of `advance`, are in the same state and report the same step.
pub proof fn lemma_deterministic(first: State, second: State, calls: nat)
    requires
        first.cursor == second.cursor,
        first.threshold == second.threshold,
        first.segmentation == second.segmentation,
        first.data == second.data,
    ensures
        first.after(calls) == second.after(calls),
        first.after(calls).step() == second.after(calls).step(),
{
}

} // verus!
