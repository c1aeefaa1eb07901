//! What is remembered of one rate limited event, and how one more occurrence of
//! that event changes it.

use vstd::prelude::*;

use crate::time::{elapsed, Duration, Instant};

verus! {

/// The running count of one event in its current window.
#[derive(Debug)]
pub struct State {
    /// When the window was opened.
    pub start: Instant,
    /// How often the event was seen in the window.
    pub count: u64,
    /// How often the event may be seen in a window before it is limited.
    pub limit_threshold: u64,
    /// How long a window lasts.
    pub limit_duration: Duration,
    /// The message of the event that made this state.
    pub message: String,
}

/// The mathematical content of a [`State`]; times are in nanoseconds.
pub struct StateView {
    pub start: nat,
    pub count: nat,
    pub limit_threshold: nat,
    pub limit_duration: nat,
    pub message: Seq<char>,
}

impl View for State {
    type V = StateView;

    open spec fn view(&self) -> StateView {
        StateView {
            start: self.start@,
            count: self.count as nat,
            limit_threshold: self.limit_threshold as nat,
            limit_duration: self.limit_duration@,
            message: self.message@,
        }
    }
}

/// What becomes of one occurrence of a rate limited event.
#[derive(Clone, Copy, Debug, PartialEq, Eq)]
pub enum Verdict {
    /// The occurrence is passed on.
    Forward,
    /// The occurrence is withheld, and the start of the limiting is announced.
    Started,
    /// The occurrence is withheld.
    Suppress,
    /// The end of the limiting is announced, with the number of occurrences over
    /// the threshold, and the occurrence is passed on.
    Stopped(u64),
}

/// The mathematical content of a [`Verdict`].
pub enum VerdictView {
    Forward,
    Started,
    Suppress,
    Stopped(nat),
}

impl View for Verdict {
    type V = VerdictView;

    open spec fn view(&self) -> VerdictView {
        match self {
            Verdict::Forward => VerdictView::Forward,
            Verdict::Started => VerdictView::Started,
            Verdict::Suppress => VerdictView::Suppress,
            Verdict::Stopped(filtered_count) => VerdictView::Stopped(*filtered_count as nat),
        }
    }
}

impl VerdictView {
    /// Whether the occurrence is kept from the output.
    pub open spec fn withholds(self) -> bool {
        self is Started || self is Suppress
    }
}

impl StateView {
    /// The state of an event that was not seen yet, with a window that opens at `now`.
    pub open spec fn fresh(
        message: Seq<char>,
        limit_threshold: nat,
        limit_duration: nat,
        now: nat,
    ) -> StateView {
        StateView { start: now, count: 0, limit_threshold, limit_duration, message }
    }

    /// Whether the window is over at `now`.
    pub open spec fn is_expired(self, now: nat) -> bool {
        elapsed(self.start, now) >= self.limit_duration
    }

    /// The state with one more occurrence counted.
    pub open spec fn counted(self) -> StateView {
        StateView { count: self.count + 1, ..self }
    }

    /// The state with a window that opens at `now` and holds one occurrence.
    pub open spec fn reopened(self, now: nat) -> StateView {
        StateView { start: now, count: 1, ..self }
    }

    /// Whether the event is limited at `now`: it was seen more often than the
    /// threshold allows, and the window is not over.
    pub open spec fn is_limited(self, now: nat) -> bool {
        self.count > self.limit_threshold && !self.is_expired(now)
    }

    /// What becomes of one more occurrence at `now`, where `limit` is the threshold
    /// that this occurrence asks for.
    pub open spec fn verdict(self, limit: nat, now: nat) -> VerdictView {
        if self.counted().is_limited(now) {
            if self.count < limit {
                VerdictView::Forward
            } else if self.count == limit {
                VerdictView::Started
            } else {
                VerdictView::Suppress
            }
        } else if self.count > limit {
            VerdictView::Stopped((self.count - limit) as nat)
        } else {
            VerdictView::Forward
        }
    }

    /// The state after one more occurrence at `now`: the occurrence is counted in
    /// the window, or it opens a new one.
    pub open spec fn observed(self, limit: nat, now: nat) -> StateView {
        if !self.counted().is_limited(now) && (self.count > limit || self.is_expired(now)) {
            self.reopened(now)
        } else {
            self.counted()
        }
    }
}

impl Clone for State {
    fn clone(&self) -> (r: State)
        ensures
            r == *self,
    {
        State {
            start: self.start,
            count: self.count,
            limit_threshold: self.limit_threshold,
            limit_duration: self.limit_duration,
            message: self.message.clone(),
        }
    }
}

impl State {
    /// The state of an event that was not seen yet, with a window that opens at `now`.
    pub fn new(
        message: String,
        limit_threshold: u64,
        limit_duration: Duration,
        now: Instant,
    ) -> (r: State)
        ensures
            r@ == StateView::fresh(message@, limit_threshold as nat, limit_duration@, now@),
    {
        State { start: now, count: 0, limit_threshold, limit_duration, message }
    }

    /// Opens a new window at `now` that holds one occurrence.
    pub fn reset(&mut self, now: Instant)
        ensures
            final(self)@ == old(self)@.reopened(now@),
    {
        self.start = now;
        self.count = 1;
    }

    /// Counts one more occurrence and returns how many there were before it.
    pub fn increment_count(&mut self) -> (prev: u64)
        requires
            old(self).count < u64::MAX,
        ensures
            prev == old(self).count,
            final(self)@ == old(self)@.counted(),
    {
        let prev: u64 = self.count;
        self.count = self.count + 1;
        prev
    }

    /// Whether the window is over at `now`.
    pub fn expired(&self, now: Instant) -> (r: bool)
        ensures
            r == self@.is_expired(now@),
            r <==> self.limit_duration@ == 0 || self.start@ + self.limit_duration@ <= now@,
    {
        now.saturating_duration_since(&self.start).at_least(&self.limit_duration)
    }

    /// Whether the event is limited at `now`.
    pub fn should_limit(&self, now: Instant) -> (r: bool)
        ensures
            r == self@.is_limited(now@),
    {
        self.count > self.limit_threshold && !self.expired(now)
    }

    /// Counts one more occurrence at `now`, which asks for the threshold
    /// `limit_threshold`, and decides what becomes of it.
    pub fn observe(&mut self, limit_threshold: u64, now: Instant) -> (r: Verdict)
        requires
            old(self).count < u64::MAX,
        ensures
            r@ == old(self)@.verdict(limit_threshold as nat, now@),
            final(self)@ == old(self)@.observed(limit_threshold as nat, now@),
    {
        let previous_count: u64 = self.increment_count();
        if self.should_limit(now) {
            if previous_count < limit_threshold {
                Verdict::Forward
            } else if previous_count == limit_threshold {
                Verdict::Started
            } else {
                Verdict::Suppress
            }
        } else if previous_count > limit_threshold {
            let filtered_count: u64 = previous_count - limit_threshold;
            self.reset(now);
            Verdict::Stopped(filtered_count)
        } else {
            if self.expired(now) {
                self.reset(now);
            }
            Verdict::Forward
        }
    }
}

} // verus!
