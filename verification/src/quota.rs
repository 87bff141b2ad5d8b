//! The quota rule for a single client: policy, window state and the
//! fixed-window step that turns one request into a decision.

use vstd::prelude::*;

verus! {

/// Outcome of an admission check.
#[derive(Clone, Copy, Debug, PartialEq, Eq, Structural)]
pub enum Decision {
    /// The request is within quota and may proceed.
    Allow,
    /// The client has used up its quota for the current window.
    Deny,
}

/// What one client has consumed in its current window.
///
/// Timestamps and durations are counted in the same unit, ticks of the
/// caller's clock since an epoch of its choosing.
#[derive(Clone, Copy, Debug, PartialEq, Eq, Structural)]
pub struct WindowState {
    /// Requests accepted in the current window.
    pub count: u64,
    /// Timestamp at which the current window began.
    pub window_start: u64,
}

/// How many requests a client may make per window. Both numbers are positive.
#[derive(Clone, Copy, Debug)]
pub struct QuotaPolicy {
    max_requests: u64,
    window_duration: u64,
}

/// The mathematical content of a [`QuotaPolicy`].
pub struct PolicyView {
    pub max_requests: nat,
    pub window_duration: nat,
}

impl View for QuotaPolicy {
    type V = PolicyView;

    closed spec fn view(&self) -> PolicyView {
        PolicyView {
            max_requests: self.max_requests as nat,
            window_duration: self.window_duration as nat,
        }
    }
}

impl PolicyView {
    /// Both limits are positive and fit the machine representation.
    pub open spec fn valid(self) -> bool {
        &&& 1 <= self.max_requests <= u64::MAX
        &&& 1 <= self.window_duration <= u64::MAX
    }
}

/// The window that `state` describes is over at time `now`.
pub open spec fn window_elapsed(state: WindowState, now: u64, policy: PolicyView) -> bool {
    now - state.window_start >= policy.window_duration
}

/// The request opens a new window: the client is unknown or its window is over.
pub open spec fn starts_window(entry: Option<WindowState>, now: u64, policy: PolicyView) -> bool {
    match entry {
        None => true,
        Some(state) => window_elapsed(state, now, policy),
    }
}

/// The decision for a request at `now` from a client whose recorded state is `entry`.
pub open spec fn decide(entry: Option<WindowState>, now: u64, policy: PolicyView) -> Decision {
    match entry {
        None => Decision::Allow,
        Some(state) => if window_elapsed(state, now, policy) || state.count < policy.max_requests {
            Decision::Allow
        } else {
            Decision::Deny
        },
    }
}

/// The state recorded for the client once the request at `now` has been decided.
pub open spec fn advance(entry: Option<WindowState>, now: u64, policy: PolicyView) -> WindowState {
    match entry {
        None => WindowState { count: 1, window_start: now },
        Some(state) => if window_elapsed(state, now, policy) {
            WindowState { count: 1, window_start: now }
        } else if state.count < policy.max_requests {
            WindowState { count: (state.count + 1) as u64, window_start: state.window_start }
        } else {
            state
        },
    }
}

impl QuotaPolicy {
    #[verifier::type_invariant]
    spec fn positive(self) -> bool {
        self.max_requests >= 1 && self.window_duration >= 1
    }

    /// A policy of `max_requests` per `window_duration`, or `None` when either is zero.
    pub fn new(max_requests: u64, window_duration: u64) -> (policy: Option<QuotaPolicy>)
        ensures
            policy is Some <==> max_requests >= 1 && window_duration >= 1,
            policy matches Some(p) ==> p@.max_requests == max_requests
                && p@.window_duration == window_duration && p@.valid(),
    {
        if max_requests == 0 || window_duration == 0 {
            None
        } else {
            Some(QuotaPolicy { max_requests, window_duration })
        }
    }

    /// The number of requests allowed per window.
    pub fn max_requests(&self) -> (n: u64)
        ensures
            n == self@.max_requests,
            self@.valid(),
    {
        proof {
            use_type_invariant(self);
        }
        self.max_requests
    }

    /// The length of a window.
    pub fn window_duration(&self) -> (d: u64)
        ensures
            d == self@.window_duration,
            self@.valid(),
    {
        proof {
            use_type_invariant(self);
        }
        self.window_duration
    }

    /// Whether the window described by `state` is over at `now`.
    pub fn elapsed(&self, state: WindowState, now: u64) -> (over: bool)
        ensures
            over == window_elapsed(state, now, self@),
    {
        now >= state.window_start && now - state.window_start >= self.window_duration
    }

    /// Decides one request at `now` against the client's recorded state and
    /// returns the decision with the state to record.
    pub fn step(&self, entry: Option<WindowState>, now: u64) -> (out: (Decision, WindowState))
        ensures
            out.0 == decide(entry, now, self@),
            out.1 == advance(entry, now, self@),
    {
        match entry {
            None => (Decision::Allow, WindowState { count: 1, window_start: now }),
            Some(state) => {
                if self.elapsed(state, now) {
                    (Decision::Allow, WindowState { count: 1, window_start: now })
                } else if state.count < self.max_requests {
                    (
                        Decision::Allow,
                        WindowState { count: state.count + 1, window_start: state.window_start },
                    )
                } else {
                    (Decision::Deny, state)
                }
            },
        }
    }
}

} // verus!
