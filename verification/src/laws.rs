//! What holds of the admission rule over whole histories of requests.
//!
//! The functions here are proofs. They speak of the same spec functions that
//! the contracts of [`crate::store::WindowStore`] and
//! [`crate::limiter::RateLimiter`] use, so each statement carries over to any
//! run of the executable code.

use crate::quota::{advance, decide, starts_window, window_elapsed, Decision, PolicyView, WindowState};
use crate::store::{consumed, retained, StoreModel};
use vstd::prelude::*;

verus! {

/// One request as the store sees it: who asks, and when.
pub struct Request {
    pub key: Seq<char>,
    pub now: u64,
}

/// The smaller of two numbers.
pub open spec fn least(a: nat, b: nat) -> nat {
    if a <= b {
        a
    } else {
        b
    }
}

/// A client's recorded state after requests at the times `nows`, in that order.
pub open spec fn entry_after(
    entry: Option<WindowState>,
    nows: Seq<u64>,
    policy: PolicyView,
) -> Option<WindowState>
    decreases nows.len(),
{
    if nows.len() == 0 {
        entry
    } else {
        Some(advance(entry_after(entry, nows.drop_last(), policy), nows.last(), policy))
    }
}

/// The decision for the request at position `i` of `nows`.
pub open spec fn decision_at(
    entry: Option<WindowState>,
    nows: Seq<u64>,
    i: int,
    policy: PolicyView,
) -> Decision {
    decide(entry_after(entry, nows.take(i), policy), nows[i], policy)
}

/// How many of the requests at `nows` are allowed.
pub open spec fn allowed(entry: Option<WindowState>, nows: Seq<u64>, policy: PolicyView) -> nat
    decreases nows.len(),
{
    if nows.len() == 0 {
        0
    } else {
        let earlier = allowed(entry, nows.drop_last(), policy);
        if decision_at(entry, nows, nows.len() - 1, policy) == Decision::Allow {
            earlier + 1
        } else {
            earlier
        }
    }
}

/// A request at `now` falls into the window that began at `start`.
pub open spec fn in_window(start: u64, now: u64, policy: PolicyView) -> bool {
    now - start < policy.window_duration
}

/// The requests at `nows` all fall into the window that the first of them opens.
pub open spec fn one_window(entry: Option<WindowState>, nows: Seq<u64>, policy: PolicyView) -> bool {
    &&& nows.len() >= 1
    &&& starts_window(entry, nows[0], policy)
    &&& forall|i: int| 0 <= i < nows.len() ==> in_window(nows[0], #[trigger] nows[i], policy)
}

/// The store after the requests `calls`, in that order.
pub open spec fn replay(m: StoreModel, calls: Seq<Request>, policy: PolicyView) -> StoreModel
    decreases calls.len(),
{
    if calls.len() == 0 {
        m
    } else {
        let call = calls.last();
        consumed(replay(m, calls.drop_last(), policy), call.key, call.now, policy)
    }
}

/// The times of those requests in `calls` that `key` made, in order.
pub open spec fn times_for(calls: Seq<Request>, key: Seq<char>) -> Seq<u64>
    decreases calls.len(),
{
    if calls.len() == 0 {
        Seq::empty()
    } else {
        let earlier = times_for(calls.drop_last(), key);
        if calls.last().key == key {
            earlier.push(calls.last().now)
        } else {
            earlier
        }
    }
}

/// Within one window the recorded count is the number of requests made, capped
/// at the policy's maximum, and the window keeps the start that its first
/// request gave it.
pub proof fn lemma_window_state(entry: Option<WindowState>, nows: Seq<u64>, policy: PolicyView)
    requires
        policy.valid(),
        one_window(entry, nows, policy),
    ensures
        entry_after(entry, nows, policy) == Some(
            WindowState {
                count: least(nows.len(), policy.max_requests) as u64,
                window_start: nows[0],
            },
        ),
    decreases nows.len(),
{
    let earlier = nows.drop_last();
    if nows.len() == 1 {
        assert(entry_after(entry, earlier, policy) == entry);
    } else {
        assert(earlier[0] == nows[0]);
        assert forall|i: int| 0 <= i < earlier.len() implies in_window(
            earlier[0],
            #[trigger] earlier[i],
            policy,
        ) by {
            assert(earlier[i] == nows[i]);
        }
        lemma_window_state(entry, earlier, policy);
    }
}

/// Of the requests that fall into one window, the first
/// `max_requests` are allowed and every later one is denied.
pub proof fn lemma_quota_enforced(entry: Option<WindowState>, nows: Seq<u64>, policy: PolicyView)
    requires
        policy.valid(),
        one_window(entry, nows, policy),
    ensures
        forall|i: int|
            0 <= i < nows.len() ==> #[trigger] decision_at(entry, nows, i, policy) == if i
                < policy.max_requests {
                Decision::Allow
            } else {
                Decision::Deny
            },
{
    assert forall|i: int| 0 <= i < nows.len() implies #[trigger] decision_at(entry, nows, i, policy)
        == if i < policy.max_requests {
        Decision::Allow
    } else {
        Decision::Deny
    } by {
        let seen = nows.take(i);
        if i == 0 {
            assert(entry_after(entry, seen, policy) == entry);
        } else {
            assert(seen[0] == nows[0]);
            assert forall|j: int| 0 <= j < seen.len() implies in_window(
                seen[0],
                #[trigger] seen[j],
                policy,
            ) by {
                assert(seen[j] == nows[j]);
            }
            lemma_window_state(entry, seen, policy);
        }
    }
}

/// However many requests fall into one window and in whatever order their
/// timestamps arrive, exactly `max_requests` of them are allowed, or all of
/// them when there are fewer.
pub proof fn lemma_allowed_in_window(entry: Option<WindowState>, nows: Seq<u64>, policy: PolicyView)
    requires
        policy.valid(),
        one_window(entry, nows, policy),
    ensures
        allowed(entry, nows, policy) == least(nows.len(), policy.max_requests),
    decreases nows.len(),
{
    let earlier = nows.drop_last();
    lemma_quota_enforced(entry, nows, policy);
    assert(decision_at(entry, nows, nows.len() - 1, policy) == if nows.len() - 1
        < policy.max_requests {
        Decision::Allow
    } else {
        Decision::Deny
    });
    if nows.len() == 1 {
        assert(allowed(entry, earlier, policy) == 0);
    } else {
        assert(earlier[0] == nows[0]);
        assert forall|i: int| 0 <= i < earlier.len() implies in_window(
            earlier[0],
            #[trigger] earlier[i],
            policy,
        ) by {
            assert(earlier[i] == nows[i]);
        }
        lemma_allowed_in_window(entry, earlier, policy);
    }
}

/// The first request at or after the end of a window is allowed
/// and starts a new window with a count of one.
pub proof fn lemma_window_reset(state: WindowState, now: u64, policy: PolicyView)
    requires
        now - state.window_start >= policy.window_duration,
    ensures
        decide(Some(state), now, policy) == Decision::Allow,
        advance(Some(state), now, policy) == (WindowState { count: 1, window_start: now }),
{
}

/// A recorded count lies between one and the policy's maximum after every
/// request, and a window's start never moves backwards.
pub proof fn lemma_state_bounds(entry: Option<WindowState>, now: u64, policy: PolicyView)
    requires
        policy.valid(),
        entry matches Some(state) ==> 1 <= state.count <= policy.max_requests,
    ensures
        1 <= advance(entry, now, policy).count <= policy.max_requests,
        entry matches Some(state) ==> state.window_start <= advance(
            entry,
            now,
            policy,
        ).window_start,
        decide(entry, now, policy) == Decision::Deny ==> Some(advance(entry, now, policy)) == entry,
{
}

/// What the store records for a key after any history of
/// requests is what that key's own requests alone would have left there.
pub proof fn lemma_keys_independent(
    m: StoreModel,
    calls: Seq<Request>,
    key: Seq<char>,
    policy: PolicyView,
)
    ensures
        replay(m, calls, policy).get(key) == entry_after(
            m.get(key),
            times_for(calls, key),
            policy,
        ),
    decreases calls.len(),
{
    if calls.len() > 0 {
        let earlier = calls.drop_last();
        lemma_keys_independent(m, earlier, key, policy);
        if calls.last().key == key {
            let times = times_for(earlier, key);
            assert(times.push(calls.last().now).drop_last() =~= times);
        }
    }
}

/// Requests from other keys, however many, leave a key's entry as it was.
pub proof fn lemma_other_keys_leave_entry(
    m: StoreModel,
    calls: Seq<Request>,
    key: Seq<char>,
    policy: PolicyView,
)
    requires
        forall|i: int| 0 <= i < calls.len() ==> calls[i].key != key,
    ensures
        replay(m, calls, policy).get(key) == m.get(key),
    decreases calls.len(),
{
    if calls.len() > 0 {
        let earlier = calls.drop_last();
        assert forall|i: int| 0 <= i < earlier.len() implies earlier[i].key != key by {
            assert(earlier[i] == calls[i]);
        }
        lemma_other_keys_leave_entry(m, earlier, key, policy);
        assert(calls.last() == calls[calls.len() - 1]);
    }
}

/// A sweep removes the entry of every key that has made no
/// request for a full window, and what it leaves are running windows only.
pub proof fn lemma_sweep_evicts_inactive(
    m: StoreModel,
    key: Seq<char>,
    last_request: u64,
    now: u64,
    policy: PolicyView,
)
    requires
        m.dom().contains(key),
        m[key].window_start <= last_request,
        now - last_request >= policy.window_duration,
    ensures
        !retained(m, now, policy).dom().contains(key),
        retained(m, now, policy).dom().subset_of(m.dom()),
        forall|k: Seq<char>| #[trigger]
            retained(m, now, policy).dom().contains(k) ==> retained(m, now, policy)[k] == m[k]
                && !window_elapsed(m[k], now, policy),
{
}

/// A sweep changes no later decision: a request made at or after the sweep
/// is decided, and recorded, as if the sweep had not happened.
pub proof fn lemma_sweep_is_transparent(
    m: StoreModel,
    key: Seq<char>,
    swept_at: u64,
    now: u64,
    policy: PolicyView,
)
    requires
        swept_at <= now,
    ensures
        decide(retained(m, swept_at, policy).get(key), now, policy) == decide(
            m.get(key),
            now,
            policy,
        ),
        advance(retained(m, swept_at, policy).get(key), now, policy) == advance(
            m.get(key),
            now,
            policy,
        ),
{
}

} // verus!
