//! Admission of requests: one policy, one store, and the key under which a
//! request is counted.

use crate::quota::{decide, Decision, PolicyView, QuotaPolicy, WindowState};
use crate::store::{consumed, retained, StoreModel, WindowStore};
use vstd::prelude::*;

verus! {

/// Where a request came from, as far as the transport can tell.
#[derive(Debug)]
pub struct Origin {
    /// The address of the direct network peer, in text form and without a port.
    pub peer_address: String,
}

/// The key under which requests from `origin` are counted: the address of the
/// direct peer. Behind a reverse proxy this is the proxy's address, so all of
/// its clients share one quota.
pub fn client_key(origin: &Origin) -> (key: String)
    ensures
        key@ == origin.peer_address@,
{
    origin.peer_address.clone()
}

/// The mathematical content of a [`RateLimiter`].
pub struct LimiterView {
    pub policy: PolicyView,
    pub windows: StoreModel,
}

impl LimiterView {
    /// Every recorded count lies between one and the policy's maximum.
    pub open spec fn counts_in_bounds(self) -> bool {
        forall|k: Seq<char>| #[trigger]
            self.windows.dom().contains(k) ==> 1 <= self.windows[k].count
                <= self.policy.max_requests
    }
}

/// Decides for every request whether its client may proceed.
///
/// The policy is fixed when the limiter is made. The limiter owns its store;
/// a service that handles requests concurrently shares one limiter behind a
/// lock and holds the lock for one call at a time.
pub struct RateLimiter {
    store: WindowStore,
    policy: QuotaPolicy,
}

impl View for RateLimiter {
    type V = LimiterView;

    closed spec fn view(&self) -> LimiterView {
        LimiterView { policy: self.policy@, windows: self.store@ }
    }
}

impl RateLimiter {
    #[verifier::type_invariant]
    spec fn within_quota(self) -> bool {
        self@.policy.valid() && self@.counts_in_bounds()
    }

    /// A limiter that enforces `policy` and has seen no request yet.
    pub fn new(policy: QuotaPolicy) -> (limiter: RateLimiter)
        ensures
            limiter@.policy == policy@,
            limiter@.windows == Map::<Seq<char>, WindowState>::empty(),
    {
        let _ = policy.max_requests();
        RateLimiter { store: WindowStore::new(), policy }
    }

    /// The policy that this limiter enforces.
    pub fn policy(&self) -> (policy: QuotaPolicy)
        ensures
            policy@ == self@.policy,
            policy@.valid(),
    {
        proof {
            use_type_invariant(self);
        }
        self.policy
    }

    /// The number of clients that the limiter holds a window for.
    pub fn tracked_clients(&self) -> (n: usize)
        ensures
            self@.windows.dom().finite(),
            n == self@.windows.dom().len(),
    {
        self.store.len()
    }

    /// The window recorded for `key`, if any. Its count never exceeds the
    /// policy's maximum.
    pub fn window(&self, key: &str) -> (entry: Option<WindowState>)
        ensures
            entry == self@.windows.get(key@),
            entry matches Some(state) ==> 1 <= state.count <= self@.policy.max_requests,
    {
        proof {
            use_type_invariant(self);
        }
        let entry = self.store.get(key);
        assert(entry matches Some(state) ==> self@.windows.dom().contains(key@));
        entry
    }

    fn take_store(&mut self) -> (store: WindowStore)
        ensures
            store@ == old(self)@.windows,
            final(self)@.windows == Map::<Seq<char>, WindowState>::empty(),
            final(self)@.policy == old(self)@.policy,
    {
        proof {
            use_type_invariant(&*self);
        }
        let mut store = WindowStore::new();
        core::mem::swap(&mut self.store, &mut store);
        store
    }

    /// Decides the request that `key` makes at `now` and counts it if allowed.
    ///
    /// The check and the update are one step. A denied request changes nothing.
    pub fn admit_key(&mut self, key: &str, now: u64) -> (decision: Decision)
        ensures
            decision == decide(old(self)@.windows.get(key@), now, old(self)@.policy),
            final(self)@.windows == consumed(old(self)@.windows, key@, now, old(self)@.policy),
            final(self)@.policy == old(self)@.policy,
            final(self)@.counts_in_bounds(),
    {
        proof {
            use_type_invariant(&*self);
        }
        let ghost before = self@;
        let policy = self.policy;
        let mut store = self.take_store();
        let decision = store.try_consume(key, now, &policy);
        proof {
            let after = LimiterView { policy: before.policy, windows: store@ };
            assert forall|k: Seq<char>| #[trigger] after.windows.dom().contains(k) implies 1
                <= after.windows[k].count <= after.policy.max_requests by {
                if k != key@ {
                    assert(before.windows.dom().contains(k));
                } else if before.windows.dom().contains(k) {
                    assert(1 <= before.windows[k].count <= before.policy.max_requests);
                }
            }
        }
        self.store = store;
        decision
    }

    /// Decides the request that arrives from `origin` at `now`, before the
    /// request is handled in any other way.
    pub fn admit_request(&mut self, origin: &Origin, now: u64) -> (decision: Decision)
        ensures
            decision == decide(
                old(self)@.windows.get(origin.peer_address@),
                now,
                old(self)@.policy,
            ),
            final(self)@.windows == consumed(
                old(self)@.windows,
                origin.peer_address@,
                now,
                old(self)@.policy,
            ),
            final(self)@.policy == old(self)@.policy,
            final(self)@.counts_in_bounds(),
    {
        let key = client_key(origin);
        self.admit_key(key.as_str(), now)
    }

    /// Decides a request of which the transport may not know the peer.
    ///
    /// A request with a known peer is decided and counted under the peer's
    /// key. A request without one cannot be counted against any client: it is
    /// allowed, and the limiter stays as it is.
    pub fn admit_origin(&mut self, origin: Option<&Origin>, now: u64) -> (decision: Decision)
        ensures
            origin is None ==> decision == Decision::Allow && final(self)@ == old(self)@,
            origin matches Some(o) ==> decision == decide(
                old(self)@.windows.get(o.peer_address@),
                now,
                old(self)@.policy,
            ) && final(self)@.windows == consumed(
                old(self)@.windows,
                o.peer_address@,
                now,
                old(self)@.policy,
            ) && final(self)@.policy == old(self)@.policy,
            final(self)@.counts_in_bounds(),
    {
        match origin {
            Some(origin) => self.admit_request(origin, now),
            None => {
                proof {
                    use_type_invariant(&*self);
                }
                Decision::Allow
            },
        }
    }

    /// Drops the windows that are over at `now` and returns how many were
    /// dropped. Run at a regular interval, this keeps the store no larger than
    /// the number of clients seen during the last window and interval.
    pub fn sweep(&mut self, now: u64) -> (removed: usize)
        ensures
            final(self)@.windows == retained(old(self)@.windows, now, old(self)@.policy),
            final(self)@.policy == old(self)@.policy,
            old(self)@.windows.dom().finite(),
            final(self)@.windows.dom().finite(),
            removed == old(self)@.windows.dom().len() - final(self)@.windows.dom().len(),
    {
        proof {
            use_type_invariant(&*self);
        }
        let ghost before = self@;
        let policy = self.policy;
        let mut store = self.take_store();
        let removed = store.sweep(now, &policy);
        proof {
            let after = LimiterView { policy: before.policy, windows: store@ };
            assert forall|k: Seq<char>| #[trigger] after.windows.dom().contains(k) implies 1
                <= after.windows[k].count <= after.policy.max_requests by {
                assert(before.windows.dom().contains(k));
            }
        }
        self.store = store;
        removed
    }
}

} // verus!
