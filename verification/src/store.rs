//! The window store: one quota window per client key, with an indivisible
//! check-and-increment and a sweep that drops windows that are over.
//!
//! Every mutating operation takes the store by exclusive reference, so no
//! other operation can run between the check and the update. Callers that
//! share a store between execution contexts put it behind one lock and hold
//! the lock for the duration of a single call.
//!
//! The store sets no limit on the number of keys. It holds one entry per key
//! seen since the last sweep, and a lookup walks the entries, so a service
//! sweeps at an interval that keeps that number small.

use crate::quota::{advance, decide, window_elapsed, Decision, PolicyView, QuotaPolicy, WindowState};
use vstd::prelude::*;
use vstd::string::StringExecFns;

verus! {

/// The mathematical content of a store: the recorded window of each known key.
pub type StoreModel = Map<Seq<char>, WindowState>;

/// The store after one request for `key` at `now` has been decided.
pub open spec fn consumed(m: StoreModel, key: Seq<char>, now: u64, policy: PolicyView) -> StoreModel {
    m.insert(key, advance(m.get(key), now, policy))
}

/// The windows of `m` that are still running at `now`.
pub open spec fn retained(m: StoreModel, now: u64, policy: PolicyView) -> StoreModel {
    Map::new(
        |k: Seq<char>| m.dom().contains(k) && !window_elapsed(m[k], now, policy),
        |k: Seq<char>| m[k],
    )
}

struct Entry {
    key: String,
    state: WindowState,
}

/// Maps client keys to their current quota window.
///
/// Entries are created on a key's first request and leave the store in
/// [`WindowStore::sweep`]. The store keeps at most one entry per key.
pub struct WindowStore {
    entries: Vec<Entry>,
}

spec fn keys_distinct(s: Seq<Entry>) -> bool {
    forall|i: int, j: int| 0 <= i < j < s.len() ==> s[i].key@ != s[j].key@
}

spec fn holds_at(s: Seq<Entry>, k: Seq<char>, i: int) -> bool {
    0 <= i < s.len() && s[i].key@ == k
}

spec fn has_key(s: Seq<Entry>, k: Seq<char>) -> bool {
    exists|i: int| holds_at(s, k, i)
}

spec fn index_of(s: Seq<Entry>, k: Seq<char>) -> int {
    choose|i: int| holds_at(s, k, i)
}

spec fn model_of(s: Seq<Entry>) -> StoreModel {
    Map::new(|k: Seq<char>| has_key(s, k), |k: Seq<char>| s[index_of(s, k)].state)
}

proof fn lemma_model_at(s: Seq<Entry>, i: int)
    requires
        keys_distinct(s),
        0 <= i < s.len(),
    ensures
        model_of(s).dom().contains(s[i].key@),
        model_of(s)[s[i].key@] == s[i].state,
{
    assert(holds_at(s, s[i].key@, i));
}

proof fn lemma_model_absent(s: Seq<Entry>, k: Seq<char>)
    requires
        forall|i: int| 0 <= i < s.len() ==> s[i].key@ != k,
    ensures
        !model_of(s).dom().contains(k),
{
    if has_key(s, k) {
        let i = index_of(s, k);
        assert(holds_at(s, k, i));
    }
}

proof fn lemma_model_push(s: Seq<Entry>, e: Entry)
    requires
        keys_distinct(s),
        !model_of(s).dom().contains(e.key@),
    ensures
        keys_distinct(s.push(e)),
        model_of(s.push(e)) == model_of(s).insert(e.key@, e.state),
{
    let t = s.push(e);
    assert forall|i: int, j: int| 0 <= i < j < t.len() implies t[i].key@ != t[j].key@ by {
        if j == s.len() {
            assert(holds_at(s, s[i].key@, i));
        }
    }
    let want = model_of(s).insert(e.key@, e.state);
    assert forall|k: Seq<char>| model_of(t).dom().contains(k) <==> want.dom().contains(k) by {
        if has_key(t, k) {
            let i = index_of(t, k);
            assert(holds_at(t, k, i));
            if i < s.len() {
                assert(holds_at(s, k, i));
            }
        }
        if has_key(s, k) {
            let i = index_of(s, k);
            assert(holds_at(s, k, i));
            assert(holds_at(t, k, i));
        }
        if k == e.key@ {
            assert(holds_at(t, k, s.len() as int));
        }
    }
    assert forall|k: Seq<char>| model_of(t).dom().contains(k) implies model_of(t)[k] == want[k] by {
        let i = index_of(t, k);
        assert(holds_at(t, k, i));
        if i < s.len() {
            assert(holds_at(s, k, i));
            lemma_model_at(s, i);
        }
    }
    assert(model_of(t) =~= want);
}

proof fn lemma_model_update(s: Seq<Entry>, i: int, e: Entry)
    requires
        keys_distinct(s),
        0 <= i < s.len(),
        e.key@ == s[i].key@,
    ensures
        keys_distinct(s.update(i, e)),
        model_of(s.update(i, e)) == model_of(s).insert(e.key@, e.state),
{
    let t = s.update(i, e);
    assert forall|a: int, b: int| 0 <= a < b < t.len() implies t[a].key@ != t[b].key@ by {
        assert(s[a].key@ != s[b].key@);
    }
    let want = model_of(s).insert(e.key@, e.state);
    assert forall|k: Seq<char>| model_of(t).dom().contains(k) <==> want.dom().contains(k) by {
        if has_key(t, k) {
            let j = index_of(t, k);
            assert(holds_at(t, k, j));
            assert(holds_at(s, k, j));
        }
        if has_key(s, k) {
            let j = index_of(s, k);
            assert(holds_at(s, k, j));
            assert(holds_at(t, k, j));
        }
        if k == e.key@ {
            assert(holds_at(t, k, i));
        }
    }
    assert forall|k: Seq<char>| model_of(t).dom().contains(k) implies model_of(t)[k] == want[k] by {
        let j = index_of(t, k);
        assert(holds_at(t, k, j));
        lemma_model_at(t, j);
        if j != i {
            lemma_model_at(s, j);
        }
    }
    assert(model_of(t) =~= want);
}

proof fn lemma_model_size(s: Seq<Entry>)
    requires
        keys_distinct(s),
    ensures
        model_of(s).dom().finite(),
        model_of(s).dom().len() == s.len(),
    decreases s.len(),
{
    if s.len() == 0 {
        assert forall|k: Seq<char>| !model_of(s).dom().contains(k) by {
            lemma_model_absent(s, k);
        }
        assert(model_of(s).dom() =~= Set::<Seq<char>>::empty());
    } else {
        let p = s.drop_last();
        let e = s.last();
        assert forall|i: int, j: int| 0 <= i < j < p.len() implies p[i].key@ != p[j].key@ by {
            assert(s[i].key@ != s[j].key@);
        }
        lemma_model_size(p);
        assert forall|i: int| 0 <= i < p.len() implies p[i].key@ != e.key@ by {
            assert(s[i].key@ != s[s.len() - 1].key@);
        }
        lemma_model_absent(p, e.key@);
        lemma_model_push(p, e);
        assert(p.push(e) =~= s);
        assert(model_of(s).dom() =~= model_of(p).dom().insert(e.key@));
    }
}

spec fn live(e: Entry, now: u64, policy: PolicyView) -> bool {
    !window_elapsed(e.state, now, policy)
}

spec fn occurs(s: Seq<Entry>, e: Entry) -> bool {
    exists|j: int| 0 <= j < s.len() && s[j] == e
}

spec fn live_from(s: Seq<Entry>, from: int, e: Entry, now: u64, policy: PolicyView) -> bool {
    exists|i: int| from <= i < s.len() && s[i] == e && live(e, now, policy)
}

proof fn lemma_model_retained(all: Seq<Entry>, kept: Seq<Entry>, now: u64, policy: PolicyView)
    requires
        keys_distinct(all),
        keys_distinct(kept),
        forall|j: int| 0 <= j < kept.len() ==> live_from(all, 0, #[trigger] kept[j], now, policy),
        forall|i: int| 0 <= i < all.len() && live(#[trigger] all[i], now, policy) ==> occurs(kept, all[i]),
    ensures
        model_of(kept) == retained(model_of(all), now, policy),
{
    let want = retained(model_of(all), now, policy);
    assert forall|k: Seq<char>| model_of(kept).dom().contains(k) <==> want.dom().contains(k) by {
        if has_key(kept, k) {
            let j = index_of(kept, k);
            assert(holds_at(kept, k, j));
            assert(live_from(all, 0, kept[j], now, policy));
            let i = choose|i: int| 0 <= i < all.len() && all[i] == kept[j] && live(kept[j], now, policy);
            lemma_model_at(all, i);
        }
        if want.dom().contains(k) {
            let i = index_of(all, k);
            assert(holds_at(all, k, i));
            lemma_model_at(all, i);
            assert(occurs(kept, all[i]));
            let j = choose|j: int| 0 <= j < kept.len() && kept[j] == all[i];
            assert(holds_at(kept, k, j));
        }
    }
    assert forall|k: Seq<char>| model_of(kept).dom().contains(k) implies model_of(kept)[k] == want[k] by {
        let j = index_of(kept, k);
        assert(holds_at(kept, k, j));
        lemma_model_at(kept, j);
        assert(live_from(all, 0, kept[j], now, policy));
        let i = choose|i: int| 0 <= i < all.len() && all[i] == kept[j] && live(kept[j], now, policy);
        lemma_model_at(all, i);
    }
    assert(model_of(kept) =~= want);
}

impl View for WindowStore {
    type V = StoreModel;

    closed spec fn view(&self) -> StoreModel {
        model_of(self.entries@)
    }
}

impl WindowStore {
    #[verifier::type_invariant]
    spec fn one_entry_per_key(self) -> bool {
        keys_distinct(self.entries@)
    }

    /// A store that knows no client.
    pub fn new() -> (store: WindowStore)
        ensures
            store@ == Map::<Seq<char>, WindowState>::empty(),
    {
        let store = WindowStore { entries: Vec::new() };
        proof {
            assert forall|k: Seq<char>| !model_of(store.entries@).dom().contains(k) by {
                lemma_model_absent(store.entries@, k);
            }
            assert(store@ =~= Map::<Seq<char>, WindowState>::empty());
        }
        store
    }

    /// The number of clients that have an entry.
    pub fn len(&self) -> (n: usize)
        ensures
            self@.dom().finite(),
            n == self@.dom().len(),
    {
        proof {
            use_type_invariant(self);
            lemma_model_size(self.entries@);
        }
        self.entries.len()
    }

    /// Whether no client has an entry.
    pub fn is_empty(&self) -> (empty: bool)
        ensures
            empty <==> self@ == Map::<Seq<char>, WindowState>::empty(),
    {
        proof {
            use_type_invariant(self);
            lemma_model_size(self.entries@);
            if self.entries@.len() == 0 {
                assert(self@.dom() =~= Set::<Seq<char>>::empty());
                assert(self@ =~= Map::<Seq<char>, WindowState>::empty());
            }
        }
        self.entries.len() == 0
    }

    /// Moves the entries out and leaves the store empty, so that they can be
    /// edited as a plain vector and assigned back in one step.
    fn take_entries(&mut self) -> (entries: Vec<Entry>)
        ensures
            entries@ == old(self).entries@,
            final(self).entries@ == Seq::<Entry>::empty(),
    {
        let mut entries: Vec<Entry> = Vec::new();
        core::mem::swap(&mut self.entries, &mut entries);
        entries
    }

    fn position(&self, key: &String) -> (found: Option<usize>)
        ensures
            match found {
                Some(i) => i < self.entries@.len() && self.entries@[i as int].key@ == key@,
                None => forall|i: int| 0 <= i < self.entries@.len() ==> self.entries@[i].key@ != key@,
            },
    {
        let mut i: usize = 0;
        while i < self.entries.len()
            invariant
                i <= self.entries@.len(),
                forall|j: int| 0 <= j < i ==> self.entries@[j].key@ != key@,
            decreases self.entries@.len() - i,
        {
            if self.entries[i].key == *key {
                return Some(i);
            }
            i += 1;
        }
        None
    }

    /// The window recorded for `key`, if the store knows the key.
    pub fn get(&self, key: &str) -> (entry: Option<WindowState>)
        ensures
            entry == self@.get(key@),
    {
        let owned = String::from_str(key);
        proof {
            use_type_invariant(self);
        }
        match self.position(&owned) {
            Some(i) => {
                proof {
                    lemma_model_at(self.entries@, i as int);
                }
                Some(self.entries[i].state)
            },
            None => {
                proof {
                    lemma_model_absent(self.entries@, key@);
                }
                None
            },
        }
    }

    /// Decides one request from `key` at `now` and records it in the same step.
    ///
    /// An unknown key, or one whose window is over, starts a window at `now`
    /// with a count of one. Within a running window the request is counted
    /// while the count is below the policy's maximum, and denied without any
    /// change once the maximum is reached. No other key's entry is touched.
    pub fn try_consume(&mut self, key: &str, now: u64, policy: &QuotaPolicy) -> (decision: Decision)
        ensures
            decision == decide(old(self)@.get(key@), now, policy@),
            final(self)@ == consumed(old(self)@, key@, now, policy@),
    {
        let owned = String::from_str(key);
        proof {
            use_type_invariant(&*self);
        }
        match self.position(&owned) {
            Some(i) => {
                proof {
                    lemma_model_at(self.entries@, i as int);
                }
                let (decision, state) = policy.step(Some(self.entries[i].state), now);
                match decision {
                    Decision::Deny => {
                        assert(self@ =~= consumed(self@, key@, now, policy@));
                    },
                    Decision::Allow => {
                        let entry = Entry { key: owned, state };
                        let mut entries = self.take_entries();
                        proof {
                            lemma_model_update(entries@, i as int, entry);
                        }
                        entries.set(i, entry);
                        self.entries = entries;
                    },
                }
                decision
            },
            None => {
                proof {
                    lemma_model_absent(self.entries@, key@);
                }
                let (decision, state) = policy.step(None, now);
                let entry = Entry { key: owned, state };
                let mut entries = self.take_entries();
                proof {
                    lemma_model_push(entries@, entry);
                }
                entries.push(entry);
                self.entries = entries;
                decision
            },
        }
    }

    /// Drops every entry whose window is over at `now` and returns how many
    /// were dropped. Entries whose window is still running are left as they are.
    ///
    /// A dropped key is treated like an unknown one by the next
    /// [`WindowStore::try_consume`], which is also what that call does with an
    /// entry whose window is over; sweeping therefore frees memory without
    /// changing any later decision made at or after `now`.
    pub fn sweep(&mut self, now: u64, policy: &QuotaPolicy) -> (removed: usize)
        ensures
            final(self)@ == retained(old(self)@, now, policy@),
            old(self)@.dom().finite(),
            final(self)@.dom().finite(),
            removed == old(self)@.dom().len() - final(self)@.dom().len(),
    {
        proof {
            use_type_invariant(&*self);
        }
        let mut rest = self.take_entries();
        let ghost all = rest@;
        let total: usize = rest.len();
        let mut kept: Vec<Entry> = Vec::new();
        let mut removed: usize = 0;
        while rest.len() > 0
            invariant
                keys_distinct(all),
                keys_distinct(kept@),
                rest@.len() <= all.len() == total,
                rest@ == all.subrange(0, rest@.len() as int),
                removed + kept@.len() + rest@.len() == all.len(),
                forall|j: int|
                    0 <= j < kept@.len() ==> live_from(
                        all,
                        rest@.len() as int,
                        #[trigger] kept@[j],
                        now,
                        policy@,
                    ),
                forall|i: int|
                    rest@.len() <= i < all.len() && live(#[trigger] all[i], now, policy@)
                        ==> occurs(kept@, all[i]),
            decreases rest@.len(),
        {
            let ghost n = rest@.len() as int;
            let ghost before = kept@;
            let popped = rest.pop();
            let entry = popped.unwrap();
            assert(entry == all[n - 1]);
            if policy.elapsed(entry.state, now) {
                removed += 1;
                proof {
                    assert forall|j: int| 0 <= j < kept@.len() implies live_from(
                        all,
                        n - 1,
                        #[trigger] kept@[j],
                        now,
                        policy@,
                    ) by {
                        assert(live_from(all, n, kept@[j], now, policy@));
                    }
                }
            } else {
                proof {
                    assert forall|j: int| 0 <= j < before.len() implies before[j].key@
                        != entry.key@ by {
                        assert(live_from(all, n, before[j], now, policy@));
                    }
                    lemma_model_absent(before, entry.key@);
                    lemma_model_push(before, entry);
                }
                kept.push(entry);
                proof {
                    assert forall|j: int| 0 <= j < kept@.len() implies live_from(
                        all,
                        n - 1,
                        #[trigger] kept@[j],
                        now,
                        policy@,
                    ) by {
                        if j < before.len() {
                            assert(kept@[j] == before[j]);
                            assert(live_from(all, n, before[j], now, policy@));
                        } else {
                            assert(all[n - 1] == kept@[j]);
                        }
                    }
                    assert forall|i: int|
                        n - 1 <= i < all.len() && live(#[trigger] all[i], now, policy@) implies occurs(
                        kept@,
                        all[i],
                    ) by {
                        if i == n - 1 {
                            assert(kept@[before.len() as int] == all[i]);
                        } else {
                            assert(occurs(before, all[i]));
                            let j = choose|j: int| 0 <= j < before.len() && before[j] == all[i];
                            assert(kept@[j] == all[i]);
                        }
                    }
                }
            }
        }
        proof {
            lemma_model_retained(all, kept@, now, policy@);
            lemma_model_size(all);
            lemma_model_size(kept@);
        }
        self.entries = kept;
        removed
    }
}

} // verus!
