//! In-flight sends of one WebSocket connection in request-response mode,
//! waiting for their replies: per match key, the send times in the order the
//! sends were made.  A reply takes the oldest send under its key; sends that
//! waited longer than the timeout expire.  The number of waiting sends is
//! capped per connection.
//!
//! Times are nanoseconds on a monotonic clock chosen by the caller.
use vstd::prelude::*;
use dashmap::DashMap;
use std::collections::VecDeque;

verus! {

#[verifier::external_type_specification]
#[verifier::external_body]
#[verifier::reject_recursive_types(K)]
#[verifier::reject_recursive_types(V)]
#[verifier::reject_recursive_types(S)]
pub struct ExDashMap<K, V, S>(DashMap<K, V, S>);

/// Send times per match key, oldest first.
pub type SendTimeMap = DashMap<String, VecDeque<u64>>;

/// Most sends one connection may have waiting for a reply.
pub const MAX_PENDING_PER_CONN: usize = 100000;

/// What a send-time map holds: per key, its send times, oldest first.
pub uninterp spec fn pending_queues(m: SendTimeMap) -> Map<Seq<char>, Seq<u64>>;

/// No queues at all.
pub open spec fn no_queues() -> Map<Seq<char>, Seq<u64>> {
    Map::empty()
}

/// The send times waiting under `k` (none when `k` was never used).
pub open spec fn queue_of(q: Map<Seq<char>, Seq<u64>>, k: Seq<char>) -> Seq<u64> {
    if q.dom().contains(k) {
        q[k]
    } else {
        Seq::empty()
    }
}

/// Calls `DashMap::new`: a map with nothing in it.
#[verifier::external_body]
fn queues_new() -> (r: SendTimeMap)
    ensures
        pending_queues(r) == no_queues(),
{
    DashMap::new()
}

/// Calls `DashMap::entry(..).or_default()` and `VecDeque::push_back` on the
/// entry: `t` goes to the back of the queue of `key`, which is created empty
/// first when missing.
#[verifier::external_body]
fn queue_push_back(m: &mut SendTimeMap, key: String, t: u64)
    ensures
        pending_queues(*final(m)) == pending_queues(*old(m)).insert(
            key@,
            queue_of(pending_queues(*old(m)), key@).push(t),
        ),
{
    m.entry(key).or_default().push_back(t);
}

/// Calls `DashMap::get_mut` and `VecDeque::pop_front` on the entry: the oldest
/// time under `key` is taken out, if there is one; a missing key stays missing.
#[verifier::external_body]
fn queue_pop_front(m: &mut SendTimeMap, key: &str) -> (r: Option<u64>)
    ensures
        ({
            let q = pending_queues(*old(m));
            if q.dom().contains(key@) && q[key@].len() > 0 {
                &&& r == Some(q[key@][0])
                &&& pending_queues(*final(m)) == q.insert(key@, q[key@].drop_first())
            } else {
                &&& r is None
                &&& pending_queues(*final(m)) == q
            }
        }),
{
    let mut entry = m.get_mut(key)?;
    entry.pop_front()
}

/// Calls `DashMap::get` and `VecDeque::front` on the entry: the oldest time
/// under `key`, if there is one.
#[verifier::external_body]
fn queue_front(m: &SendTimeMap, key: &str) -> (r: Option<u64>)
    ensures
        pending_queues(*m).dom().contains(key@) && pending_queues(*m)[key@].len() > 0 ==> r == Some(
            pending_queues(*m)[key@][0],
        ),
        !(pending_queues(*m).dom().contains(key@) && pending_queues(*m)[key@].len() > 0) ==> r is None,
{
    let entry = m.get(key)?;
    entry.front().copied()
}

/// Calls `DashMap::iter` and reads each entry's key: every key once, in an
/// order that the source leaves open.
#[verifier::external_body]
fn queue_keys(m: &SendTimeMap) -> (r: Vec<String>)
    ensures
        r.deep_view().no_duplicates(),
        forall|k: Seq<char>|
            pending_queues(*m).dom().contains(k) <==> #[trigger] r.deep_view().contains(k),
{
    m.iter().map(|e| e.key().clone()).collect()
}

/// The number of send times held over all keys.
pub open spec fn pending_total(q: Map<Seq<char>, Seq<u64>>) -> nat
    decreases q.dom().len(),
    when q.dom().finite()
{
    if q.dom().len() == 0 {
        0
    } else {
        let k = q.dom().choose();
        q[k].len() + pending_total(q.remove(k))
    }
}

/// Whether a send made at `t` has waited longer than `timeout` at `now`
/// (a send time after `now` counts as no wait at all).
pub open spec fn is_expired(t: u64, timeout: u64, now: u64) -> bool {
    now > t && now - t > timeout
}

/// How many of the oldest send times in `s` have expired in a row.
pub open spec fn expired_prefix(s: Seq<u64>, timeout: u64, now: u64) -> nat
    decreases s.len(),
{
    if s.len() > 0 && is_expired(s[0], timeout, now) {
        1 + expired_prefix(s.drop_first(), timeout, now)
    } else {
        0
    }
}

/// The queue `s` once its expired oldest send times are gone.
pub open spec fn drop_expired(s: Seq<u64>, timeout: u64, now: u64) -> Seq<u64> {
    s.skip(expired_prefix(s, timeout, now) as int)
}

/// Every queue of `q` once its expired oldest send times are gone.
pub open spec fn expire_all(q: Map<Seq<char>, Seq<u64>>, timeout: u64, now: u64) -> Map<
    Seq<char>,
    Seq<u64>,
> {
    q.map_values(|s: Seq<u64>| drop_expired(s, timeout, now))
}

/// Taking key `k` out of a finite map takes its queue's length off the total.
pub proof fn lemma_total_remove(q: Map<Seq<char>, Seq<u64>>, k: Seq<char>)
    requires
        q.dom().finite(),
        q.dom().contains(k),
    ensures
        pending_total(q) == q[k].len() + pending_total(q.remove(k)),
    decreases q.dom().len(),
{
    let c = q.dom().choose();
    if c != k {
        let qc = q.remove(c);
        let qk = q.remove(k);
        lemma_total_remove(qc, k);
        lemma_total_remove(qk, c);
        assert(qc.remove(k) =~= qk.remove(c));
    }
}

/// Replacing the queue of `k` changes the total by the difference in length.
pub proof fn lemma_total_insert(q: Map<Seq<char>, Seq<u64>>, k: Seq<char>, s: Seq<u64>)
    requires
        q.dom().finite(),
    ensures
        q.insert(k, s).dom().finite(),
        pending_total(q.insert(k, s)) + queue_of(q, k).len() == pending_total(q) + s.len(),
{
    let q2 = q.insert(k, s);
    lemma_total_remove(q2, k);
    if q.dom().contains(k) {
        lemma_total_remove(q, k);
        assert(q2.remove(k) =~= q.remove(k));
    } else {
        assert(q2.remove(k) =~= q);
    }
}

/// The send times waiting for replies on one connection.
pub struct PendingState {
    map: SendTimeMap,
    count: usize,
}

impl PendingState {
    /// Per key, the send times waiting, oldest first.
    pub closed spec fn queues(&self) -> Map<Seq<char>, Seq<u64>> {
        pending_queues(self.map)
    }

    /// The number of send times waiting, as kept alongside the queues.
    pub closed spec fn count(&self) -> nat {
        self.count as nat
    }

    /// The state is consistent: finitely many keys, the count is the number of
    /// send times held, and it is within the cap.
    pub closed spec fn wf(&self) -> bool {
        &&& self.queues().dom().finite()
        &&& self.count as nat == pending_total(self.queues())
        &&& self.count <= MAX_PENDING_PER_CONN
    }

    /// A state with nothing waiting.
    pub fn new() -> (s: Self)
        ensures
            s.wf(),
            s.queues() == no_queues(),
            s.count() == 0,
    {
        let map = queues_new();
        proof {
            assert(pending_queues(map).dom() =~= Set::<Seq<char>>::empty());
        }
        PendingState { map, count: 0 }
    }

    /// Records a send under `key` at time `now`, unless the cap is reached, in
    /// which case nothing changes and `false` is returned.
    pub fn register(&mut self, key: String, now: u64) -> (accepted: bool)
        requires
            old(self).wf(),
        ensures
            final(self).wf(),
            accepted == (old(self).count() < MAX_PENDING_PER_CONN),
            accepted ==> final(self).queues() == old(self).queues().insert(
                key@,
                queue_of(old(self).queues(), key@).push(now),
            ),
            accepted ==> final(self).count() == old(self).count() + 1,
            !accepted ==> final(self).queues() == old(self).queues(),
            !accepted ==> final(self).count() == old(self).count(),
    {
        if self.count >= MAX_PENDING_PER_CONN {
            return false;
        }
        let ghost q = self.queues();
        let ghost k = key@;
        queue_push_back(&mut self.map, key, now);
        proof {
            lemma_total_insert(q, k, queue_of(q, k).push(now));
        }
        self.count = self.count + 1;
        true
    }

    /// Takes the oldest send waiting under `key`, if any, and returns its time.
    pub fn match_one(&mut self, key: &str) -> (r: Option<u64>)
        requires
            old(self).wf(),
        ensures
            final(self).wf(),
            r == (if queue_of(old(self).queues(), key@).len() > 0 {
                Some(queue_of(old(self).queues(), key@)[0])
            } else {
                None
            }),
            r is Some ==> final(self).queues() == old(self).queues().insert(
                key@,
                queue_of(old(self).queues(), key@).drop_first(),
            ),
            r is Some ==> final(self).count() + 1 == old(self).count(),
            r is None ==> final(self).queues() == old(self).queues(),
            r is None ==> final(self).count() == old(self).count(),
    {
        let ghost q = self.queues();
        let popped = queue_pop_front(&mut self.map, key);
        if popped.is_some() {
            proof {
                lemma_total_insert(q, key@, q[key@].drop_first());
            }
            self.count = self.count - 1;
        }
        popped
    }

    /// Drops, under every key, the oldest sends that have waited longer than
    /// `timeout` at `now`, stopping at the first one that has not; returns how
    /// many were dropped.
    pub fn expire_older_than(&mut self, timeout: u64, now: u64) -> (expired: usize)
        requires
            old(self).wf(),
        ensures
            final(self).wf(),
            final(self).queues() == expire_all(old(self).queues(), timeout, now),
            expired + final(self).count() == old(self).count(),
    {
        let ghost q0 = self.queues();
        let keys = queue_keys(&self.map);
        let ghost kv = keys.deep_view();
        let mut expired: usize = 0;
        let nkeys = keys.len();
        for i in 0..nkeys
            invariant
                nkeys == kv.len(),
                kv == keys.deep_view(),
                kv.no_duplicates(),
                forall|k: Seq<char>| q0.dom().contains(k) <==> #[trigger] kv.contains(k),
                self.wf(),
                self.queues().dom() == q0.dom(),
                forall|k: Seq<char>|
                    #![trigger self.queues()[k]]
                    q0.dom().contains(k) ==> self.queues()[k] == if kv.take(i as int).contains(k) {
                        drop_expired(q0[k], timeout, now)
                    } else {
                        q0[k]
                    },
                expired as nat + self.count() == pending_total(q0),
                pending_total(q0) <= MAX_PENDING_PER_CONN,
        {
            let key = &keys[i];
            let ghost k = kv[i as int];
            proof {
                assert(keys@[i as int]@ == k);
                assert(kv.contains(k));
                assert(!kv.take(i as int).contains(k)) by {
                    if kv.take(i as int).contains(k) {
                        let j = choose|j: int| 0 <= j < i && kv.take(i as int)[j] == k;
                        assert(kv[j] == kv[i as int]);
                    }
                }
            }
            let ghost before = self.queues();
            let ghost start = q0[k];
            let ghost mut dropped: int = 0;
            proof {
                assert(start.skip(0) =~= start);
            }
            loop
                invariant
                    self.wf(),
                    self.queues().dom() == before.dom(),
                    before.dom() == q0.dom(),
                    q0.dom().contains(k),
                    key@ == k,
                    start == q0[k],
                    before[k] == start,
                    0 <= dropped <= start.len(),
                    self.queues()[k] == start.skip(dropped),
                    expired_prefix(start, timeout, now) == dropped + expired_prefix(
                        start.skip(dropped),
                        timeout,
                        now,
                    ),
                    forall|k2: Seq<char>|
                        #![trigger self.queues()[k2]]
                        before.dom().contains(k2) && k2 != k ==> self.queues()[k2] == before[k2],
                    expired as nat + self.count() == pending_total(q0),
                    pending_total(q0) <= MAX_PENDING_PER_CONN,
                ensures
                    expired_prefix(start.skip(dropped), timeout, now) == 0,
                decreases start.len() - dropped,
            {
                let front = queue_front(&self.map, key.as_str());
                match front {
                    Some(t) => {
                        if now > t && now - t > timeout {
                            let ghost cur = self.queues()[k];
                            proof {
                                assert(cur.drop_first() =~= start.skip(dropped + 1));
                                assert(start.skip(dropped).drop_first() =~= start.skip(dropped + 1));
                            }
                            let _ = self.match_one(key.as_str());
                            expired = expired + 1;
                            proof {
                                dropped = dropped + 1;
                            }
                        } else {
                            break;
                        }
                    },
                    None => {
                        break;
                    },
                }
            }
            proof {
                assert(self.queues()[k] == drop_expired(q0[k], timeout, now));
                assert forall|k2: Seq<char>| #![trigger self.queues()[k2]]
                    q0.dom().contains(k2) implies self.queues()[k2] == if kv.take(i + 1).contains(
                        k2,
                    ) {
                        drop_expired(q0[k2], timeout, now)
                    } else {
                        q0[k2]
                    } by {
                    if k2 == k {
                        assert(kv.take(i + 1)[i as int] == k);
                    } else {
                        let t1 = kv.take(i + 1);
                        let t0 = kv.take(i as int);
                        assert(t1.contains(k2) == t0.contains(k2)) by {
                            if t1.contains(k2) {
                                let j = choose|j: int| 0 <= j < t1.len() && t1[j] == k2;
                                assert(j != i);
                                assert(t0[j] == k2);
                            }
                            if t0.contains(k2) {
                                let j = choose|j: int| 0 <= j < t0.len() && t0[j] == k2;
                                assert(t1[j] == k2);
                            }
                        }
                    }
                }
            }
        }
        proof {
            assert(kv.take(nkeys as int) =~= kv);
            assert(self.queues() =~= expire_all(q0, timeout, now));
        }
        expired
    }
}

} // verus!

verus! {

/// Replies under a key are paired with sends oldest first: registering a send
/// at `t` under `k` and then taking the oldest send under `k` gives the send
/// that was already the oldest there, or this one when none was waiting; and
/// what is left is the rest, in order, with the new send last.
pub proof fn law_oldest_send_first(q: Map<Seq<char>, Seq<u64>>, k: Seq<char>, t: u64)
    ensures
        ({
            let before = queue_of(q, k);
            let after = queue_of(q.insert(k, before.push(t)), k);
            &&& after.len() > 0
            &&& after[0] == if before.len() > 0 {
                before[0]
            } else {
                t
            }
            &&& after.drop_first() == if before.len() > 0 {
                before.drop_first().push(t)
            } else {
                Seq::<u64>::empty()
            }
        }),
{
    let before = queue_of(q, k);
    let after = queue_of(q.insert(k, before.push(t)), k);
    assert(after == before.push(t));
    if before.len() > 0 {
        assert(after.drop_first() =~= before.drop_first().push(t));
    } else {
        assert(after.drop_first() =~= Seq::<u64>::empty());
    }
}

/// What `expired_prefix` counts are indeed expired, and the send after them is not.
pub proof fn lemma_expired_prefix(s: Seq<u64>, timeout: u64, now: u64)
    ensures
        expired_prefix(s, timeout, now) <= s.len(),
        forall|i: int|
            0 <= i < expired_prefix(s, timeout, now) ==> is_expired(#[trigger] s[i], timeout, now),
        expired_prefix(s, timeout, now) < s.len() ==> !is_expired(
            s[expired_prefix(s, timeout, now) as int],
            timeout,
            now,
        ),
    decreases s.len(),
{
    if s.len() > 0 && is_expired(s[0], timeout, now) {
        lemma_expired_prefix(s.drop_first(), timeout, now);
        assert forall|i: int| 0 <= i < expired_prefix(s, timeout, now) implies is_expired(
            #[trigger] s[i],
            timeout,
            now,
        ) by {
            if i > 0 {
                assert(s[i] == s.drop_first()[i - 1]);
            }
        }
    }
}

/// After expiring, no queue starts with an expired send, and expiring again
/// at the same time with the same timeout changes nothing.
pub proof fn law_expire_leaves_no_expired_front(q: Map<Seq<char>, Seq<u64>>, timeout: u64, now: u64)
    ensures
        forall|k: Seq<char>|
            #[trigger] expire_all(q, timeout, now).dom().contains(k) ==> {
                let s = expire_all(q, timeout, now)[k];
                s.len() == 0 || !is_expired(s[0], timeout, now)
            },
        expire_all(expire_all(q, timeout, now), timeout, now) == expire_all(q, timeout, now),
{
    let e = expire_all(q, timeout, now);
    assert forall|k: Seq<char>| #[trigger] e.dom().contains(k) implies {
        let s = e[k];
        s.len() == 0 || !is_expired(s[0], timeout, now)
    } by {
        let s0 = q[k];
        lemma_expired_prefix(s0, timeout, now);
        let p = expired_prefix(s0, timeout, now);
        if p < s0.len() {
            assert(e[k][0] == s0[p as int]);
        }
    }
    assert forall|k: Seq<char>| #[trigger] e.dom().contains(k) implies drop_expired(
        e[k],
        timeout,
        now,
    ) == e[k] by {
        let s = e[k];
        assert(expired_prefix(s, timeout, now) == 0);
        assert(s.skip(0) =~= s);
    }
    assert(expire_all(e, timeout, now) =~= e);
}

} // verus!

verus! {

/// The queues after registering the sends made at the times of `s`, in
/// order, all under key `k`.
pub open spec fn register_all(q: Map<Seq<char>, Seq<u64>>, k: Seq<char>, s: Seq<u64>) -> Map<Seq<char>, Seq<u64>>
    decreases s.len(),
{
    if s.len() == 0 {
        q
    } else {
        let before = register_all(q, k, s.drop_last());
        before.insert(k, queue_of(before, k).push(s.last()))
    }
}

/// Sends registered under one key wait in the order they were made, behind
/// those already waiting there, and no other key's queue changes: with the
/// one shared key of sequential pairing, the n-th reply takes the n-th send
/// still waiting.
pub proof fn law_sends_wait_in_order(q: Map<Seq<char>, Seq<u64>>, k: Seq<char>, s: Seq<u64>)
    ensures
        queue_of(register_all(q, k, s), k) == queue_of(q, k) + s,
        forall|j: Seq<char>| j != k ==> #[trigger] queue_of(register_all(q, k, s), j) == queue_of(q, j),
    decreases s.len(),
{
    if s.len() > 0 {
        law_sends_wait_in_order(q, k, s.drop_last());
        assert(queue_of(q, k) + s =~= (queue_of(q, k) + s.drop_last()).push(s.last()));
        let before = register_all(q, k, s.drop_last());
        assert forall|j: Seq<char>| j != k implies #[trigger] queue_of(register_all(q, k, s), j)
            == queue_of(q, j) by {
            assert(queue_of(register_all(q, k, s), j) == queue_of(before, j));
        }
    } else {
        assert(queue_of(q, k) + s =~= queue_of(q, k));
    }
}

} // verus!
