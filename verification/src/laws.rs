//! The session layer's guarantees, proved once and for all over the registry
//! model: reconnects find their old session, capacity binds only fresh
//! identities, and the reaper evicts exactly the stale, unlocked sessions.

use vstd::prelude::*;
use crate::registry::{
    ClientSlot, device_of, fresh_slot, goc_accepts, goc_device, goc_next, has_identity, keeps,
    kept_clients, lemma_device_of_unique, lemma_kept_clients, lemma_kept_unique,
    lemma_push_fresh_unique, spec_stale, unique_ids,
};

verus! {

/// Law: connecting with a fresh identity, losing the connection, and
/// reconnecting before the heartbeat timeout elapses reattaches the very
/// session created at first connect, with the same device — never a second
/// one. Closing a connection leaves the registry alone, so the whole story
/// is a create (`goc_next` at `now1`), one reaper pass (`kept_clients` at
/// `now2`, still within the timeout), and a reconnect.
pub proof fn lemma_reconnect_identity(
    s0: Seq<ClientSlot>,
    max: nat,
    id: u128,
    now1: u64,
    d1: u64,
    now2: u64,
    timeout: u64,
    d2: u64,
)
    requires
        unique_ids(s0),
        !has_identity(s0, id),
        s0.len() < max,
        now2 < now1 + timeout,
    ensures
        ({
            let s1 = goc_next(s0, max, id, now1, d1);
            let s2 = kept_clients(s1, now2, timeout);
            &&& has_identity(s2, id)
            &&& goc_accepts(s2, max, id)
            &&& goc_device(s2, id, d2) == d1
            &&& goc_next(s2, max, id, now2, d2) == s2
        }),
{
    let s1 = goc_next(s0, max, id, now1, d1);
    let fresh = fresh_slot(id, now1, d1);
    assert(s1 == s0.push(fresh));
    lemma_push_fresh_unique(s0, id, now1, d1);
    let s2 = kept_clients(s1, now2, timeout);
    lemma_kept_clients(s1, now2, timeout);
    lemma_kept_unique(s1, now2, timeout);
    assert(s1[s0.len() as int] == fresh);
    assert(s1.contains(fresh));
    assert(keeps(fresh, now2, timeout));
    assert(s2.contains(fresh));
    let j = choose|j: int| 0 <= j < s2.len() && s2[j] == fresh;
    assert(s2[j].pad.id == id);
    assert(has_identity(s2, id));
    lemma_device_of_unique(s2, id, j);
}

/// Law: with the registry at capacity, a brand-new identity is rejected and
/// the registry is left unchanged, while every identity already tracked is
/// still accepted.
pub proof fn lemma_capacity_enforcement(
    s: Seq<ClientSlot>,
    max: nat,
    id_new: u128,
    now: u64,
    d: u64,
)
    requires
        s.len() >= max,
        !has_identity(s, id_new),
    ensures
        !goc_accepts(s, max, id_new),
        goc_next(s, max, id_new, now, d) == s,
        forall|id: u128| has_identity(s, id) ==> goc_accepts(s, max, id),
{
}

/// Law: reconnecting an already-tracked identity succeeds even at full
/// capacity, reuses the tracked session's device, and inserts nothing.
pub proof fn lemma_reconnect_bypasses_capacity(
    s: Seq<ClientSlot>,
    max: nat,
    id: u128,
    now: u64,
    d: u64,
    i: int,
)
    requires
        unique_ids(s),
        s.len() >= max,
        0 <= i < s.len(),
        s[i].pad.id == id,
    ensures
        goc_accepts(s, max, id),
        goc_next(s, max, id, now, d) == s,
        goc_device(s, id, d) == s[i].pad.device,
{
    assert(has_identity(s, id));
    lemma_device_of_unique(s, id, i);
}

/// Law: a reaper pass removes a session whose lock is free and whose last
/// heartbeat is stale at the pass, and retains — device untouched — any
/// session whose heartbeat is within the timeout.
pub proof fn lemma_expiry(s: Seq<ClientSlot>, now: u64, timeout: u64, i: int)
    requires
        unique_ids(s),
        0 <= i < s.len(),
    ensures
        !s[i].locked && spec_stale(s[i].pad.last_heartbeat, now, timeout) ==> !has_identity(
            kept_clients(s, now, timeout),
            s[i].pad.id,
        ),
        !spec_stale(s[i].pad.last_heartbeat, now, timeout) ==> has_identity(
            kept_clients(s, now, timeout),
            s[i].pad.id,
        ) && device_of(kept_clients(s, now, timeout), s[i].pad.id) == s[i].pad.device,
{
    let k = kept_clients(s, now, timeout);
    lemma_kept_clients(s, now, timeout);
    if !s[i].locked && spec_stale(s[i].pad.last_heartbeat, now, timeout) {
        if has_identity(k, s[i].pad.id) {
            let j = choose|j: int| 0 <= j < k.len() && k[j].pad.id == s[i].pad.id;
            assert(k.contains(k[j]));
            let l = choose|l: int| 0 <= l < s.len() && s[l] == k[j];
            if l < i {
                assert(s[l].pad.id != s[i].pad.id);
            }
            if i < l {
                assert(s[i].pad.id != s[l].pad.id);
            }
            assert(l == i);
            assert(keeps(s[i], now, timeout));
            assert(false);
        }
    }
    if !spec_stale(s[i].pad.last_heartbeat, now, timeout) {
        lemma_kept_unique(s, now, timeout);
        assert(s.contains(s[i]));
        assert(keeps(s[i], now, timeout));
        assert(k.contains(s[i]));
        let j = choose|j: int| 0 <= j < k.len() && k[j] == s[i];
        assert(k[j].pad.id == s[i].pad.id);
        assert(has_identity(k, s[i].pad.id));
        lemma_device_of_unique(k, s[i].pad.id, j);
    }
}

/// Law: a reaper pass never removes a locked session — one currently
/// processing a message — however stale its heartbeat.
pub proof fn lemma_reaper_lock_safety(s: Seq<ClientSlot>, now: u64, timeout: u64, i: int)
    requires
        0 <= i < s.len(),
        s[i].locked,
    ensures
        has_identity(kept_clients(s, now, timeout), s[i].pad.id),
{
    let k = kept_clients(s, now, timeout);
    lemma_kept_clients(s, now, timeout);
    assert(s.contains(s[i]));
    assert(keeps(s[i], now, timeout));
    assert(k.contains(s[i]));
    let j = choose|j: int| 0 <= j < k.len() && k[j] == s[i];
    assert(k[j].pad.id == s[i].pad.id);
    assert(has_identity(k, s[i].pad.id));
}

} // verus!
