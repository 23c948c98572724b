//! The session registry: a mapping from client identity to one live session,
//! with admission control at creation time, a per-session exclusive lock, and
//! the reaper's sweep that evicts stale, unlocked sessions.
//!
//! The registry is kept as a sequence of slots with pairwise-distinct
//! identities. Its operations are the decisions of the system: get-or-create
//! with a capacity bound, the per-message step of an active connection, and
//! the periodic sweep.

use vstd::prelude::*;
use crate::controller::VirtualGamepad;
use crate::identity::{WsConnectionRequest, uuid_of, parse_identity};
use crate::protocol::{
    ClientMessage, DeviceEvent, MessageEffect, ServerReply, emissions_of, message_effect,
    replies_of, spec_effect, touches,
};

verus! {

/// Most distinct identities tracked at once, unless a registry is built with
/// another bound.
pub const MAX_SESSIONS: usize = 15;

/// How long a session may go without a heartbeat before a sweep evicts it,
/// in milliseconds.
pub const HEARTBEAT_TIMEOUT_MS: u64 = 300000;

/// How often the reaper sweeps, in milliseconds.
pub const CHECK_INTERVAL_MS: u64 = 60000;

/// One registry entry: a gamepad and its exclusive lock. The lock is held by
/// the connection handler while a message is processed; the sweep never
/// evicts a locked entry.
#[derive(Clone, Copy, Debug, PartialEq, Eq, Structural)]
pub struct ClientSlot {
    pub locked: bool,
    pub pad: VirtualGamepad,
}

/// The error of a create that found the registry at capacity.
#[derive(Clone, Copy, Debug, PartialEq, Eq, Structural)]
pub struct CapacityExceeded;

/// What admission control decides for one connection attempt.
#[derive(Clone, Copy, Debug, PartialEq, Eq, Structural)]
pub enum Admission {
    /// The identity is already tracked: reuse its session.
    Reuse,
    /// The identity is new and there is room: create a session.
    Create,
    /// The identity is new and the registry is full: reject.
    Reject,
}

/// How a connection attempt ends.
#[derive(Clone, Copy, Debug, PartialEq, Eq, Structural)]
pub enum ConnectOutcome {
    /// The connection is bound to the session at this index.
    Attached(usize),
    /// The supplied identity did not parse; nothing was touched.
    InvalidIdentity,
    /// A new session was needed but the registry is full; nothing was touched.
    CapacityExceeded,
    /// A new session was needed but no device could be attached; nothing was
    /// touched.
    DeviceUnavailable,
}

/// Whether some slot carries this identity.
pub open spec fn has_identity(s: Seq<ClientSlot>, id: u128) -> bool {
    exists|i: int| 0 <= i < s.len() && s[i].pad.id == id
}

/// Whether no two slots carry the same identity.
pub open spec fn unique_ids(s: Seq<ClientSlot>) -> bool {
    forall|i: int, j: int| 0 <= i < j < s.len() ==> s[i].pad.id != s[j].pad.id
}

/// The device marker of the first slot carrying this identity.
pub open spec fn device_of(s: Seq<ClientSlot>, id: u128) -> u64
    decreases s.len(),
{
    if s.len() == 0 {
        0
    } else if s[0].pad.id == id {
        s[0].pad.device
    } else {
        device_of(s.drop_first(), id)
    }
}

/// The index of the first slot carrying this identity.
pub open spec fn index_of_identity(s: Seq<ClientSlot>, id: u128) -> int
    decreases s.len(),
{
    if s.len() == 0 {
        0
    } else if s[0].pad.id == id {
        0
    } else {
        1 + index_of_identity(s.drop_first(), id)
    }
}

/// With pairwise-distinct identities, the index found for an identity is the
/// index of whichever slot carries it.
pub proof fn lemma_index_of_unique(s: Seq<ClientSlot>, id: u128, i: int)
    requires
        unique_ids(s),
        0 <= i < s.len(),
        s[i].pad.id == id,
    ensures
        index_of_identity(s, id) == i,
    decreases s.len(),
{
    if s[0].pad.id == id {
        if i != 0 {
            assert(s[0].pad.id != s[i].pad.id);
        }
    } else {
        let t = s.drop_first();
        assert forall|a: int, b: int| 0 <= a < b < t.len() implies t[a].pad.id != t[b].pad.id by {
            assert(t[a] == s[a + 1]);
            assert(t[b] == s[b + 1]);
        }
        assert(t[i - 1] == s[i]);
        lemma_index_of_unique(t, id, i - 1);
    }
}

/// The slot a fresh session starts from: unlocked, heartbeat at the creation
/// time, device attached once.
pub open spec fn fresh_slot(id: u128, now: u64, device: u64) -> ClientSlot {
    ClientSlot {
        locked: false,
        pad: VirtualGamepad { id, last_heartbeat: now, device },
    }
}

/// The admission decision: reuse a tracked identity; otherwise create only
/// under the capacity bound.
pub open spec fn spec_admission(existing: nat, known: bool, max: nat) -> Admission {
    if known {
        Admission::Reuse
    } else if existing >= max {
        Admission::Reject
    } else {
        Admission::Create
    }
}

/// Whether get-or-create succeeds: a tracked identity always does; a new one
/// only under the capacity bound.
pub open spec fn goc_accepts(s: Seq<ClientSlot>, max: nat, id: u128) -> bool {
    has_identity(s, id) || s.len() < max
}

/// The registry after get-or-create: unchanged for a tracked identity or a
/// full registry; otherwise one fresh slot is appended.
pub open spec fn goc_next(s: Seq<ClientSlot>, max: nat, id: u128, now: u64, device: u64) -> Seq<
    ClientSlot,
> {
    if has_identity(s, id) {
        s
    } else if s.len() < max {
        s.push(fresh_slot(id, now, device))
    } else {
        s
    }
}

/// The device a successful get-or-create hands back: the tracked session's
/// own device, or the freshly attached one.
pub open spec fn goc_device(s: Seq<ClientSlot>, id: u128, device: u64) -> u64 {
    if has_identity(s, id) {
        device_of(s, id)
    } else {
        device
    }
}

/// Whether a heartbeat from `last` is stale at `now` under this timeout.
pub open spec fn spec_stale(last: u64, now: u64, timeout: u64) -> bool {
    last + timeout <= now
}

/// Whether a sweep at `now` keeps this slot: locked slots are assumed active
/// and kept; unlocked slots are kept while their heartbeat is fresh.
pub open spec fn keeps(c: ClientSlot, now: u64, timeout: u64) -> bool {
    c.locked || !spec_stale(c.pad.last_heartbeat, now, timeout)
}

/// The registry after one sweep: the kept slots, in their old order.
pub open spec fn kept_clients(s: Seq<ClientSlot>, now: u64, timeout: u64) -> Seq<ClientSlot>
    decreases s.len(),
{
    if s.len() == 0 {
        Seq::empty()
    } else {
        kept_clients(s.drop_last(), now, timeout) + (if keeps(s.last(), now, timeout) {
            seq![s.last()]
        } else {
            Seq::empty()
        })
    }
}

/// A slot after one message: a ping moves the heartbeat to `now`; anything
/// else leaves the slot as it was.
pub open spec fn touched_slot(c: ClientSlot, m: ClientMessage, now: u64) -> ClientSlot {
    if spec_effect(m).touch {
        ClientSlot {
            locked: c.locked,
            pad: VirtualGamepad { id: c.pad.id, last_heartbeat: now, device: c.pad.device },
        }
    } else {
        c
    }
}

/// A slot after a batch of messages: the heartbeat moves to `now` when any of
/// them was a ping.
pub open spec fn batch_slot(c: ClientSlot, ms: Seq<ClientMessage>, now: u64) -> ClientSlot {
    if touches(ms) {
        ClientSlot {
            locked: c.locked,
            pad: VirtualGamepad { id: c.pad.id, last_heartbeat: now, device: c.pad.device },
        }
    } else {
        c
    }
}

/// Identities stay pairwise distinct when slots change without renaming.
pub proof fn lemma_same_ids_unique(s: Seq<ClientSlot>, t: Seq<ClientSlot>)
    requires
        unique_ids(s),
        s.len() == t.len(),
        forall|k: int| 0 <= k < t.len() ==> t[k].pad.id == s[k].pad.id,
    ensures
        unique_ids(t),
{
    assert forall|a: int, b: int| 0 <= a < b < t.len() implies t[a].pad.id != t[b].pad.id by {
        assert(t[a].pad.id == s[a].pad.id);
        assert(t[b].pad.id == s[b].pad.id);
    }
}

/// Appending a fresh slot with an untracked identity keeps identities
/// pairwise distinct.
pub proof fn lemma_push_fresh_unique(s: Seq<ClientSlot>, id: u128, now: u64, device: u64)
    requires
        unique_ids(s),
        !has_identity(s, id),
    ensures
        unique_ids(s.push(fresh_slot(id, now, device))),
{
    let t = s.push(fresh_slot(id, now, device));
    assert forall|a: int, b: int| 0 <= a < b < t.len() implies t[a].pad.id != t[b].pad.id by {
        if b < s.len() {
            assert(t[a] == s[a]);
            assert(t[b] == s[b]);
        } else {
            assert(t[a] == s[a]);
            assert(t[b] == fresh_slot(id, now, device));
            if s[a].pad.id == id {
                assert(has_identity(s, id));
            }
        }
    }
}

/// With pairwise-distinct identities, the device found for an identity is the
/// device of whichever slot carries it.
pub proof fn lemma_device_of_unique(s: Seq<ClientSlot>, id: u128, i: int)
    requires
        unique_ids(s),
        0 <= i < s.len(),
        s[i].pad.id == id,
    ensures
        device_of(s, id) == s[i].pad.device,
    decreases s.len(),
{
    if s[0].pad.id == id {
        if i != 0 {
            assert(s[0].pad.id != s[i].pad.id);
        }
    } else {
        let t = s.drop_first();
        assert forall|a: int, b: int| 0 <= a < b < t.len() implies t[a].pad.id != t[b].pad.id by {
            assert(t[a] == s[a + 1]);
            assert(t[b] == s[b + 1]);
        }
        assert(t[i - 1] == s[i]);
        lemma_device_of_unique(t, id, i - 1);
    }
}

/// The session registry: at most `max_sessions` slots, one per identity.
pub struct SocketController {
    pub clients: Vec<ClientSlot>,
    pub max_sessions: usize,
}

impl SocketController {
    /// The registry's invariant: identities are pairwise distinct and the
    /// capacity bound holds.
    pub open spec fn wf(self) -> bool {
        &&& unique_ids(self.clients@)
        &&& self.clients@.len() <= self.max_sessions
    }

    /// An empty registry with the stock capacity bound.
    pub fn new() -> (c: Self)
        ensures
            c.wf(),
            c.clients@ == Seq::<ClientSlot>::empty(),
            c.max_sessions == MAX_SESSIONS,
    {
        SocketController { clients: Vec::new(), max_sessions: MAX_SESSIONS }
    }

    /// An empty registry bounded at `max` sessions.
    pub fn with_capacity(max: usize) -> (c: Self)
        ensures
            c.wf(),
            c.clients@ == Seq::<ClientSlot>::empty(),
            c.max_sessions == max,
    {
        SocketController { clients: Vec::new(), max_sessions: max }
    }

    /// Finds the slot tracking an identity, if any.
    fn find(&self, id: u128) -> (r: Option<usize>)
        ensures
            match r {
                Some(i) => i < self.clients@.len() && self.clients@[i as int].pad.id == id,
                None => !has_identity(self.clients@, id),
            },
    {
        let mut i: usize = 0;
        while i < self.clients.len()
            invariant
                i <= self.clients@.len(),
                forall|k: int| 0 <= k < i ==> self.clients@[k].pad.id != id,
            decreases self.clients@.len() - i,
        {
            if self.clients[i].pad.id == id {
                return Some(i);
            }
            i += 1;
        }
        None
    }

    /// Returns the session tracking `id`, or creates one when there is room:
    /// a tracked identity is reused untouched (its device survives the
    /// reconnect and never counts against capacity); a new identity is
    /// admitted exactly when the registry is below its bound, and then starts
    /// from a fresh slot with the given device; otherwise nothing changes and
    /// the create fails.
    pub fn get_or_create(&mut self, id: u128, now: u64, device: u64) -> (r: Result<
        usize,
        CapacityExceeded,
    >)
        requires
            old(self).wf(),
        ensures
            final(self).wf(),
            final(self).max_sessions == old(self).max_sessions,
            final(self).clients@ == goc_next(
                old(self).clients@,
                old(self).max_sessions as nat,
                id,
                now,
                device,
            ),
            r is Ok <==> goc_accepts(old(self).clients@, old(self).max_sessions as nat, id),
            r matches Ok(i) ==> {
                &&& i < final(self).clients@.len()
                &&& final(self).clients@[i as int].pad.id == id
                &&& final(self).clients@[i as int].pad.device == goc_device(
                    old(self).clients@,
                    id,
                    device,
                )
                &&& final(self).clients@[i as int].pad.last_heartbeat == (
                if has_identity(old(self).clients@, id) {
                    old(self).clients@[i as int].pad.last_heartbeat
                } else {
                    now
                })
            },
    {
        match self.find(id) {
            Some(i) => {
                proof {
                    lemma_device_of_unique(self.clients@, id, i as int);
                }
                Ok(i)
            },
            None => {
                if self.clients.len() >= self.max_sessions {
                    Err(CapacityExceeded)
                } else {
                    let slot = ClientSlot {
                        locked: false,
                        pad: VirtualGamepad::new(id, now, device),
                    };
                    proof {
                        lemma_push_fresh_unique(self.clients@, id, now, device);
                    }
                    self.clients.push(slot);
                    Ok(self.clients.len() - 1)
                }
            },
        }
    }

    /// Takes a session's exclusive lock; the connection handler holds it for
    /// the duration of one session operation.
    pub fn lock(&mut self, i: usize)
        requires
            old(self).wf(),
            i < old(self).clients@.len(),
            !old(self).clients@[i as int].locked,
        ensures
            final(self).wf(),
            final(self).max_sessions == old(self).max_sessions,
            final(self).clients@ == old(self).clients@.update(
                i as int,
                (ClientSlot { locked: true, pad: old(self).clients@[i as int].pad }),
            ),
    {
        let slot = vstd::std_specs::vec::vec_index_mut(&mut self.clients, i);
        slot.locked = true;
        proof {
            lemma_same_ids_unique(old(self).clients@, self.clients@);
        }
    }

    /// Releases a session's exclusive lock.
    pub fn unlock(&mut self, i: usize)
        requires
            old(self).wf(),
            i < old(self).clients@.len(),
            old(self).clients@[i as int].locked,
        ensures
            final(self).wf(),
            final(self).max_sessions == old(self).max_sessions,
            final(self).clients@ == old(self).clients@.update(
                i as int,
                (ClientSlot { locked: false, pad: old(self).clients@[i as int].pad }),
            ),
    {
        let slot = vstd::std_specs::vec::vec_index_mut(&mut self.clients, i);
        slot.locked = false;
        proof {
            lemma_same_ids_unique(old(self).clients@, self.clients@);
        }
    }
}

/// Decides admission for one connection attempt, from the number of tracked
/// sessions and whether the identity is already among them.
pub fn admission(existing: usize, known: bool, max: usize) -> (a: Admission)
    ensures
        a == spec_admission(existing as nat, known, max as nat),
{
    if known {
        Admission::Reuse
    } else if existing >= max {
        Admission::Reject
    } else {
        Admission::Create
    }
}

/// The reaper's verdict on one session: evict exactly when its lock was free
/// and its heartbeat is stale at `now`.
pub fn should_evict(now: u64, last_heartbeat: u64, timeout: u64, lock_free: bool) -> (b: bool)
    ensures
        b == (lock_free && spec_stale(last_heartbeat, now, timeout)),
{
    lock_free && last_heartbeat <= now && now - last_heartbeat >= timeout
}

/// A sweep keeps exactly the slots that meet the keep test, and never grows
/// the registry.
pub proof fn lemma_kept_clients(s: Seq<ClientSlot>, now: u64, timeout: u64)
    ensures
        kept_clients(s, now, timeout).len() <= s.len(),
        forall|x: ClientSlot| #[trigger] kept_clients(s, now, timeout).contains(x) ==> s.contains(
            x,
        ) && keeps(x, now, timeout),
        forall|x: ClientSlot|
            s.contains(x) && keeps(x, now, timeout) ==> #[trigger] kept_clients(
                s,
                now,
                timeout,
            ).contains(x),
    decreases s.len(),
{
    if s.len() == 0 {
    } else {
        let pre = s.drop_last();
        lemma_kept_clients(pre, now, timeout);
        let k1 = kept_clients(pre, now, timeout);
        let k = kept_clients(s, now, timeout);
        assert forall|x: ClientSlot| #[trigger] k.contains(x) implies s.contains(x) && keeps(
            x,
            now,
            timeout,
        ) by {
            let i = choose|i: int| 0 <= i < k.len() && k[i] == x;
            if i < k1.len() {
                assert(k1[i] == x);
                assert(k1.contains(x));
                let j = choose|j: int| 0 <= j < pre.len() && pre[j] == x;
                assert(s[j] == x);
            } else {
                assert(x == s.last());
                assert(s[s.len() - 1] == x);
            }
        }
        assert forall|x: ClientSlot| s.contains(x) && keeps(x, now, timeout) implies #[trigger] k
            .contains(x) by {
            let i = choose|i: int| 0 <= i < s.len() && s[i] == x;
            if i < s.len() - 1 {
                assert(pre[i] == x);
                assert(pre.contains(x));
                assert(k1.contains(x));
                let j = choose|j: int| 0 <= j < k1.len() && k1[j] == x;
                assert(k[j] == x);
                assert(k.contains(x));
            } else {
                assert(x == s.last());
                assert(k[k1.len() as int] == x);
                assert(k.contains(x));
            }
        }
    }
}

/// A sweep keeps identities pairwise distinct.
pub proof fn lemma_kept_unique(s: Seq<ClientSlot>, now: u64, timeout: u64)
    requires
        unique_ids(s),
    ensures
        unique_ids(kept_clients(s, now, timeout)),
    decreases s.len(),
{
    if s.len() == 0 {
    } else {
        let pre = s.drop_last();
        assert forall|a: int, b: int| 0 <= a < b < pre.len() implies pre[a].pad.id
            != pre[b].pad.id by {
            assert(pre[a] == s[a]);
            assert(pre[b] == s[b]);
        }
        lemma_kept_unique(pre, now, timeout);
        lemma_kept_clients(pre, now, timeout);
        let k1 = kept_clients(pre, now, timeout);
        let k = kept_clients(s, now, timeout);
        assert forall|a: int, b: int| 0 <= a < b < k.len() implies k[a].pad.id != k[b].pad.id by {
            if b < k1.len() {
                assert(k[a] == k1[a]);
                assert(k[b] == k1[b]);
            } else {
                assert(k[b] == s.last());
                assert(k[a] == k1[a]);
                assert(k1.contains(k1[a]));
                let j = choose|j: int| 0 <= j < pre.len() && pre[j] == k1[a];
                assert(s[j] == k1[a]);
                assert(s[j].pad.id != s[s.len() - 1].pad.id);
            }
        }
    }
}

/// Replies and device events earned by a batch of messages, in arrival order.
pub struct Transcript {
    pub replies: Vec<ServerReply>,
    pub events: Vec<DeviceEvent>,
}

impl SocketController {
    /// One reaper pass: evicts exactly the sessions whose lock was free and
    /// whose heartbeat is stale at `now`, keeping the rest in their old
    /// order. A locked session is assumed active and retained, stale or not.
    pub fn remove_inactive_clients(&mut self, now: u64, timeout: u64)
        requires
            old(self).wf(),
        ensures
            final(self).wf(),
            final(self).max_sessions == old(self).max_sessions,
            final(self).clients@ == kept_clients(old(self).clients@, now, timeout),
    {
        let mut kept: Vec<ClientSlot> = Vec::new();
        let mut j: usize = 0;
        while j < self.clients.len()
            invariant
                j <= self.clients@.len(),
                self.clients@ == old(self).clients@,
                self.max_sessions == old(self).max_sessions,
                kept@ == kept_clients(old(self).clients@.take(j as int), now, timeout),
            decreases self.clients@.len() - j,
        {
            let c = self.clients[j];
            let evict = should_evict(now, c.pad.last_heartbeat, timeout, !c.locked);
            if !evict {
                kept.push(c);
            }
            j += 1;
            proof {
                let s = old(self).clients@;
                let tj1 = s.take(j as int);
                assert(tj1.drop_last() =~= s.take(j as int - 1));
                assert(tj1.last() == s[j as int - 1]);
                if !keeps(c, now, timeout) {
                    assert(kept_clients(tj1, now, timeout) =~= kept_clients(
                        s.take(j as int - 1),
                        now,
                        timeout,
                    ));
                } else {
                    assert(kept_clients(tj1, now, timeout) =~= kept_clients(
                        s.take(j as int - 1),
                        now,
                        timeout,
                    ).push(c));
                }
            }
        }
        proof {
            assert(old(self).clients@.take(self.clients@.len() as int) =~= old(self).clients@);
            lemma_kept_clients(old(self).clients@, now, timeout);
            lemma_kept_unique(old(self).clients@, now, timeout);
        }
        self.clients = kept;
    }

    /// One step of an active connection: decides the message's effect and
    /// applies its session part (a ping refreshes the heartbeat) to the
    /// locked session at `i`. The caller carries out the reply and emission.
    pub fn handle_message(&mut self, i: usize, msg: &ClientMessage, now: u64) -> (e: MessageEffect)
        requires
            old(self).wf(),
            i < old(self).clients@.len(),
            old(self).clients@[i as int].locked,
        ensures
            final(self).wf(),
            final(self).max_sessions == old(self).max_sessions,
            e == spec_effect(*msg),
            final(self).clients@ == old(self).clients@.update(
                i as int,
                (touched_slot(old(self).clients@[i as int], *msg, now)),
            ),
    {
        let e = message_effect(msg);
        if e.touch {
            let slot = vstd::std_specs::vec::vec_index_mut(&mut self.clients, i);
            slot.pad.update_heartbeat(now);
            proof {
                lemma_same_ids_unique(old(self).clients@, self.clients@);
            }
        } else {
            proof {
                assert(old(self).clients@.update(
                    i as int,
                    touched_slot(old(self).clients@[i as int], *msg, now),
                ) =~= old(self).clients@);
            }
        }
        e
    }

    /// Runs a batch of messages against the locked session at `i`, in arrival
    /// order: the transcript carries one pong per ping and the device events
    /// of the button and axis messages, in exactly the order the messages
    /// came; the heartbeat ends at `now` when any message was a ping.
    pub fn process_messages(&mut self, i: usize, msgs: &Vec<ClientMessage>, now: u64) -> (t:
        Transcript)
        requires
            old(self).wf(),
            i < old(self).clients@.len(),
            old(self).clients@[i as int].locked,
        ensures
            final(self).wf(),
            final(self).max_sessions == old(self).max_sessions,
            t.replies@ == replies_of(msgs@),
            t.events@ == emissions_of(msgs@),
            final(self).clients@ == old(self).clients@.update(
                i as int,
                (batch_slot(old(self).clients@[i as int], msgs@, now)),
            ),
    {
        let mut replies: Vec<ServerReply> = Vec::new();
        let mut events: Vec<DeviceEvent> = Vec::new();
        let mut j: usize = 0;
        proof {
            assert(old(self).clients@.update(i as int, old(self).clients@[i as int]) =~= old(
                self,
            ).clients@);
        }
        while j < msgs.len()
            invariant
                j <= msgs@.len(),
                i < self.clients@.len(),
                self.wf(),
                self.max_sessions == old(self).max_sessions,
                i < old(self).clients@.len(),
                old(self).clients@[i as int].locked,
                self.clients@ == old(self).clients@.update(
                    i as int,
                    batch_slot(old(self).clients@[i as int], msgs@.take(j as int), now),
                ),
                replies@ == replies_of(msgs@.take(j as int)),
                events@ == emissions_of(msgs@.take(j as int)),
            decreases msgs@.len() - j,
        {
            let m = msgs[j];
            proof {
                assert(self.clients@[i as int] == batch_slot(
                    old(self).clients@[i as int],
                    msgs@.take(j as int),
                    now,
                ));
            }
            let e = self.handle_message(i, &m, now);
            proof {
                let s = old(self).clients@;
                let c0 = s[i as int];
                let tj = msgs@.take(j as int);
                let tj1 = msgs@.take(j as int + 1);
                assert(tj1.drop_last() =~= tj);
                assert(tj1.last() == msgs@[j as int]);
                let bsj = batch_slot(c0, tj, now);
                let next = touched_slot(bsj, m, now);
                assert(self.clients@ == s.update(i as int, bsj).update(i as int, next));
                assert(s.update(i as int, bsj).update(i as int, next) =~= s.update(i as int, next));
                assert(next == batch_slot(c0, tj1, now));
                assert(replies_of(tj1) == replies_of(tj)
                    + (match spec_effect(m).reply {
                    Some(r) => seq![r],
                    None => Seq::empty(),
                }));
                assert(emissions_of(tj1) == emissions_of(tj)
                    + (match spec_effect(m).emit {
                    Some(ev) => seq![ev],
                    None => Seq::empty(),
                }));
            }
            match e.reply {
                Some(r) => {
                    replies.push(r);
                    proof {
                        assert(replies@ =~= replies_of(msgs@.take(j as int))
                            + seq![r]);
                    }
                },
                None => {
                    proof {
                        assert(replies_of(msgs@.take(j as int))
                            + Seq::<ServerReply>::empty()
                            =~= replies_of(msgs@.take(j as int)));
                    }
                },
            }
            match e.emit {
                Some(ev) => {
                    events.push(ev);
                    proof {
                        assert(events@ =~= emissions_of(msgs@.take(j as int))
                            + seq![ev]);
                    }
                },
                None => {
                    proof {
                        assert(emissions_of(msgs@.take(j as int))
                            + Seq::<DeviceEvent>::empty()
                            =~= emissions_of(msgs@.take(j as int)));
                    }
                },
            }
            j += 1;
        }
        proof {
            assert(msgs@.take(msgs@.len() as int) =~= msgs@);
        }
        Transcript { replies, events }
    }

    /// Resolves one connection attempt, from the raw identity the peer
    /// supplied: a string that is no UUID is turned away before the registry
    /// is touched; a tracked identity is re-attached to its existing session;
    /// a new identity is admitted only below the capacity bound, and then
    /// only when a device could be attached (`fresh_device`).
    pub fn resolve_connect(
        &mut self,
        req: &WsConnectionRequest,
        now: u64,
        fresh_device: Option<u64>,
    ) -> (o: ConnectOutcome)
        requires
            old(self).wf(),
        ensures
            final(self).wf(),
            final(self).max_sessions == old(self).max_sessions,
            ({
                let s = old(self).clients@;
                let max = old(self).max_sessions as nat;
                match uuid_of(req.client_id@) {
                    None => o == ConnectOutcome::InvalidIdentity && final(self).clients@ == s,
                    Some(id) => match fresh_device {
                        Some(d) => {
                            &&& final(self).clients@ == goc_next(s, max, id, now, d)
                            &&& (goc_accepts(s, max, id) ==> (o matches ConnectOutcome::Attached(i)
                                && i < final(self).clients@.len()
                                && final(self).clients@[i as int].pad.id == id
                                && final(self).clients@[i as int].pad.device == goc_device(
                                s,
                                id,
                                d,
                            )))
                            &&& (!goc_accepts(s, max, id) ==> o
                                == ConnectOutcome::CapacityExceeded && final(self).clients@ == s)
                        },
                        None => {
                            &&& final(self).clients@ == s
                            &&& (has_identity(s, id) ==> (o matches ConnectOutcome::Attached(i)
                                && i < s.len() && s[i as int].pad.id == id
                                && s[i as int].pad.device == device_of(s, id)))
                            &&& (!has_identity(s, id) && s.len() >= max ==> o
                                == ConnectOutcome::CapacityExceeded)
                            &&& (!has_identity(s, id) && s.len() < max ==> o
                                == ConnectOutcome::DeviceUnavailable)
                        },
                    },
                }
            }),
    {
        match parse_identity(req.client_id.as_str()) {
            None => ConnectOutcome::InvalidIdentity,
            Some(id) => match fresh_device {
                Some(d) => match self.get_or_create(id, now, d) {
                    Ok(i) => ConnectOutcome::Attached(i),
                    Err(_) => ConnectOutcome::CapacityExceeded,
                },
                None => match self.find(id) {
                    Some(i) => {
                        proof {
                            lemma_device_of_unique(self.clients@, id, i as int);
                        }
                        ConnectOutcome::Attached(i)
                    },
                    None => {
                        if self.clients.len() >= self.max_sessions {
                            ConnectOutcome::CapacityExceeded
                        } else {
                            ConnectOutcome::DeviceUnavailable
                        }
                    },
                },
            },
        }
    }
}

} // verus!
