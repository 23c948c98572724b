//! The per-connection protocol state machine: `Connecting` resolves the
//! supplied identity against the registry, `Active` turns inbound messages
//! into session operations one at a time, and `Closed` is terminal. Closing
//! never removes the bound session — only the reaper does that.

use vstd::prelude::*;
use crate::identity::{WsConnectionRequest, uuid_of};
use crate::protocol::{ClientMessage, DeviceEvent, ServerReply, spec_effect};
use crate::registry::{
    ConnectOutcome, SocketController, fresh_slot, has_identity, index_of_identity,
    lemma_index_of_unique, touched_slot,
};

verus! {

/// Where one connection stands.
#[derive(Clone, Copy, Debug, PartialEq, Eq, Structural)]
pub enum ConnState {
    /// Waiting for the upgrade that carries the identity parameter.
    Connecting,
    /// Bound to the session at this registry index; receiving messages.
    Active { session: usize },
    /// Terminal. The bound session stays in the registry for a reconnect.
    Closed,
}

/// What one connection can observe: the upgrade that opens it, one decoded
/// message, one undecodable message, or the transport ending.
#[derive(Debug)]
pub enum ConnEvent {
    /// The connection opened, carrying the raw identity and — in case a
    /// session must be created — the device the embedding could attach.
    Opened { req: WsConnectionRequest, fresh_device: Option<u64> },
    /// One decoded inbound message.
    Inbound(ClientMessage),
    /// An inbound message that did not decode: logged and ignored.
    Undecodable,
    /// The peer closed, or the transport failed while receiving.
    PeerClosed,
}

/// One transition's outcome: the next state, at most one reply to the peer,
/// and at most one event for the device.
#[derive(Clone, Copy, Debug, PartialEq, Eq)]
pub struct ConnStep {
    pub state: ConnState,
    pub reply: Option<ServerReply>,
    pub emit: Option<DeviceEvent>,
}

/// The transition table of the connection state machine, together with the
/// registry it drives: next state, reply, device event, and next registry.
pub open spec fn spec_conn_step(
    st: ConnState,
    ev: ConnEvent,
    s: Seq<crate::registry::ClientSlot>,
    max: nat,
    now: u64,
) -> (ConnState, Option<ServerReply>, Option<DeviceEvent>, Seq<crate::registry::ClientSlot>) {
    match st {
        ConnState::Closed => (ConnState::Closed, None, None, s),
        ConnState::Connecting => match ev {
            ConnEvent::Opened { req, fresh_device } => match uuid_of(req.client_id@) {
                None => (ConnState::Closed, Some(ServerReply::InvalidClientId), None, s),
                Some(id) => {
                    if has_identity(s, id) {
                        (
                            ConnState::Active { session: index_of_identity(s, id) as usize },
                            None,
                            None,
                            s,
                        )
                    } else if s.len() >= max {
                        (ConnState::Closed, Some(ServerReply::ClientLimitReached), None, s)
                    } else {
                        match fresh_device {
                            None => (ConnState::Closed, None, None, s),
                            Some(d) => (
                                ConnState::Active { session: s.len() as usize },
                                None,
                                None,
                                s.push(fresh_slot(id, now, d)),
                            ),
                        }
                    }
                },
            },
            _ => (ConnState::Closed, None, None, s),
        },
        ConnState::Active { session } => match ev {
            ConnEvent::Inbound(m) => (
                st,
                spec_effect(m).reply,
                spec_effect(m).emit,
                s.update(session as int, touched_slot(s[session as int], m, now)),
            ),
            ConnEvent::Undecodable => (st, None, None, s),
            ConnEvent::PeerClosed => (ConnState::Closed, None, None, s),
            ConnEvent::Opened { .. } => (st, None, None, s),
        },
    }
}

/// Runs one transition of the connection state machine against the registry,
/// exactly as the transition table says: a bad identity or a full registry
/// earns its error reply and closes before anything is touched; an attach
/// binds the connection; each inbound message is applied to the bound session
/// under its lock, taken for just that step.
pub fn conn_step(reg: &mut SocketController, state: &ConnState, event: &ConnEvent, now: u64) -> (o:
    ConnStep)
    requires
        old(reg).wf(),
        *state matches ConnState::Active { session } ==> session < old(reg).clients@.len() && !old(
            reg,
        ).clients@[session as int].locked,
    ensures
        final(reg).wf(),
        final(reg).max_sessions == old(reg).max_sessions,
        (o.state, o.reply, o.emit, final(reg).clients@) == spec_conn_step(
            *state,
            *event,
            old(reg).clients@,
            old(reg).max_sessions as nat,
            now,
        ),
        *state matches ConnState::Active { session } ==> !final(reg).clients@[session as int].locked,
{
    match state {
        ConnState::Closed => ConnStep { state: ConnState::Closed, reply: None, emit: None },
        ConnState::Connecting => match event {
            ConnEvent::Opened { req, fresh_device } => match reg.resolve_connect(
                req,
                now,
                *fresh_device,
            ) {
                ConnectOutcome::Attached(i) => {
                    proof {
                        let s = old(reg).clients@;
                        let id = uuid_of(req.client_id@).unwrap();
                        if has_identity(s, id) {
                            lemma_index_of_unique(s, id, i as int);
                        } else {
                            if i < s.len() {
                                assert(reg.clients@[i as int] == s[i as int]);
                                assert(has_identity(s, id));
                            }
                        }
                    }
                    ConnStep { state: ConnState::Active { session: i }, reply: None, emit: None }
                },
                ConnectOutcome::InvalidIdentity => ConnStep {
                    state: ConnState::Closed,
                    reply: Some(ServerReply::InvalidClientId),
                    emit: None,
                },
                ConnectOutcome::CapacityExceeded => ConnStep {
                    state: ConnState::Closed,
                    reply: Some(ServerReply::ClientLimitReached),
                    emit: None,
                },
                ConnectOutcome::DeviceUnavailable => ConnStep {
                    state: ConnState::Closed,
                    reply: None,
                    emit: None,
                },
            },
            _ => ConnStep { state: ConnState::Closed, reply: None, emit: None },
        },
        ConnState::Active { session } => match event {
            ConnEvent::Inbound(m) => {
                reg.lock(*session);
                let e = reg.handle_message(*session, m, now);
                reg.unlock(*session);
                proof {
                    let s = old(reg).clients@;
                    let c = s[*session as int];
                    assert(reg.clients@ =~= s.update(*session as int, touched_slot(c, *m, now)));
                }
                ConnStep { state: ConnState::Active { session: *session }, reply: e.reply, emit: e.emit }
            },
            ConnEvent::Undecodable => ConnStep {
                state: ConnState::Active { session: *session },
                reply: None,
                emit: None,
            },
            ConnEvent::PeerClosed => ConnStep { state: ConnState::Closed, reply: None, emit: None },
            ConnEvent::Opened { .. } => ConnStep {
                state: ConnState::Active { session: *session },
                reply: None,
                emit: None,
            },
        },
    }
}

} // verus!
