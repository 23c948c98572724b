//! The message protocol spoken over one connection: inbound client messages,
//! outbound replies with their exact wire text, and the effect each message
//! has on a session.

use vstd::prelude::*;

verus! {

/// One decoded inbound message from a client.
#[derive(Clone, Copy, Debug, PartialEq, Eq, Structural)]
pub enum ClientMessage {
    /// A liveness ping; answered with a pong and refreshes the heartbeat.
    Ping,
    /// A button event to forward to the virtual device.
    Btn { code: u16, value: i32 },
    /// An axis event to forward to the virtual device.
    Axis { code: u16, value: i32 },
}

/// One outbound message to a client.
#[derive(Clone, Copy, Debug, PartialEq, Eq, Structural)]
pub enum ServerReply {
    /// Acknowledges a liveness ping.
    Pong,
    /// The identity supplied at connection time did not parse.
    InvalidClientId,
    /// A new identity arrived while the registry was at capacity.
    ClientLimitReached,
}

/// The kind of input event a virtual device can emit.
#[derive(Clone, Copy, Debug, PartialEq, Eq, Structural)]
pub enum EventKind {
    /// A key or button state change.
    Key,
    /// An absolute-axis position change.
    Absolute,
}

/// One discrete input event, ready for a virtual device to emit.
#[derive(Clone, Copy, Debug, PartialEq, Eq, Structural)]
pub struct DeviceEvent {
    pub kind: EventKind,
    pub code: u16,
    pub value: i32,
}

/// Everything one inbound message asks of the connection handler: an optional
/// reply to the peer, an optional event for the device, and whether the
/// session's heartbeat is refreshed.
#[derive(Clone, Copy, Debug, PartialEq, Eq)]
pub struct MessageEffect {
    pub reply: Option<ServerReply>,
    pub emit: Option<DeviceEvent>,
    pub touch: bool,
}

/// The effect of one inbound message: a ping is answered with exactly one
/// pong and refreshes the heartbeat; a button or axis message is forwarded
/// to the device and nothing else.
pub open spec fn spec_effect(m: ClientMessage) -> MessageEffect {
    match m {
        ClientMessage::Ping => MessageEffect {
            reply: Some(ServerReply::Pong),
            emit: None,
            touch: true,
        },
        ClientMessage::Btn { code, value } => MessageEffect {
            reply: None,
            emit: Some(DeviceEvent { kind: EventKind::Key, code, value }),
            touch: false,
        },
        ClientMessage::Axis { code, value } => MessageEffect {
            reply: None,
            emit: Some(DeviceEvent { kind: EventKind::Absolute, code, value }),
            touch: false,
        },
    }
}

/// Decides what one inbound message asks for.
pub fn message_effect(m: &ClientMessage) -> (e: MessageEffect)
    ensures
        e == spec_effect(*m),
{
    match m {
        ClientMessage::Ping => MessageEffect {
            reply: Some(ServerReply::Pong),
            emit: None,
            touch: true,
        },
        ClientMessage::Btn { code, value } => MessageEffect {
            reply: None,
            emit: Some(DeviceEvent { kind: EventKind::Key, code: *code, value: *value }),
            touch: false,
        },
        ClientMessage::Axis { code, value } => MessageEffect {
            reply: None,
            emit: Some(DeviceEvent { kind: EventKind::Absolute, code: *code, value: *value }),
            touch: false,
        },
    }
}

/// The exact wire text of each outbound message.
pub open spec fn spec_reply_text(r: ServerReply) -> Seq<char> {
    match r {
        ServerReply::Pong => "{\"kind\":\"pong\"}"@,
        ServerReply::InvalidClientId => "{\"error\":\"invalid client_id\"}"@,
        ServerReply::ClientLimitReached => "{\"error\":\"maximum client limit reached\"}"@,
    }
}

/// Renders one outbound message as the JSON text sent to the peer.
pub fn reply_json(r: &ServerReply) -> (s: String)
    ensures
        s@ == spec_reply_text(*r),
{
    match r {
        ServerReply::Pong => "{\"kind\":\"pong\"}".to_owned(),
        ServerReply::InvalidClientId => "{\"error\":\"invalid client_id\"}".to_owned(),
        ServerReply::ClientLimitReached => "{\"error\":\"maximum client limit reached\"}".to_owned(),
    }
}

/// The device events a sequence of messages asks to emit, in arrival order.
pub open spec fn emissions_of(ms: Seq<ClientMessage>) -> Seq<DeviceEvent>
    decreases ms.len(),
{
    if ms.len() == 0 {
        Seq::empty()
    } else {
        emissions_of(ms.drop_last()) + (match spec_effect(ms.last()).emit {
            Some(e) => seq![e],
            None => Seq::empty(),
        })
    }
}

/// The replies a sequence of messages earns, in arrival order.
pub open spec fn replies_of(ms: Seq<ClientMessage>) -> Seq<ServerReply>
    decreases ms.len(),
{
    if ms.len() == 0 {
        Seq::empty()
    } else {
        replies_of(ms.drop_last()) + (match spec_effect(ms.last()).reply {
            Some(r) => seq![r],
            None => Seq::empty(),
        })
    }
}

/// Whether any message in the sequence refreshes the heartbeat.
pub open spec fn touches(ms: Seq<ClientMessage>) -> bool
    decreases ms.len(),
{
    ms.len() > 0 && (spec_effect(ms.last()).touch || touches(ms.drop_last()))
}

} // verus!
