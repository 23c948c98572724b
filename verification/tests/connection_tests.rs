use web_controller::connection::{conn_step, ConnEvent, ConnState};
use web_controller::identity::WsConnectionRequest;
use web_controller::protocol::{ClientMessage, DeviceEvent, EventKind, ServerReply};
use web_controller::registry::SocketController;

const ID_A: &str = "550e8400-e29b-41d4-a716-446655440000";

fn opened(raw: &str, fresh_device: Option<u64>) -> ConnEvent {
    ConnEvent::Opened { req: WsConnectionRequest { client_id: raw.to_owned() }, fresh_device }
}

#[test]
fn malformed_identity_replies_and_closes() {
    let mut reg = SocketController::with_capacity(2);
    let o = conn_step(&mut reg, &ConnState::Connecting, &opened("not-a-uuid", Some(1)), 0);
    assert_eq!(o.state, ConnState::Closed);
    assert_eq!(o.reply, Some(ServerReply::InvalidClientId));
    assert_eq!(o.emit, None);
    assert_eq!(reg.clients.len(), 0);
}

#[test]
fn full_registry_replies_and_closes() {
    let mut reg = SocketController::with_capacity(0);
    let o = conn_step(&mut reg, &ConnState::Connecting, &opened(ID_A, Some(1)), 0);
    assert_eq!(o.state, ConnState::Closed);
    assert_eq!(o.reply, Some(ServerReply::ClientLimitReached));
    assert_eq!(reg.clients.len(), 0);
}

#[test]
fn missing_device_closes_without_protocol_reply() {
    let mut reg = SocketController::with_capacity(2);
    let o = conn_step(&mut reg, &ConnState::Connecting, &opened(ID_A, None), 0);
    assert_eq!(o.state, ConnState::Closed);
    assert_eq!(o.reply, None);
    assert_eq!(reg.clients.len(), 0);
}

#[test]
fn one_connection_lifecycle() {
    let mut reg = SocketController::with_capacity(2);
    let o = conn_step(&mut reg, &ConnState::Connecting, &opened(ID_A, Some(42)), 100);
    assert_eq!(o.state, ConnState::Active { session: 0 });
    assert_eq!(o.reply, None);
    assert_eq!(reg.clients.len(), 1);

    let st = o.state;
    let o = conn_step(&mut reg, &st, &ConnEvent::Inbound(ClientMessage::Ping), 200);
    assert_eq!(o.state, st);
    assert_eq!(o.reply, Some(ServerReply::Pong));
    assert_eq!(o.emit, None);
    assert_eq!(reg.clients[0].pad.last_heartbeat, 200);

    let o = conn_step(
        &mut reg,
        &st,
        &ConnEvent::Inbound(ClientMessage::Btn { code: 304, value: 1 }),
        300,
    );
    assert_eq!(o.reply, None);
    assert_eq!(o.emit, Some(DeviceEvent { kind: EventKind::Key, code: 304, value: 1 }));
    assert_eq!(reg.clients[0].pad.last_heartbeat, 200);
    assert!(!reg.clients[0].locked);

    let o = conn_step(&mut reg, &st, &ConnEvent::Undecodable, 400);
    assert_eq!(o.state, st);
    assert_eq!(o.reply, None);
    assert_eq!(o.emit, None);

    let o = conn_step(&mut reg, &st, &ConnEvent::PeerClosed, 500);
    assert_eq!(o.state, ConnState::Closed);
    // Closing retains the session for a reconnect.
    assert_eq!(reg.clients.len(), 1);

    let o = conn_step(&mut reg, &ConnState::Closed, &ConnEvent::Inbound(ClientMessage::Ping), 600);
    assert_eq!(o.state, ConnState::Closed);
    assert_eq!(o.reply, None);
    assert_eq!(reg.clients.len(), 1);
}

#[test]
fn reconnect_through_the_state_machine_finds_the_session() {
    let mut reg = SocketController::with_capacity(1);
    let o = conn_step(&mut reg, &ConnState::Connecting, &opened(ID_A, Some(7)), 0);
    assert_eq!(o.state, ConnState::Active { session: 0 });
    // The registry is now full, yet the same identity reattaches — to the
    // same session and device, even though a different device is on offer.
    let o = conn_step(&mut reg, &ConnState::Connecting, &opened(ID_A, Some(8)), 1);
    assert_eq!(o.state, ConnState::Active { session: 0 });
    assert_eq!(reg.clients.len(), 1);
    assert_eq!(reg.clients[0].pad.device, 7);
}
