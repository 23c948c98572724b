use web_controller::identity::WsConnectionRequest;
use web_controller::registry::{
    admission, should_evict, Admission, ConnectOutcome, SocketController, CapacityExceeded,
    HEARTBEAT_TIMEOUT_MS, CHECK_INTERVAL_MS, MAX_SESSIONS,
};

const ID_A: &str = "550e8400-e29b-41d4-a716-446655440000";
const ID_B: &str = "a1a2a3a4-b1b2-c1c2-d1d2-d3d4d5d6d7d8";
const ID_C: &str = "00000000-0000-0000-0000-000000000001";

fn request(raw: &str) -> WsConnectionRequest {
    WsConnectionRequest { client_id: raw.to_owned() }
}

fn attach(reg: &mut SocketController, raw: &str, now: u64, device: u64) -> usize {
    match reg.resolve_connect(&request(raw), now, Some(device)) {
        ConnectOutcome::Attached(i) => i,
        other => panic!("expected an attached session, got {:?}", other),
    }
}

#[test]
fn defaults_match_the_stock_configuration() {
    assert_eq!(MAX_SESSIONS, 15);
    assert_eq!(HEARTBEAT_TIMEOUT_MS, 300_000);
    assert_eq!(CHECK_INTERVAL_MS, 60_000);
    let reg = SocketController::new();
    assert_eq!(reg.max_sessions, 15);
    assert_eq!(reg.clients.len(), 0);
}

#[test]
fn reconnect_yields_same_device() {
    let mut reg = SocketController::with_capacity(5);
    let i = attach(&mut reg, ID_A, 100, 42);
    assert_eq!(reg.clients[i].pad.device, 42);
    // The peer goes away; the registry is not touched. Reconnect before the
    // timeout, offering a different fresh device: the old one is kept.
    reg.remove_inactive_clients(100 + HEARTBEAT_TIMEOUT_MS - 1, HEARTBEAT_TIMEOUT_MS);
    let j = attach(&mut reg, ID_A, 200, 99);
    assert_eq!(i, j);
    assert_eq!(reg.clients.len(), 1);
    assert_eq!(reg.clients[j].pad.device, 42);
}

#[test]
fn identity_is_the_parsed_uuid_value() {
    let mut reg = SocketController::with_capacity(5);
    let i = attach(&mut reg, ID_A, 0, 1);
    assert_eq!(reg.clients[i].pad.id, 0x550e8400_e29b_41d4_a716_446655440000);
    let expected = uuid::Uuid::parse_str(ID_B).unwrap().as_u128();
    let j = attach(&mut reg, ID_B, 0, 2);
    assert_eq!(reg.clients[j].pad.id, expected);
    assert_ne!(i, j);
    assert_eq!(reg.clients.len(), 2);
}

#[test]
fn uuid_variants_name_the_same_identity() {
    let mut reg = SocketController::with_capacity(5);
    let i = attach(&mut reg, ID_A, 0, 7);
    // Simple, braced and URN renderings of the same UUID reattach, not create.
    let simple = "550e8400e29b41d4a716446655440000";
    let braced = "{550e8400-e29b-41d4-a716-446655440000}";
    let urn = "urn:uuid:550e8400-e29b-41d4-a716-446655440000";
    for raw in [simple, braced, urn] {
        let j = attach(&mut reg, raw, 1, 8);
        assert_eq!(i, j, "{raw} did not reattach");
        assert_eq!(reg.clients[j].pad.device, 7);
    }
    assert_eq!(reg.clients.len(), 1);
}

#[test]
fn capacity_rejects_new_identity_only() {
    let mut reg = SocketController::with_capacity(2);
    attach(&mut reg, ID_A, 0, 1);
    attach(&mut reg, ID_B, 0, 2);
    let out = reg.resolve_connect(&request(ID_C), 0, Some(3));
    assert_eq!(out, ConnectOutcome::CapacityExceeded);
    assert_eq!(reg.clients.len(), 2);
    // Both tracked identities still reconnect at full capacity.
    let i = attach(&mut reg, ID_A, 1, 9);
    assert_eq!(reg.clients[i].pad.device, 1);
    let j = attach(&mut reg, ID_B, 1, 9);
    assert_eq!(reg.clients[j].pad.device, 2);
    assert_eq!(reg.clients.len(), 2);
}

#[test]
fn zero_capacity_rejects_first_identity() {
    let mut reg = SocketController::with_capacity(0);
    let out = reg.resolve_connect(&request(ID_A), 0, Some(1));
    assert_eq!(out, ConnectOutcome::CapacityExceeded);
    assert_eq!(reg.clients.len(), 0);
}

#[test]
fn get_or_create_reports_capacity() {
    let mut reg = SocketController::with_capacity(1);
    assert_eq!(reg.get_or_create(1, 0, 10), Ok(0));
    assert_eq!(reg.get_or_create(1, 5, 11), Ok(0));
    assert_eq!(reg.clients[0].pad.device, 10);
    assert_eq!(reg.clients[0].pad.last_heartbeat, 0);
    assert_eq!(reg.get_or_create(2, 0, 12), Err(CapacityExceeded));
}

#[test]
fn malformed_identity_touches_nothing() {
    let mut reg = SocketController::with_capacity(2);
    for raw in ["", "not-a-uuid", "550e8400-e29b-41d4-a716-44665544000", "zzze8400-e29b-41d4-a716-446655440000"] {
        let out = reg.resolve_connect(&request(raw), 0, Some(1));
        assert_eq!(out, ConnectOutcome::InvalidIdentity, "{raw} was not rejected");
        assert_eq!(reg.clients.len(), 0);
    }
}

#[test]
fn device_unavailable_aborts_creation_only() {
    let mut reg = SocketController::with_capacity(2);
    let out = reg.resolve_connect(&request(ID_A), 0, None);
    assert_eq!(out, ConnectOutcome::DeviceUnavailable);
    assert_eq!(reg.clients.len(), 0);
    // A tracked identity needs no fresh device to reattach.
    attach(&mut reg, ID_A, 0, 5);
    let out = reg.resolve_connect(&request(ID_A), 1, None);
    assert_eq!(out, ConnectOutcome::Attached(0));
    assert_eq!(reg.clients[0].pad.device, 5);
}

#[test]
fn expiry_removes_stale_and_keeps_fresh() {
    let mut reg = SocketController::with_capacity(5);
    reg.get_or_create(1, 0, 1).unwrap();
    reg.get_or_create(2, 200_000, 2).unwrap();
    // At 300 000 ms the first heartbeat (0) is exactly timeout old: evicted.
    reg.remove_inactive_clients(HEARTBEAT_TIMEOUT_MS, HEARTBEAT_TIMEOUT_MS);
    assert_eq!(reg.clients.len(), 1);
    assert_eq!(reg.clients[0].pad.id, 2);
}

#[test]
fn expiry_boundary_is_exact() {
    let mut reg = SocketController::with_capacity(5);
    reg.get_or_create(1, 1_000, 1).unwrap();
    // One millisecond short of the timeout: retained.
    reg.remove_inactive_clients(1_000 + HEARTBEAT_TIMEOUT_MS - 1, HEARTBEAT_TIMEOUT_MS);
    assert_eq!(reg.clients.len(), 1);
    // Exactly the timeout: evicted.
    reg.remove_inactive_clients(1_000 + HEARTBEAT_TIMEOUT_MS, HEARTBEAT_TIMEOUT_MS);
    assert_eq!(reg.clients.len(), 0);
}

#[test]
fn locked_session_survives_sweep() {
    let mut reg = SocketController::with_capacity(5);
    reg.get_or_create(1, 0, 1).unwrap();
    reg.lock(0);
    // Far past the timeout, but the lock is held: retained.
    reg.remove_inactive_clients(10 * HEARTBEAT_TIMEOUT_MS, HEARTBEAT_TIMEOUT_MS);
    assert_eq!(reg.clients.len(), 1);
    reg.unlock(0);
    reg.remove_inactive_clients(10 * HEARTBEAT_TIMEOUT_MS, HEARTBEAT_TIMEOUT_MS);
    assert_eq!(reg.clients.len(), 0);
}

#[test]
fn admission_decisions() {
    assert_eq!(admission(0, false, 15), Admission::Create);
    assert_eq!(admission(14, false, 15), Admission::Create);
    assert_eq!(admission(15, false, 15), Admission::Reject);
    assert_eq!(admission(15, true, 15), Admission::Reuse);
    assert_eq!(admission(0, true, 15), Admission::Reuse);
    assert_eq!(admission(0, false, 0), Admission::Reject);
}

#[test]
fn eviction_verdicts() {
    assert!(should_evict(300_000, 0, 300_000, true));
    assert!(!should_evict(299_999, 0, 300_000, true));
    assert!(!should_evict(300_000, 0, 300_000, false));
    // A heartbeat in the future is not stale.
    assert!(!should_evict(100, 200, 50, true));
    assert!(should_evict(u64::MAX, 0, u64::MAX, true));
}
