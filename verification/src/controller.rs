//! Per-client gamepad state: the identity it was created for, its liveness
//! timestamp, and a marker naming the virtual device attached to it.
//!
//! The device itself lives with the embedding program; here it is named by an
//! opaque marker so that "the same device survives a reconnect" is a provable
//! statement. Clock readings come in as milliseconds on the host's monotonic
//! clock.

use vstd::prelude::*;
use crate::protocol::{DeviceEvent, EventKind};

verus! {

/// Server-side state of one client's virtual gamepad.
#[derive(Clone, Copy, Debug, PartialEq, Eq, Structural)]
pub struct VirtualGamepad {
    /// The client identity this gamepad was created for; never changes.
    pub id: u128,
    /// When the client last proved liveness, in monotonic milliseconds.
    pub last_heartbeat: u64,
    /// Marker naming the virtual device attached at creation; never replaced.
    pub device: u64,
}

impl VirtualGamepad {
    /// Creates the state for a fresh session: identity bound, heartbeat set
    /// to the creation time, device attached once and for good.
    pub fn new(id: u128, now: u64, device: u64) -> (g: Self)
        ensures
            g == (VirtualGamepad { id, last_heartbeat: now, device }),
    {
        VirtualGamepad { id, last_heartbeat: now, device }
    }

    /// Records a liveness signal: the heartbeat moves to `now`, nothing else
    /// changes.
    pub fn update_heartbeat(&mut self, now: u64)
        ensures
            *final(self) == (VirtualGamepad {
                id: old(self).id,
                last_heartbeat: now,
                device: old(self).device,
            }),
    {
        self.last_heartbeat = now;
    }

    /// Builds the key event this gamepad forwards to its device for a button
    /// message. Emission itself is the device facade's job.
    pub fn send_keypad_event(&self, code: u16, value: i32) -> (e: DeviceEvent)
        ensures
            e == (DeviceEvent { kind: EventKind::Key, code, value }),
    {
        DeviceEvent { kind: EventKind::Key, code, value }
    }

    /// Builds the absolute-axis event this gamepad forwards to its device for
    /// an axis message.
    pub fn send_axis_event(&self, code: u16, value: i32) -> (e: DeviceEvent)
        ensures
            e == (DeviceEvent { kind: EventKind::Absolute, code, value }),
    {
        DeviceEvent { kind: EventKind::Absolute, code, value }
    }
}

} // verus!
