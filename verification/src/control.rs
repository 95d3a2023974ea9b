//! The control surface: what a request to connect a device, to disconnect
//! it, or to copy a file does to the registry and to the port table.
//!
//! The bridging tool runs between two calls: the first says what to run it
//! with, the second takes note of how it ended.

use vstd::prelude::*;
use crate::bridge::{
    bindings_ok, failure_of, is_bound, is_lowest_free, pool_exhausted, port_of, released,
    result_of, BindingView, BridgeCoordinator, BridgeError, CoordinatorView, ToolOutcome,
};
use crate::device::{
    clock_seconds, has_id, ids_distinct, lookup, status_outcome, with_status, DeviceManager,
    DeviceStatus, DeviceView, StatusUpdate,
};

verus! {

/// Why a request was refused.
#[derive(Debug, Clone, Copy, PartialEq, Eq, Structural)]
pub enum ControlError {
    /// The registry holds no device with the id.
    DeviceNotFound,
    /// The device is not connected, so no file can be copied.
    NotConnected,
    /// The bridge could not be set up.
    Bridge(BridgeError),
}

/// The words that tell a `ControlError` to a person.
pub open spec fn control_message(e: ControlError) -> Seq<char> {
    match e {
        ControlError::DeviceNotFound => "Device not found"@,
        ControlError::NotConnected => "Device not connected"@,
        ControlError::Bridge(b) => crate::bridge::error_message(b),
    }
}

impl ControlError {
    /// The error in words.
    pub fn message(&self) -> (m: &'static str)
        ensures
            m@ == control_message(*self),
    {
        match self {
            ControlError::DeviceNotFound => "Device not found",
            ControlError::NotConnected => "Device not connected",
            ControlError::Bridge(b) => b.message(),
        }
    }
}

/// The registry, the port table and the answer after the bridging tool
/// ended with `outcome` for the device `id`, at the time `now`. Where the
/// tool did well and the device holds a port, the binding stays and the
/// device is pairing from now on; the answer says whether the registry
/// knows the device. Else the port is released and the registry stays.
pub open spec fn connect_finished(
    registry: Seq<DeviceView>,
    bridge: CoordinatorView,
    id: Seq<char>,
    outcome: ToolOutcome,
    now: u64,
) -> (Seq<DeviceView>, CoordinatorView, Result<bool, BridgeError>) {
    if outcome == ToolOutcome::Done && is_bound(bridge.bindings, id) {
        (with_status(registry, id, DeviceStatus::Pairing, now), bridge, Ok(has_id(registry, id)))
    } else {
        (
            registry,
            CoordinatorView {
                first_port: bridge.first_port,
                last_port: bridge.last_port,
                bindings: released(bridge.bindings, id),
            },
            Err(failure_of(outcome)),
        )
    }
}

/// The registry and the answer after a copy of a file was asked for the
/// device `id` at the time `now`: only a connected device can sync.
pub open spec fn transfer_begun(registry: Seq<DeviceView>, id: Seq<char>, now: u64) -> (
    Seq<DeviceView>,
    Result<(), ControlError>,
) {
    (
        with_status(registry, id, DeviceStatus::Syncing, now),
        match status_outcome(registry, id, DeviceStatus::Syncing) {
            StatusUpdate::Applied => Ok(()),
            StatusUpdate::Rejected => Err(ControlError::NotConnected),
            StatusUpdate::UnknownDevice => Err(ControlError::DeviceNotFound),
        },
    )
}

/// The registry and the answer after the copy for the device `id` ended
/// with `outcome` at the time `now`: a device that is still syncing is
/// connected again, whether the copy did well or not; any other device
/// stays as it is.
pub open spec fn transfer_finished(
    registry: Seq<DeviceView>,
    id: Seq<char>,
    outcome: ToolOutcome,
    now: u64,
) -> (Seq<DeviceView>, Result<(), BridgeError>) {
    (
        match lookup(registry, id) {
            Some(d) => if d.status == DeviceStatus::Syncing {
                with_status(registry, id, DeviceStatus::Connected, now)
            } else {
                registry
            },
            None => registry,
        },
        result_of(outcome),
    )
}

/// Begins to connect the device `device_id`: reserves the local port that
/// the bridging tool is then to forward. Fails, and changes nothing, where
/// the registry does not know the device, where the device holds a port
/// already, or where no port is free.
pub fn begin_connect(registry: &DeviceManager, bridge: &mut BridgeCoordinator, device_id: &str) -> (r:
    Result<u16, ControlError>)
    ensures
        bindings_ok(final(bridge)@),
        final(bridge)@.first_port == old(bridge)@.first_port,
        final(bridge)@.last_port == old(bridge)@.last_port,
        match r {
            Ok(port) => {
                &&& has_id(registry@, device_id@)
                &&& !is_bound(old(bridge)@.bindings, device_id@)
                &&& is_lowest_free(old(bridge)@, port)
                &&& final(bridge)@.bindings == old(bridge)@.bindings.push(
                    BindingView { device_id: device_id@, local_port: port },
                )
            },
            Err(e) => {
                &&& final(bridge)@ == old(bridge)@
                &&& e == if has_id(registry@, device_id@) {
                    ControlError::Bridge(BridgeError::AlreadyBound)
                } else {
                    ControlError::DeviceNotFound
                }
                &&& has_id(registry@, device_id@) ==> is_bound(old(bridge)@.bindings, device_id@)
                    || pool_exhausted(old(bridge)@)
            },
        },
{
    proof {
        use_type_invariant(&*bridge);
        bridge.lemma_well_formed();
    }
    if !registry.contains(device_id) {
        return Err(ControlError::DeviceNotFound);
    }
    match bridge.reserve(device_id) {
        Ok(port) => Ok(port),
        Err(e) => Err(ControlError::Bridge(e)),
    }
}

/// Takes note, at the time `now`, of how the bridging tool ended for the
/// device `device_id`.
pub fn finish_connect_at(
    registry: &mut DeviceManager,
    bridge: &mut BridgeCoordinator,
    device_id: &str,
    outcome: ToolOutcome,
    now: u64,
) -> (r: Result<bool, BridgeError>)
    ensures
        (final(registry)@, final(bridge)@, r) == connect_finished(
            old(registry)@,
            old(bridge)@,
            device_id@,
            outcome,
            now,
        ),
        ids_distinct(final(registry)@),
        bindings_ok(final(bridge)@),
{
    proof {
        use_type_invariant(&*registry);
        registry.lemma_well_formed();
    }
    match bridge.complete(device_id, outcome) {
        Ok(_) => {
            let moved = registry.try_update_status(device_id, DeviceStatus::Pairing, now);
            Ok(moved != StatusUpdate::UnknownDevice)
        },
        Err(e) => Err(e),
    }
}

/// Takes note of how the bridging tool ended for the device `device_id`,
/// at the time of the call.
pub fn finish_connect(
    registry: &mut DeviceManager,
    bridge: &mut BridgeCoordinator,
    device_id: &str,
    outcome: ToolOutcome,
) -> (r: Result<bool, BridgeError>)
    ensures
        exists|now: u64|
            (final(registry)@, final(bridge)@, r) == #[trigger] connect_finished(
                old(registry)@,
                old(bridge)@,
                device_id@,
                outcome,
                now,
            ),
        ids_distinct(final(registry)@),
        bindings_ok(final(bridge)@),
{
    let now = clock_seconds();
    finish_connect_at(registry, bridge, device_id, outcome, now)
}

/// Begins to disconnect the device `device_id`: releases its port and
/// returns it, so that its forwarding can be removed. A device without a
/// port has none to remove. Fails, and changes nothing, where the registry
/// does not know the device.
pub fn begin_disconnect(registry: &DeviceManager, bridge: &mut BridgeCoordinator, device_id: &str) -> (r:
    Result<Option<u16>, ControlError>)
    ensures
        bindings_ok(final(bridge)@),
        final(bridge)@.first_port == old(bridge)@.first_port,
        final(bridge)@.last_port == old(bridge)@.last_port,
        has_id(registry@, device_id@) ==> {
            &&& r == Ok::<Option<u16>, ControlError>(port_of(old(bridge)@.bindings, device_id@))
            &&& final(bridge)@.bindings == released(old(bridge)@.bindings, device_id@)
        },
        !has_id(registry@, device_id@) ==> {
            &&& r == Err::<Option<u16>, ControlError>(ControlError::DeviceNotFound)
            &&& final(bridge)@ == old(bridge)@
        },
{
    proof {
        use_type_invariant(&*bridge);
        bridge.lemma_well_formed();
    }
    if !registry.contains(device_id) {
        return Err(ControlError::DeviceNotFound);
    }
    Ok(bridge.disconnect(device_id))
}

/// Begins a copy of a file to or from the device `device_id`, at the time
/// `now`: the device is syncing while the copy runs.
pub fn begin_transfer_at(registry: &mut DeviceManager, device_id: &str, now: u64) -> (r: Result<
    (),
    ControlError,
>)
    ensures
        (final(registry)@, r) == transfer_begun(old(registry)@, device_id@, now),
        ids_distinct(final(registry)@),
{
    match registry.try_update_status(device_id, DeviceStatus::Syncing, now) {
        StatusUpdate::Applied => Ok(()),
        StatusUpdate::Rejected => Err(ControlError::NotConnected),
        StatusUpdate::UnknownDevice => Err(ControlError::DeviceNotFound),
    }
}

/// Begins a copy of a file to or from the device `device_id`, at the time
/// of the call.
pub fn begin_transfer(registry: &mut DeviceManager, device_id: &str) -> (r: Result<(), ControlError>)
    ensures
        exists|now: u64|
            (final(registry)@, r) == #[trigger] transfer_begun(old(registry)@, device_id@, now),
        ids_distinct(final(registry)@),
{
    let now = clock_seconds();
    begin_transfer_at(registry, device_id, now)
}

/// Takes note, at the time `now`, of how the copy for the device
/// `device_id` ended.
pub fn finish_transfer_at(
    registry: &mut DeviceManager,
    device_id: &str,
    outcome: ToolOutcome,
    now: u64,
) -> (r: Result<(), BridgeError>)
    ensures
        (final(registry)@, r) == transfer_finished(old(registry)@, device_id@, outcome, now),
        ids_distinct(final(registry)@),
{
    proof {
        use_type_invariant(&*registry);
        registry.lemma_well_formed();
    }
    let syncing = match registry.get_device(device_id) {
        Some(d) => d.status == DeviceStatus::Syncing,
        None => false,
    };
    if syncing {
        registry.update_device_status_at(device_id, DeviceStatus::Connected, now);
    }
    outcome.result()
}

/// Takes note of how the copy for the device `device_id` ended, at the
/// time of the call.
pub fn finish_transfer(registry: &mut DeviceManager, device_id: &str, outcome: ToolOutcome) -> (r:
    Result<(), BridgeError>)
    ensures
        exists|now: u64|
            (final(registry)@, r) == #[trigger] transfer_finished(
                old(registry)@,
                device_id@,
                outcome,
                now,
            ),
        ids_distinct(final(registry)@),
{
    let now = clock_seconds();
    finish_transfer_at(registry, device_id, outcome, now)
}

} // verus!
