use soc_analyzer::bridge::{BridgeCoordinator, BridgeError, ToolOutcome};
use soc_analyzer::control::{
    begin_connect, begin_disconnect, begin_transfer, begin_transfer_at, finish_connect,
    finish_connect_at, finish_transfer, finish_transfer_at, ControlError,
};
use soc_analyzer::device::{ConnectedDevice, ConnectionType, DeviceManager, DeviceStatus};

fn device(id: &str, status: DeviceStatus) -> ConnectedDevice {
    ConnectedDevice {
        id: id.to_string(),
        name: "Phone".to_string(),
        model: "Pixel".to_string(),
        soc_name: "tensor".to_string(),
        connection_type: ConnectionType::Usb,
        status,
        ip_address: None,
        port: None,
        last_seen: 10,
    }
}

fn registry_with(id: &str, status: DeviceStatus) -> DeviceManager {
    let mut registry = DeviceManager::new();
    registry.add_device(device(id, status));
    registry
}

#[test]
fn connect_reserves_then_pairs() {
    let mut registry = registry_with("a", DeviceStatus::Disconnected);
    let mut bridge = BridgeCoordinator::new(9000, 9001);
    assert_eq!(begin_connect(&registry, &mut bridge, "a"), Ok(9000));
    assert_eq!(bridge.local_port("a"), Some(9000));
    assert_eq!(registry.get_device("a").unwrap().status, DeviceStatus::Disconnected);
    assert_eq!(finish_connect_at(&mut registry, &mut bridge, "a", ToolOutcome::Done, 20), Ok(true));
    let d = registry.get_device("a").unwrap();
    assert_eq!(d.status, DeviceStatus::Pairing);
    assert_eq!(d.last_seen, 20);
    assert_eq!(bridge.local_port("a"), Some(9000));
}

#[test]
fn connect_of_an_unknown_device_is_refused() {
    let registry = registry_with("a", DeviceStatus::Disconnected);
    let mut bridge = BridgeCoordinator::new(9000, 9001);
    assert_eq!(begin_connect(&registry, &mut bridge, "ghost"), Err(ControlError::DeviceNotFound));
    assert_eq!(bridge.local_port("ghost"), None);
    assert_eq!(begin_connect(&registry, &mut bridge, "a"), Ok(9000));
}

#[test]
fn connect_twice_or_without_a_free_port_is_refused() {
    let mut registry = registry_with("a", DeviceStatus::Disconnected);
    registry.add_device(device("b", DeviceStatus::Disconnected));
    let mut bridge = BridgeCoordinator::new(9000, 9000);
    assert_eq!(begin_connect(&registry, &mut bridge, "a"), Ok(9000));
    assert_eq!(
        begin_connect(&registry, &mut bridge, "a"),
        Err(ControlError::Bridge(BridgeError::AlreadyBound))
    );
    assert_eq!(
        begin_connect(&registry, &mut bridge, "b"),
        Err(ControlError::Bridge(BridgeError::AlreadyBound))
    );
    assert_eq!(bridge.local_port("a"), Some(9000));
    assert_eq!(bridge.local_port("b"), None);
}

#[test]
fn failed_tool_releases_the_port_and_leaves_the_registry() {
    for (outcome, error) in [
        (ToolOutcome::DeviceUnreachable, BridgeError::Unreachable),
        (ToolOutcome::Failed, BridgeError::ExternalToolFailure),
    ] {
        let mut registry = registry_with("a", DeviceStatus::Disconnected);
        let mut bridge = BridgeCoordinator::new(9000, 9001);
        begin_connect(&registry, &mut bridge, "a").unwrap();
        assert_eq!(finish_connect_at(&mut registry, &mut bridge, "a", outcome, 20), Err(error));
        assert_eq!(bridge.local_port("a"), None);
        assert_eq!(registry.get_device("a"), Some(&device("a", DeviceStatus::Disconnected)));
    }
}

#[test]
fn finish_without_a_reserved_port_fails() {
    let mut registry = registry_with("a", DeviceStatus::Disconnected);
    let mut bridge = BridgeCoordinator::new(9000, 9001);
    assert_eq!(
        finish_connect_at(&mut registry, &mut bridge, "a", ToolOutcome::Done, 20),
        Err(BridgeError::Unreachable)
    );
    assert_eq!(registry.get_device("a"), Some(&device("a", DeviceStatus::Disconnected)));
}

#[test]
fn finish_for_a_device_removed_meanwhile_says_so() {
    let mut registry = registry_with("a", DeviceStatus::Disconnected);
    let mut bridge = BridgeCoordinator::new(9000, 9001);
    begin_connect(&registry, &mut bridge, "a").unwrap();
    registry.remove_device("a");
    assert_eq!(finish_connect_at(&mut registry, &mut bridge, "a", ToolOutcome::Done, 20), Ok(false));
    assert!(registry.is_empty());
    assert_eq!(bridge.local_port("a"), Some(9000));
}

#[test]
fn finish_keeps_a_connected_device_connected() {
    let mut registry = registry_with("a", DeviceStatus::Connected);
    let mut bridge = BridgeCoordinator::new(9000, 9001);
    begin_connect(&registry, &mut bridge, "a").unwrap();
    assert_eq!(finish_connect_at(&mut registry, &mut bridge, "a", ToolOutcome::Done, 20), Ok(true));
    assert_eq!(registry.get_device("a"), Some(&device("a", DeviceStatus::Connected)));
}

#[test]
fn finish_connect_with_the_clock() {
    let mut registry = registry_with("a", DeviceStatus::Disconnected);
    let mut bridge = BridgeCoordinator::new(9000, 9001);
    begin_connect(&registry, &mut bridge, "a").unwrap();
    assert_eq!(finish_connect(&mut registry, &mut bridge, "a", ToolOutcome::Done), Ok(true));
    let d = registry.get_device("a").unwrap();
    assert_eq!(d.status, DeviceStatus::Pairing);
    assert!(d.last_seen > 1_600_000_000);
    let mut registry = registry_with("b", DeviceStatus::Disconnected);
    begin_connect(&registry, &mut bridge, "b").unwrap();
    assert_eq!(
        finish_connect(&mut registry, &mut bridge, "b", ToolOutcome::Failed),
        Err(BridgeError::ExternalToolFailure)
    );
    assert_eq!(bridge.local_port("b"), None);
}

#[test]
fn disconnect_releases_the_port_once() {
    let registry = registry_with("a", DeviceStatus::Connected);
    let mut bridge = BridgeCoordinator::new(9000, 9001);
    begin_connect(&registry, &mut bridge, "a").unwrap();
    assert_eq!(begin_disconnect(&registry, &mut bridge, "a"), Ok(Some(9000)));
    assert_eq!(begin_disconnect(&registry, &mut bridge, "a"), Ok(None));
    assert_eq!(bridge.local_port("a"), None);
    assert_eq!(begin_disconnect(&registry, &mut bridge, "ghost"), Err(ControlError::DeviceNotFound));
}

#[test]
fn transfer_makes_a_connected_device_sync_and_connect_again() {
    for outcome in [ToolOutcome::Done, ToolOutcome::DeviceUnreachable, ToolOutcome::Failed] {
        let mut registry = registry_with("a", DeviceStatus::Connected);
        assert_eq!(begin_transfer_at(&mut registry, "a", 30), Ok(()));
        assert_eq!(registry.get_device("a").unwrap().status, DeviceStatus::Syncing);
        assert_eq!(registry.get_device("a").unwrap().last_seen, 30);
        assert_eq!(finish_transfer_at(&mut registry, "a", outcome, 40), outcome.result());
        assert_eq!(registry.get_device("a").unwrap().status, DeviceStatus::Connected);
        assert_eq!(registry.get_device("a").unwrap().last_seen, 40);
    }
}

#[test]
fn transfer_needs_a_connected_device() {
    for status in [DeviceStatus::Disconnected, DeviceStatus::Pairing, DeviceStatus::Syncing] {
        let mut registry = registry_with("a", status);
        assert_eq!(begin_transfer_at(&mut registry, "a", 30), Err(ControlError::NotConnected));
        assert_eq!(registry.get_device("a"), Some(&device("a", status)));
    }
    let mut registry = registry_with("a", DeviceStatus::Connected);
    assert_eq!(begin_transfer_at(&mut registry, "ghost", 30), Err(ControlError::DeviceNotFound));
    assert_eq!(begin_transfer(&mut registry, "ghost"), Err(ControlError::DeviceNotFound));
    assert_eq!(registry.len(), 1);
}

#[test]
fn end_of_a_transfer_moves_only_a_syncing_device() {
    for status in [DeviceStatus::Disconnected, DeviceStatus::Pairing, DeviceStatus::Connected] {
        let mut registry = registry_with("a", status);
        assert_eq!(finish_transfer_at(&mut registry, "a", ToolOutcome::Done, 40), Ok(()));
        assert_eq!(registry.get_device("a"), Some(&device("a", status)));
    }
    let mut registry = DeviceManager::new();
    assert_eq!(
        finish_transfer_at(&mut registry, "ghost", ToolOutcome::Failed, 40),
        Err(BridgeError::ExternalToolFailure)
    );
    assert!(registry.is_empty());
}

#[test]
fn transfer_with_the_clock() {
    let mut registry = registry_with("a", DeviceStatus::Connected);
    assert_eq!(begin_transfer(&mut registry, "a"), Ok(()));
    assert_eq!(registry.get_device("a").unwrap().status, DeviceStatus::Syncing);
    assert_eq!(
        finish_transfer(&mut registry, "a", ToolOutcome::DeviceUnreachable),
        Err(BridgeError::Unreachable)
    );
    let d = registry.get_device("a").unwrap();
    assert_eq!(d.status, DeviceStatus::Connected);
    assert!(d.last_seen > 1_600_000_000);
}

#[test]
fn runs_become_results() {
    assert_eq!(ToolOutcome::Done.result(), Ok(()));
    assert_eq!(ToolOutcome::DeviceUnreachable.result(), Err(BridgeError::Unreachable));
    assert_eq!(ToolOutcome::Failed.result(), Err(BridgeError::ExternalToolFailure));
}

#[test]
fn control_errors_have_words() {
    assert_eq!(ControlError::DeviceNotFound.message(), "Device not found");
    assert_eq!(ControlError::NotConnected.message(), "Device not connected");
    assert_eq!(
        ControlError::Bridge(BridgeError::AlreadyBound).message(),
        BridgeError::AlreadyBound.message()
    );
}
