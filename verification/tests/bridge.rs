use soc_analyzer::bridge::{BridgeCoordinator, BridgeError, ConnectionHandle, ToolOutcome};

#[test]
fn ports_are_given_lowest_first() {
    let mut c = BridgeCoordinator::new(9000, 9002);
    assert_eq!(c.reserve("a"), Ok(9000));
    assert_eq!(c.reserve("b"), Ok(9001));
    assert_eq!(c.reserve("c"), Ok(9002));
    assert_eq!(c.local_port("a"), Some(9000));
    assert_eq!(c.local_port("b"), Some(9001));
    assert_eq!(c.local_port("c"), Some(9002));
    assert_eq!(c.local_port("d"), None);
}

#[test]
fn a_full_pool_refuses() {
    let mut c = BridgeCoordinator::new(9000, 9001);
    assert_eq!(c.reserve("a"), Ok(9000));
    assert_eq!(c.reserve("b"), Ok(9001));
    assert_eq!(c.reserve("c"), Err(BridgeError::AlreadyBound));
    assert_eq!(c.local_port("c"), None);
    assert_eq!(c.disconnect("a"), Some(9000));
    assert_eq!(c.reserve("c"), Ok(9000));
}

#[test]
fn an_empty_pool_refuses() {
    let mut c = BridgeCoordinator::new(9001, 9000);
    assert_eq!(c.reserve("a"), Err(BridgeError::AlreadyBound));
    assert_eq!(c.local_port("a"), None);
}

#[test]
fn a_pool_of_one_port_at_the_top_of_the_range() {
    let mut c = BridgeCoordinator::new(65535, 65535);
    assert_eq!(c.reserve("a"), Ok(65535));
    assert_eq!(c.reserve("b"), Err(BridgeError::AlreadyBound));
    let mut c = BridgeCoordinator::new(0, 0);
    assert_eq!(c.reserve("a"), Ok(0));
}

#[test]
fn a_device_holds_one_port_only() {
    let mut c = BridgeCoordinator::new(9000, 9010);
    assert_eq!(c.reserve("a"), Ok(9000));
    assert_eq!(c.reserve("a"), Err(BridgeError::AlreadyBound));
    assert_eq!(c.local_port("a"), Some(9000));
    assert_eq!(c.reserve("b"), Ok(9001));
}

#[test]
fn released_ports_are_given_again() {
    let mut c = BridgeCoordinator::new(9000, 9010);
    assert_eq!(c.reserve("a"), Ok(9000));
    assert_eq!(c.reserve("b"), Ok(9001));
    assert_eq!(c.reserve("c"), Ok(9002));
    assert_eq!(c.disconnect("b"), Some(9001));
    assert_eq!(c.local_port("b"), None);
    assert_eq!(c.reserve("d"), Ok(9001));
    assert_eq!(c.reserve("b"), Ok(9003));
}

#[test]
fn disconnect_twice_does_no_harm() {
    let mut c = BridgeCoordinator::new(9000, 9010);
    assert_eq!(c.disconnect("a"), None);
    assert_eq!(c.reserve("a"), Ok(9000));
    assert_eq!(c.disconnect("a"), Some(9000));
    assert_eq!(c.disconnect("a"), None);
    assert_eq!(c.disconnect("a"), None);
    assert_eq!(c.reserve("a"), Ok(9000));
}

#[test]
fn success_keeps_the_binding() {
    let mut c = BridgeCoordinator::new(9000, 9010);
    let port = c.reserve("a").unwrap();
    assert_eq!(
        c.complete("a", ToolOutcome::Done),
        Ok(ConnectionHandle { device_id: "a".to_string(), local_port: port })
    );
    assert_eq!(c.local_port("a"), Some(9000));
    assert_eq!(c.reserve("a"), Err(BridgeError::AlreadyBound));
}

#[test]
fn failure_releases_the_port() {
    let mut c = BridgeCoordinator::new(9000, 9010);
    c.reserve("a").unwrap();
    assert_eq!(c.complete("a", ToolOutcome::DeviceUnreachable), Err(BridgeError::Unreachable));
    assert_eq!(c.local_port("a"), None);
    c.reserve("b").unwrap();
    assert_eq!(c.local_port("b"), Some(9000));
    assert_eq!(c.complete("b", ToolOutcome::Failed), Err(BridgeError::ExternalToolFailure));
    assert_eq!(c.local_port("b"), None);
    assert_eq!(c.reserve("c"), Ok(9000));
}

#[test]
fn failure_of_one_device_leaves_the_others() {
    let mut c = BridgeCoordinator::new(9000, 9010);
    c.reserve("a").unwrap();
    c.reserve("b").unwrap();
    c.complete("a", ToolOutcome::Done).unwrap();
    assert_eq!(c.complete("b", ToolOutcome::Failed), Err(BridgeError::ExternalToolFailure));
    assert_eq!(c.local_port("a"), Some(9000));
    assert_eq!(c.local_port("b"), None);
}

#[test]
fn completing_without_a_reservation_fails() {
    let mut c = BridgeCoordinator::new(9000, 9010);
    assert_eq!(c.complete("a", ToolOutcome::Done), Err(BridgeError::Unreachable));
    assert_eq!(c.complete("a", ToolOutcome::Failed), Err(BridgeError::ExternalToolFailure));
    assert_eq!(c.complete("a", ToolOutcome::DeviceUnreachable), Err(BridgeError::Unreachable));
    assert_eq!(c.local_port("a"), None);
}

#[test]
fn no_two_devices_share_a_port() {
    let mut c = BridgeCoordinator::new(9000, 9004);
    let names = ["a", "b", "c", "d", "e", "f", "g"];
    let mut seed: u32 = 4242;
    for _ in 0..3000 {
        seed = seed.wrapping_mul(1103515245).wrapping_add(12345);
        let name = names[((seed >> 16) % 7) as usize];
        match (seed >> 8) % 3 {
            0 => {
                let _ = c.reserve(name);
            }
            1 => {
                let _ = c.disconnect(name);
            }
            _ => {
                let outcome = match (seed >> 4) % 3 {
                    0 => ToolOutcome::Done,
                    1 => ToolOutcome::DeviceUnreachable,
                    _ => ToolOutcome::Failed,
                };
                let _ = c.complete(name, outcome);
            }
        }
        let mut held: Vec<u16> = names.iter().filter_map(|n| c.local_port(n)).collect();
        let total = held.len();
        held.sort();
        held.dedup();
        assert_eq!(held.len(), total);
        assert!(held.iter().all(|p| (9000..=9004).contains(p)));
    }
}

#[test]
fn runs_of_the_tool_are_classified() {
    assert_eq!(ToolOutcome::from_run(true, true), ToolOutcome::Done);
    assert_eq!(ToolOutcome::from_run(true, false), ToolOutcome::DeviceUnreachable);
    assert_eq!(ToolOutcome::from_run(false, false), ToolOutcome::Failed);
    assert_eq!(ToolOutcome::from_run(false, true), ToolOutcome::Failed);
}

#[test]
fn bridge_errors_have_words() {
    assert_eq!(BridgeError::Unreachable.message(), "device unreachable");
    assert_eq!(BridgeError::AlreadyBound.message(), "device or port already bound");
    assert_eq!(BridgeError::ExternalToolFailure.message(), "bridging tool failed");
}
