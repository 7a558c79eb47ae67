use linux_bt_proxy::listener::{
    discovery_outcome, react, AdapterChange, AddedInterfaces, DiscoveryOutcome, DiscoveryReply,
    ListenerAction, ListenerEvent, Polled,
};
use linux_bt_proxy::startup::{adapter_path, after_lookup, ping_interval, LookupStep};
use linux_bt_proxy::supervisor::{status_text, Supervisor};
use std::collections::HashMap;
use zbus::zvariant::{OwnedValue, Value};

fn owned(value: Value<'_>) -> OwnedValue {
    OwnedValue::try_from(value).unwrap()
}

fn adapter_change(interface: &str, name: &str, value: Value<'_>) -> ListenerEvent {
    ListenerEvent::Adapter(Polled::Message(AdapterChange {
        interface: interface.to_string(),
        changed: HashMap::from([(name.to_string(), owned(value))]),
    }))
}

fn with_address() -> HashMap<String, OwnedValue> {
    HashMap::from([("Address".to_string(), owned(Value::new("00:00:00:00:00:2A")))])
}

#[test]
fn restarts_discovery_when_it_is_off() {
    let event = adapter_change("org.bluez.Adapter1", "Discovering", Value::new(false));
    assert!(matches!(react(event), ListenerAction::StartDiscovery));
}

#[test]
fn leaves_other_changes_to_adapters_alone() {
    for event in [
        adapter_change("org.bluez.Adapter1", "Discovering", Value::new(true)),
        adapter_change("org.bluez.Adapter1", "Discovering", Value::new(0i16)),
        adapter_change("org.bluez.Adapter1", "Powered", Value::new(false)),
        adapter_change("org.bluez.Device1", "Discovering", Value::new(false)),
    ] {
        assert!(matches!(react(event), ListenerAction::Listen));
    }
}

#[test]
fn ended_streams_are_left_alone() {
    for event in [
        ListenerEvent::Adapter(Polled::Closed),
        ListenerEvent::Device(Polled::Closed),
        ListenerEvent::Interfaces(Polled::Closed),
        ListenerEvent::Adapter(Polled::Failed),
    ] {
        assert!(matches!(react(event), ListenerAction::Listen));
    }
}

#[test]
fn errors_end_the_listener() {
    for event in [
        ListenerEvent::Adapter(Polled::Unreadable),
        ListenerEvent::Device(Polled::Failed),
        ListenerEvent::Device(Polled::Unreadable),
        ListenerEvent::Interfaces(Polled::Failed),
        ListenerEvent::Interfaces(Polled::Unreadable),
    ] {
        assert!(matches!(react(event), ListenerAction::Stop));
    }
}

#[test]
fn asks_for_the_properties_of_a_changed_device() {
    let event = ListenerEvent::Device(Polled::Message(Some("/dev_1".to_string())));
    let ListenerAction::Fetch(path) = react(event) else {
        panic!("the properties are asked for");
    };
    assert_eq!(path, "/dev_1");
    assert!(matches!(
        react(ListenerEvent::Device(Polled::Message(None))),
        ListenerAction::Listen
    ));
}

#[test]
fn publishes_what_was_fetched() {
    let event = ListenerEvent::Fetched { path: "/dev_1".to_string(), props: Some(with_address()) };
    let ListenerAction::Publish(made) = react(event) else {
        panic!("the advertisement is published");
    };
    assert_eq!(made.legacy.address, 42);
    assert_eq!(made.raw.address, 42);
}

#[test]
fn devices_do_not_end_the_listener() {
    let event = ListenerEvent::Fetched { path: "/dev_1".to_string(), props: None };
    let ListenerAction::NoProperties(path) = react(event) else {
        panic!("there are no properties");
    };
    assert_eq!(path, "/dev_1");
    let event = ListenerEvent::Fetched { path: "/dev_2".to_string(), props: Some(HashMap::new()) };
    let ListenerAction::NoAdvertisement(path) = react(event) else {
        panic!("there is no advertisement");
    };
    assert_eq!(path, "/dev_2");
}

#[test]
fn publishes_new_devices() {
    let event = ListenerEvent::Interfaces(Polled::Message(AddedInterfaces {
        path: "/dev_3".to_string(),
        interfaces: HashMap::from([("org.bluez.Device1".to_string(), with_address())]),
    }));
    let ListenerAction::Publish(made) = react(event) else {
        panic!("the advertisement is published");
    };
    assert_eq!(made.raw.address, 42);
}

#[test]
fn notes_new_devices_without_an_address() {
    let event = ListenerEvent::Interfaces(Polled::Message(AddedInterfaces {
        path: "/dev_3".to_string(),
        interfaces: HashMap::from([("org.bluez.Device1".to_string(), HashMap::new())]),
    }));
    assert!(matches!(react(event), ListenerAction::NoAdvertisement(path) if path == "/dev_3"));
}

#[test]
fn new_objects_of_other_kinds_are_no_devices() {
    let event = ListenerEvent::Interfaces(Polled::Message(AddedInterfaces {
        path: "/dev_4".to_string(),
        interfaces: HashMap::from([("org.bluez.Battery1".to_string(), with_address())]),
    }));
    assert!(matches!(react(event), ListenerAction::NotADevice(path) if path == "/dev_4"));
}

#[test]
fn discovery_runs_when_it_ran_already() {
    let in_progress = DiscoveryReply::Refused("org.bluez.Error.InProgress".to_string());
    let not_ready = DiscoveryReply::Refused("org.bluez.Error.NotReady".to_string());
    assert_eq!(discovery_outcome(&DiscoveryReply::Accepted), DiscoveryOutcome::Started);
    assert_eq!(discovery_outcome(&in_progress), DiscoveryOutcome::AlreadyRunning);
    assert_eq!(discovery_outcome(&not_ready), DiscoveryOutcome::NotStarted);
    assert_eq!(discovery_outcome(&DiscoveryReply::Failed), DiscoveryOutcome::NotStarted);
}

#[test]
fn the_listener_stops_without_discovery() {
    let in_progress = DiscoveryReply::Refused("org.bluez.Error.InProgress".to_string());
    let not_ready = DiscoveryReply::Refused("org.bluez.Error.NotReady".to_string());
    assert!(matches!(
        react(ListenerEvent::Discovery(DiscoveryReply::Accepted)),
        ListenerAction::Listen
    ));
    assert!(matches!(react(ListenerEvent::Discovery(in_progress)), ListenerAction::Listen));
    assert!(matches!(react(ListenerEvent::Discovery(not_ready)), ListenerAction::Stop));
    assert!(matches!(
        react(ListenerEvent::Discovery(DiscoveryReply::Failed)),
        ListenerAction::Stop
    ));
}

#[test]
fn the_watchdog_is_told_twice_in_each_timeout() {
    assert_eq!(ping_interval(30_000_000_000), 15_000_000_000);
    assert_eq!(ping_interval(7), 3);
    assert_eq!(ping_interval(0), 0);
}

#[test]
fn pauses_double_up_to_the_longest() {
    let mut supervisor = Supervisor::new();
    let pauses: Vec<u64> = (0..8).map(|_| supervisor.listener_stopped(0)).collect();
    assert_eq!(pauses, [1, 2, 4, 8, 16, 30, 30, 30]);
}

#[test]
fn a_healthy_run_starts_the_pauses_over() {
    let mut supervisor = Supervisor::new();
    for _ in 0..6 {
        supervisor.listener_stopped(59);
    }
    assert_eq!(supervisor.listener_stopped(59), 30);
    assert_eq!(supervisor.listener_stopped(60), 1);
    assert_eq!(supervisor.listener_stopped(0), 2);
    assert_eq!(supervisor.listener_stopped(u64::MAX), 1);
}

#[test]
fn the_status_names_the_pause() {
    assert_eq!(status_text(1), "BLE listener down, retrying in 1s");
    assert_eq!(status_text(30), "BLE listener down, retrying in 30s");
    assert_eq!(
        status_text(u64::MAX),
        "BLE listener down, retrying in 18446744073709551615s"
    );
}

#[test]
fn adapters_have_paths() {
    assert_eq!(adapter_path(0), "/org/bluez/hci0");
    assert_eq!(adapter_path(10), "/org/bluez/hci10");
    assert_eq!(adapter_path(65535), "/org/bluez/hci65535");
}

#[test]
fn the_address_is_asked_for_five_times() {
    for attempt in 1..=4 {
        assert_eq!(after_lookup(attempt, None), LookupStep::RetryAfter(2));
    }
    assert_eq!(after_lookup(5, None), LookupStep::GiveUp);
    for attempt in 1..=5 {
        assert_eq!(after_lookup(attempt, Some([attempt as u8; 6])), LookupStep::Found([attempt as u8; 6]));
    }
}
