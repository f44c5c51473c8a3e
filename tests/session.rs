use qmk_hid_host::config::{get_config, Config, Device};
use qmk_hid_host::keyboard::{Connector, HidEntry, Keyboard, LinkAction, LinkEvent};
use qmk_hid_host::providers::time::TimeProvider;
use qmk_hid_host::providers::volume::VolumeProvider;
use qmk_hid_host::providers::Provider;
use qmk_hid_host::supervisor::{Supervisor, SupervisorAction};

#[test]
fn device_connects_fails_and_comes_back() {
    let config = get_config(Some(Config {
        devices: vec![Device { name: None, product_id: 0x0844, usage: Some(0x61), usage_page: Some(0xff60) }],
        layouts: vec!["en".to_string()],
        reconnect_delay: Some(1000),
    }));
    let keyboard = Keyboard::new(&config.devices[0], config.reconnect_delay_ms());
    let mut connector = Connector::new(&keyboard, true);
    let mut supervisor = Supervisor::new();
    let mut time = TimeProvider::new();
    let mut volume = VolumeProvider::new();
    let list = [HidEntry { product_id: 0x0844, usage: 0x61, usage_page: 0xff60 }];

    // t = 0: the device is there.
    assert_eq!(keyboard.find_device(&list), Some(0));
    assert_eq!(connector.on_event(LinkEvent::Opened), LinkAction::Attach { reader: true });
    assert_eq!(supervisor.on_connectivity(true), SupervisorAction::StartAll);
    assert_eq!(supervisor.count(), 1);
    time.start();
    volume.start();
    assert_eq!(time.poll((9, 15)), vec![vec![0xAA, 9, 15]]);
    assert_eq!(volume.poll(Some(40)), vec![vec![0xAB, 40]]);

    // t = 5 s: a write fails.
    assert_eq!(connector.on_event(LinkEvent::IoFailed), LinkAction::Detach { delay_ms: 1000 });
    assert_eq!(supervisor.on_connectivity(false), SupervisorAction::StopAll);
    assert_eq!(supervisor.count(), 0);
    time.stop();
    volume.stop();
    assert!(time.poll((9, 15)).is_empty());

    // t = 6 s: the device is back, and the full state is sent again.
    assert_eq!(keyboard.find_device(&list), Some(0));
    assert_eq!(connector.on_event(LinkEvent::Opened), LinkAction::Attach { reader: true });
    assert_eq!(supervisor.on_connectivity(true), SupervisorAction::StartAll);
    time.start();
    volume.start();
    assert_eq!(time.poll((9, 15)), vec![vec![0xAA, 9, 15]]);
    assert_eq!(volume.poll(Some(40)), vec![vec![0xAB, 40]]);
}

#[test]
fn joining_device_gets_every_value_again() {
    let mut supervisor = Supervisor::new();
    let mut time = TimeProvider::new();
    let mut volume = VolumeProvider::new();
    assert_eq!(supervisor.on_connectivity(true), SupervisorAction::StartAll);
    time.start();
    volume.start();
    assert_eq!(time.poll((8, 0)), vec![vec![0xAA, 8, 0]]);
    assert_eq!(volume.poll(Some(70)), vec![vec![0xAB, 70]]);
    assert!(time.poll((8, 0)).is_empty());

    match supervisor.on_connectivity(true) {
        SupervisorAction::Restart { settle_ms } => assert_eq!(settle_ms, 200),
        other => panic!("expected a restart, got {:?}", other),
    }
    time.stop();
    volume.stop();
    time.start();
    volume.start();
    assert_eq!(time.poll((8, 0)), vec![vec![0xAA, 8, 0]]);
    assert_eq!(volume.poll(Some(70)), vec![vec![0xAB, 70]]);
}
