use broadcast_relay::{Address, Coordinator, DropReason, Event, Outcome, RATE_LIMIT_WINDOW_MS};

fn at(port: u16) -> Address {
    Address::v4(1, 2, 3, 4, port)
}

fn connect(c: &mut Coordinator<u32>, port: u16, endpoint: u32) -> Outcome {
    c.handle_event(Event::Connected { address: at(port), endpoint }, 10_000)
}

fn message(c: &mut Coordinator<u32>, port: u16, payload: &[u8]) -> Outcome {
    c.handle_event(
        Event::MessageReceived { address: at(port), payload: payload.to_vec() },
        20_000,
    )
}

/// The records of the registry, in its order, each as address, endpoint and
/// last message time.
fn snapshot(c: &Coordinator<u32>) -> Vec<(Address, u32, i128)> {
    c.registry()
        .addresses()
        .iter()
        .map(|a| {
            let record = c.registry().get(a).unwrap();
            (record.address, record.endpoint, record.last_message_time)
        })
        .collect()
}

#[test]
fn new_coordinator_has_no_clients() {
    let c: Coordinator<u32> = Coordinator::new();
    assert_eq!(c.registry().len(), 0);
    assert_eq!(c.registry().addresses(), Vec::<Address>::new());
    assert_eq!(c.recipients(&at(1)), Vec::<Address>::new());
}

#[test]
fn connect_enters_the_client() {
    let mut c: Coordinator<u32> = Coordinator::new();
    let outcome = connect(&mut c, 1000, 7);
    assert_eq!(outcome, Outcome::Registered { address: at(1000), replaced: false });
    assert!(c.registry().contains(&at(1000)));
    assert_eq!(c.registry().len(), 1);
    let record = c.registry().get(&at(1000)).unwrap();
    assert_eq!(record.address, at(1000));
    assert_eq!(record.endpoint, 7);
}

#[test]
fn connect_sets_last_message_time_two_windows_back() {
    let mut c: Coordinator<u32> = Coordinator::new();
    c.handle_event(Event::Connected { address: at(1), endpoint: 0 }, 10_000);
    assert_eq!(c.registry().get(&at(1)).unwrap().last_message_time, 8_000);
    assert_eq!(RATE_LIMIT_WINDOW_MS, 1000);

    c.handle_event(Event::Connected { address: at(2), endpoint: 0 }, 0);
    assert_eq!(c.registry().get(&at(2)).unwrap().last_message_time, -2_000);

    c.handle_event(Event::Connected { address: at(3), endpoint: 0 }, i64::MIN);
    assert_eq!(
        c.registry().get(&at(3)).unwrap().last_message_time,
        i64::MIN as i128 - 2_000
    );

    c.handle_event(Event::Connected { address: at(4), endpoint: 0 }, i64::MAX);
    assert_eq!(
        c.registry().get(&at(4)).unwrap().last_message_time,
        i64::MAX as i128 - 2_000
    );
}

#[test]
fn connect_under_a_known_address_overwrites() {
    let mut c: Coordinator<u32> = Coordinator::new();
    connect(&mut c, 1000, 1);
    connect(&mut c, 2000, 2);
    let outcome = c.handle_event(Event::Connected { address: at(1000), endpoint: 9 }, 50_000);
    assert_eq!(outcome, Outcome::Registered { address: at(1000), replaced: true });
    assert_eq!(c.registry().len(), 2);
    assert_eq!(c.registry().addresses(), vec![at(1000), at(2000)]);
    let record = c.registry().get(&at(1000)).unwrap();
    assert_eq!(record.endpoint, 9);
    assert_eq!(record.last_message_time, 48_000);
    assert_eq!(c.registry().get(&at(2000)).unwrap().endpoint, 2);
}

#[test]
fn disconnect_takes_the_client_out() {
    let mut c: Coordinator<u32> = Coordinator::new();
    connect(&mut c, 1000, 1);
    connect(&mut c, 2000, 2);
    let outcome = c.handle_event(Event::Disconnected { address: at(1000) }, 0);
    assert_eq!(outcome, Outcome::Unregistered { address: at(1000), was_present: true });
    assert!(!c.registry().contains(&at(1000)));
    assert!(c.registry().get(&at(1000)).is_none());
    assert_eq!(c.registry().addresses(), vec![at(2000)]);
}

#[test]
fn disconnect_of_absent_address_changes_nothing() {
    let mut c: Coordinator<u32> = Coordinator::new();
    let outcome = c.handle_event(Event::Disconnected { address: at(1) }, 0);
    assert_eq!(outcome, Outcome::Unregistered { address: at(1), was_present: false });
    assert_eq!(c.registry().len(), 0);

    connect(&mut c, 1000, 1);
    connect(&mut c, 2000, 2);
    let before = snapshot(&c);
    let outcome = c.handle_event(Event::Disconnected { address: at(3000) }, 0);
    assert_eq!(outcome, Outcome::Unregistered { address: at(3000), was_present: false });
    assert_eq!(snapshot(&c), before);
    assert_eq!(before, vec![(at(1000), 1, 8_000), (at(2000), 2, 8_000)]);
}

#[test]
fn disconnect_twice_is_as_once() {
    let mut c: Coordinator<u32> = Coordinator::new();
    connect(&mut c, 1000, 1);
    connect(&mut c, 2000, 2);
    assert!(c.disconnect(&at(1000)));
    let once = c.registry().addresses();
    assert!(!c.disconnect(&at(1000)));
    assert_eq!(c.registry().addresses(), once);
    assert_eq!(once, vec![at(2000)]);
}

#[test]
fn registry_holds_connects_without_later_disconnect() {
    let mut c: Coordinator<u32> = Coordinator::new();
    connect(&mut c, 1, 0);
    connect(&mut c, 2, 0);
    connect(&mut c, 3, 0);
    c.handle_event(Event::Disconnected { address: at(2) }, 0);
    connect(&mut c, 4, 0);
    c.handle_event(Event::Disconnected { address: at(1) }, 0);
    connect(&mut c, 2, 0);
    c.handle_event(Event::Disconnected { address: at(4) }, 0);
    c.handle_event(Event::Disconnected { address: at(5) }, 0);
    connect(&mut c, 1, 0);
    c.handle_event(Event::Disconnected { address: at(1) }, 0);
    let mut ports: Vec<u16> = c.registry().addresses().iter().map(|a| a.port).collect();
    ports.sort();
    assert_eq!(ports, vec![2, 3]);
    assert_eq!(c.registry().len(), 2);
    for port in [1u16, 4, 5] {
        assert!(!c.registry().contains(&at(port)));
    }
}

#[test]
fn message_goes_to_every_client_but_the_sender() {
    let mut c: Coordinator<u32> = Coordinator::new();
    connect(&mut c, 1000, 1);
    connect(&mut c, 2000, 2);
    connect(&mut c, 3000, 3);
    let outcome = message(&mut c, 1000, b"hi");
    assert_eq!(
        outcome,
        Outcome::Relay {
            sender: at(1000),
            payload: b"hi".to_vec(),
            recipients: vec![at(2000), at(3000)],
        }
    );
    let outcome = message(&mut c, 2000, b"yo");
    assert_eq!(
        outcome,
        Outcome::Relay {
            sender: at(2000),
            payload: b"yo".to_vec(),
            recipients: vec![at(1000), at(3000)],
        }
    );
    assert_eq!(c.recipients(&at(3000)), vec![at(1000), at(2000)]);
}

#[test]
fn message_leaves_the_registry_as_it_is() {
    let mut c: Coordinator<u32> = Coordinator::new();
    connect(&mut c, 1000, 1);
    connect(&mut c, 2000, 2);
    message(&mut c, 1000, b"hi");
    message(&mut c, 1000, &[0xff]);
    message(&mut c, 9, b"hi");
    assert_eq!(c.registry().addresses(), vec![at(1000), at(2000)]);
    assert_eq!(c.registry().get(&at(1000)).unwrap().last_message_time, 8_000);
    assert_eq!(c.registry().get(&at(1000)).unwrap().endpoint, 1);
    assert_eq!(c.registry().get(&at(2000)).unwrap().last_message_time, 8_000);
}

#[test]
fn message_of_the_only_client_goes_to_nobody() {
    let mut c: Coordinator<u32> = Coordinator::new();
    connect(&mut c, 1000, 1);
    let outcome = message(&mut c, 1000, b"anyone?");
    assert_eq!(
        outcome,
        Outcome::Relay { sender: at(1000), payload: b"anyone?".to_vec(), recipients: vec![] }
    );
}

#[test]
fn message_from_unknown_sender_is_dropped() {
    let mut c: Coordinator<u32> = Coordinator::new();
    connect(&mut c, 1000, 1);
    let outcome = message(&mut c, 2000, b"hi");
    assert_eq!(
        outcome,
        Outcome::Dropped { sender: at(2000), reason: DropReason::UnknownSender }
    );
    let outcome = message(&mut c, 2000, &[0x80]);
    assert_eq!(
        outcome,
        Outcome::Dropped { sender: at(2000), reason: DropReason::UnknownSender }
    );
}

#[test]
fn message_after_disconnect_is_dropped() {
    let mut c: Coordinator<u32> = Coordinator::new();
    connect(&mut c, 1000, 1);
    connect(&mut c, 2000, 2);
    c.handle_event(Event::Disconnected { address: at(1000) }, 0);
    let outcome = message(&mut c, 1000, b"late");
    assert_eq!(
        outcome,
        Outcome::Dropped { sender: at(1000), reason: DropReason::UnknownSender }
    );
}

#[test]
fn lone_continuation_byte_is_not_relayed() {
    let mut c: Coordinator<u32> = Coordinator::new();
    connect(&mut c, 1000, 1);
    connect(&mut c, 2000, 2);
    let outcome = message(&mut c, 1000, &[0x80]);
    assert_eq!(
        outcome,
        Outcome::Dropped { sender: at(1000), reason: DropReason::MalformedText }
    );
}

#[test]
fn malformed_payloads_are_not_relayed() {
    let malformed: Vec<Vec<u8>> = vec![
        vec![0xff],
        vec![b'a', 0x80, b'b'],
        vec![0xc0, 0x80],
        vec![0xc1, 0xbf],
        vec![0xe0, 0x80, 0x80],
        vec![0xed, 0xa0, 0x80],
        vec![0xf0, 0x80, 0x80, 0x80],
        vec![0xf4, 0x90, 0x80, 0x80],
        vec![0xf5, 0x80, 0x80, 0x80],
        vec![0xe2, 0x82],
        vec![b'o', b'k', 0xc3],
    ];
    for payload in malformed {
        let mut c: Coordinator<u32> = Coordinator::new();
        connect(&mut c, 1000, 1);
        connect(&mut c, 2000, 2);
        let outcome = message(&mut c, 1000, &payload);
        assert_eq!(
            outcome,
            Outcome::Dropped { sender: at(1000), reason: DropReason::MalformedText },
            "{:?}",
            payload
        );
    }
}

#[test]
fn well_formed_payloads_are_relayed_as_they_are() {
    let texts: Vec<Vec<u8>> = vec![
        vec![],
        b"hello".to_vec(),
        "h\u{e9}llo \u{20ac} \u{1f600}".as_bytes().to_vec(),
        vec![0x00],
        vec![0x7f],
        vec![0xc2, 0x80],
        vec![0xdf, 0xbf],
        vec![0xe0, 0xa0, 0x80],
        vec![0xed, 0x9f, 0xbf],
        vec![0xee, 0x80, 0x80],
        vec![0xf0, 0x90, 0x80, 0x80],
        vec![0xf4, 0x8f, 0xbf, 0xbf],
        b"line one\nline two\r\n".to_vec(),
    ];
    for payload in texts {
        let mut c: Coordinator<u32> = Coordinator::new();
        connect(&mut c, 1000, 1);
        connect(&mut c, 2000, 2);
        let outcome = message(&mut c, 2000, &payload);
        assert_eq!(
            outcome,
            Outcome::Relay {
                sender: at(2000),
                payload: payload.clone(),
                recipients: vec![at(1000)],
            },
            "{:?}",
            payload
        );
    }
}

#[test]
fn relay_order_is_the_order_of_first_connect() {
    let mut c: Coordinator<u32> = Coordinator::new();
    connect(&mut c, 3, 0);
    connect(&mut c, 1, 0);
    connect(&mut c, 2, 0);
    assert_eq!(c.recipients(&at(9)), vec![at(3), at(1), at(2)]);
    c.handle_event(Event::Disconnected { address: at(3) }, 0);
    connect(&mut c, 3, 0);
    assert_eq!(c.recipients(&at(9)), vec![at(1), at(2), at(3)]);
    connect(&mut c, 1, 5);
    assert_eq!(c.recipients(&at(2)), vec![at(1), at(3)]);
}

#[test]
fn hosts_and_ports_tell_clients_apart() {
    let mut c: Coordinator<u32> = Coordinator::new();
    let a = Address::v4(10, 0, 0, 1, 5000);
    let b = Address::v4(10, 0, 0, 2, 5000);
    let d = Address::v6(1, 5000);
    let e = Address::v6(0x0a00_0001, 5000);
    for (i, address) in [a, b, d, e].into_iter().enumerate() {
        c.handle_event(Event::Connected { address, endpoint: i as u32 }, 0);
    }
    assert_eq!(c.registry().len(), 4);
    let outcome = c.handle_event(
        Event::MessageReceived { address: e, payload: b"x".to_vec() },
        0,
    );
    assert_eq!(
        outcome,
        Outcome::Relay { sender: e, payload: b"x".to_vec(), recipients: vec![a, b, d] }
    );
}
