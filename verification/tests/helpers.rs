use ncomm::{
    add_to_whitelist, classify_datagram, greeting_message, has_expired, keep_if_alive, latest,
    next_interrupt_flag, pool_size, position_of_address, position_of_key, read_be,
    remove_from_whitelist, resolve_request, to_log_nanos, whitelist_admits, write_be,
    DatagramKind, MinimalPublisher, PackingError, Subscriber, UdpClientServerError,
};

#[test]
fn interrupt_flag_takes_received_value() {
    assert!(next_interrupt_flag(false, Some(true)));
    assert!(!next_interrupt_flag(true, Some(false)));
    assert!(next_interrupt_flag(true, None));
    assert!(!next_interrupt_flag(false, None));
}

#[test]
fn latest_keeps_newest() {
    assert_eq!(latest(Some(1), vec![2, 3, 4]), Some(4));
    assert_eq!(latest(Some(1), Vec::new()), Some(1));
    assert_eq!(latest(None::<u8>, Vec::new()), None);
}

#[test]
fn data_as_old_as_its_ttl_is_alive() {
    assert!(!has_expired(100, 100));
    assert!(has_expired(101, 100));
    assert!(!has_expired(0, 0));
    assert_eq!(keep_if_alive(Some(5), 100, 100), Some(5));
    assert_eq!(keep_if_alive(Some(5), 101, 100), None);
    assert_eq!(keep_if_alive(None::<u8>, 101, 100), None);
}

#[test]
fn whitelist_add_admit_remove() {
    let mut whitelist: Option<Vec<u32>> = None;
    assert!(whitelist_admits(&whitelist, &7));
    add_to_whitelist(&mut whitelist, 7);
    assert_eq!(whitelist, Some(vec![7]));
    assert!(whitelist_admits(&whitelist, &7));
    assert!(!whitelist_admits(&whitelist, &8));
    add_to_whitelist(&mut whitelist, 8);
    add_to_whitelist(&mut whitelist, 7);
    assert_eq!(whitelist, Some(vec![7, 8, 7]));
    assert_eq!(remove_from_whitelist(&mut whitelist, &7), Some(7));
    assert_eq!(whitelist, Some(vec![8, 7]));
    assert_eq!(remove_from_whitelist(&mut whitelist, &9), None);
    assert_eq!(whitelist, Some(vec![8, 7]));
    let mut none: Option<Vec<u32>> = None;
    assert_eq!(remove_from_whitelist(&mut none, &9), None);
    assert_eq!(none, None);
}

#[test]
fn routing_finds_first_client() {
    let clients = vec![(1u8, 10u32), (2, 20), (3, 20)];
    assert_eq!(position_of_address(&clients, &20), Some(1));
    assert_eq!(position_of_address(&clients, &30), None);
    assert_eq!(position_of_key(&clients, &3), Some(2));
    assert_eq!(position_of_key(&clients, &4), None);
}

#[test]
fn resolve_request_outcomes() {
    let clients = vec![(1u8, 10u32), (2, 20)];
    match resolve_request(&clients, &20, Ok::<u64, PackingError>(99)) {
        Ok((k, d)) => assert_eq!((k, d), (2, 99)),
        Err(_) => panic!("expected a known requester"),
    }
    match resolve_request(&clients, &30, Ok::<u64, PackingError>(99)) {
        Err(UdpClientServerError::UnknownRequester(d)) => assert_eq!(d, 99),
        _ => panic!("expected an unknown requester"),
    }
    match resolve_request(&clients, &20, Err::<u64, PackingError>(PackingError::InvalidBufferSize)) {
        Err(UdpClientServerError::PackingError(e)) => assert_eq!(e, PackingError::InvalidBufferSize),
        _ => panic!("expected a packing error"),
    }
}

#[test]
fn datagrams_are_told_apart_by_length() {
    assert_eq!(classify_datagram(12, 8, 4, 8), DatagramKind::Update);
    assert_eq!(classify_datagram(16, 8, 4, 8), DatagramKind::Response);
    assert_eq!(classify_datagram(13, 8, 4, 8), DatagramKind::Other);
    assert_eq!(classify_datagram(3, 8, 4, 8), DatagramKind::Other);
    // An update and a response of the same length read as an update.
    assert_eq!(classify_datagram(12, 8, 4, 4), DatagramKind::Update);
}

#[test]
fn big_endian_bytes() {
    let mut buffer = [0xaau8; 6];
    write_be(0x0102_0304, 4, &mut buffer);
    assert_eq!(buffer, [1, 2, 3, 4, 0xaa, 0xaa]);
    assert_eq!(read_be(&buffer, 4), 0x0102_0304);
    assert_eq!(read_be(&buffer, 2), 0x0102);
}

#[test]
fn rerun_log_nanos() {
    assert_eq!(to_log_nanos(0), 0);
    assert_eq!(to_log_nanos(1_500), 1_500);
    assert_eq!(to_log_nanos(i64::MAX as u128), i64::MAX);
    assert_eq!(to_log_nanos(1u128 << 64), 0);
    assert_eq!(to_log_nanos(u64::MAX as u128), -1);
}

#[test]
fn pool_sizes() {
    assert_eq!(pool_size(4), 3);
}

#[test]
fn greeting_counts_in_decimal() {
    assert_eq!(greeting_message(0), "Hello, world! 0");
    assert_eq!(greeting_message(7), "Hello, world! 7");
    assert_eq!(greeting_message(10), "Hello, world! 10");
    assert_eq!(greeting_message(1234567890), "Hello, world! 1234567890");
    assert_eq!(
        greeting_message(u128::MAX),
        format!("Hello, world! {}", u128::MAX)
    );
}

#[test]
fn minimal_publisher_publishes_counted_greetings() {
    let mut node = MinimalPublisher::new("minimal");
    assert_eq!(node.name(), "minimal");
    assert_eq!(node.get_update_rate(), 500);
    assert_eq!(node.debug(), "Minimal Publisher:\nminimal");
    let mut subscriber = node.create_subscriber();
    assert_eq!(*subscriber.get(), None);
    node.start();
    assert_eq!(subscriber.get().as_deref(), Some("Hello, world! 0"));
    node.update();
    node.update();
    assert_eq!(subscriber.get().as_deref(), Some("Hello, world! 2"));
    let mut late = node.create_subscriber();
    assert_eq!(late.get().as_deref(), Some("Hello, world! 2"));
    node.shutdown();
}
