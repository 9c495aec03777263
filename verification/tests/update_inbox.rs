use ncomm::{
    pack_pair, pack_value, prepare_reply, tcp_publish_outcome, unpack_datagram, zero_buffer,
    PackingError, PollStep, TcpPublishError, UdpClientServerError, Unpacked, UpdateInbox,
};

fn datagram(request: u32, payload_bytes: &[u8]) -> Vec<u8> {
    let mut d = request.to_be_bytes().to_vec();
    d.extend_from_slice(payload_bytes);
    d
}

#[test]
fn unpack_datagram_tells_updates_from_responses() {
    // Requests are u32 (4 bytes), updates u16 (2 bytes), responses u64 (8 bytes).
    let mut buffer = datagram(7, &[0, 9]);
    buffer.resize(12, 0);
    match unpack_datagram::<u32, u16, u64>(&buffer, 6) {
        Unpacked::Update(Ok(r), Ok(u)) => assert_eq!((r, u), (7, 9)),
        _ => panic!("expected an update"),
    }
    let buffer = datagram(7, &[0, 0, 0, 0, 0, 0, 1, 0]);
    match unpack_datagram::<u32, u16, u64>(&buffer, 12) {
        Unpacked::Response(Ok(r), Ok(s)) => assert_eq!((r, s), (7, 256)),
        _ => panic!("expected a response"),
    }
    assert!(matches!(unpack_datagram::<u32, u16, u64>(&buffer, 9), Unpacked::Other));
    assert!(matches!(unpack_datagram::<u32, u16, u64>(&buffer, 2), Unpacked::Other));
}

#[test]
fn poll_for_update_keeps_responses_for_later() {
    let mut inbox: UpdateInbox<u32, u16, u64> = UpdateInbox::new();
    let mut response = datagram(1, &[0, 0, 0, 0, 0, 0, 0, 5]);
    assert!(matches!(inbox.poll_update_step(&mut response, 12), PollStep::Next));
    assert!(response.iter().all(|b| *b == 0));
    let mut update = datagram(2, &[0, 3]);
    update.resize(12, 0);
    match inbox.poll_update_step(&mut update, 6) {
        PollStep::Found((r, u)) => assert_eq!((r, u), (2, 3)),
        _ => panic!("expected the update"),
    }
    let mut junk = vec![0u8; 12];
    assert!(matches!(inbox.poll_update_step(&mut junk, 5), PollStep::Done));
    assert_eq!(inbox.take_responses(), vec![(1, 5)]);
    assert!(inbox.take_responses().is_empty());
    assert!(inbox.take_updates().is_empty());
}

#[test]
fn poll_for_responses_keeps_updates_for_later() {
    let mut inbox: UpdateInbox<u32, u16, u64> = UpdateInbox::new();
    let mut update = datagram(4, &[0, 8]);
    update.resize(12, 0);
    assert_eq!(inbox.poll_responses_step(&update, 6), None);
    let response = datagram(4, &[0, 0, 0, 0, 0, 0, 0, 16]);
    assert_eq!(inbox.poll_responses_step(&response, 12), Some((4, 16)));
    assert_eq!(inbox.poll_responses_step(&response, 3), None);
    assert_eq!(inbox.take_updates(), vec![(4, 8)]);

    let mut more = datagram(5, &[0, 0, 0, 0, 0, 0, 0, 32]);
    assert_eq!(inbox.poll_updates_step(&mut more, 12), None);
    assert!(more.iter().all(|b| *b == 0));
    let mut resp = datagram(6, &[0, 0, 0, 0, 0, 0, 0, 1]);
    match inbox.poll_response_step(&mut resp, 12) {
        PollStep::Found((r, s)) => assert_eq!((r, s), (6, 1)),
        _ => panic!("expected the response"),
    }
    assert_eq!(inbox.take_responses(), vec![(5, 32)]);
}

#[test]
fn routing_of_unpacked_datagrams() {
    let mut inbox: UpdateInbox<u32, u16, u64> = UpdateInbox::new();
    let failed: Unpacked<u32, u16, u64> = Unpacked::Update(Ok(1), Err(PackingError::InvalidBufferSize));
    assert!(matches!(inbox.route_for_update(failed), PollStep::Next));
    let failed: Unpacked<u32, u16, u64> = Unpacked::Response(Err(PackingError::InvalidBufferSize), Ok(1));
    assert!(matches!(inbox.route_for_response(failed), PollStep::Next));
    assert!(matches!(inbox.route_for_response(Unpacked::Other), PollStep::Done));
    assert_eq!(inbox.route_for_updates(Unpacked::Update(Ok(3), Ok(4))), Some((3, 4)));
    assert_eq!(inbox.route_for_responses(Unpacked::Other), None);
    assert!(inbox.take_updates().is_empty());
    assert!(inbox.take_responses().is_empty());
}

#[test]
fn zeroing_a_buffer() {
    let mut buffer = [1u8, 2, 3];
    zero_buffer(&mut buffer);
    assert_eq!(buffer, [0, 0, 0]);
}

#[test]
fn packing_values_and_pairs() {
    assert_eq!(pack_value(0x0102u16).unwrap(), vec![1, 2]);
    assert_eq!(pack_pair(0x0102u16, 3u8).unwrap(), vec![1, 2, 3]);
}

#[test]
fn replies_go_to_the_client_with_the_key() {
    let clients = vec![(1u8, 100u32), (2, 200), (2, 300)];
    match prepare_reply(&clients, &2, 9u8, 10u16) {
        Ok((address, bytes)) => {
            assert_eq!(address, 200);
            assert_eq!(bytes, vec![9, 0, 10]);
        }
        Err(_) => panic!("expected a reply"),
    }
    assert!(matches!(prepare_reply(&clients, &3, 9u8, 10u16), Err(UdpClientServerError::UnknownClient)));
}

#[test]
fn tcp_publish_outcomes() {
    assert!(tcp_publish_outcome(Vec::new()).is_ok());
    let errors = vec![
        std::io::Error::new(std::io::ErrorKind::Other, "first"),
        std::io::Error::new(std::io::ErrorKind::Other, "second"),
    ];
    match tcp_publish_outcome(errors) {
        Err(TcpPublishError::IOError(e)) => {
            assert_eq!(e.len(), 2);
            assert_eq!(e[0].to_string(), "first");
            assert_eq!(e[1].to_string(), "second");
        }
        _ => panic!("expected the errors"),
    }
}
