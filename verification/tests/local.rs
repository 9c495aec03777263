use std::time::Duration;

use ncomm::{
    Client, LocalPublisher, LocalServer, LocalUpdateServer, Publisher, Server, Subscriber,
    UpdateClient, UpdateServer,
};

#[derive(Clone, Copy, Debug, PartialEq, Eq)]
struct Request {
    num: u64,
}

impl Request {
    fn new() -> Self {
        Self { num: 0x0123_4567_89ab_cdef }
    }
}

#[derive(Clone, Copy, Debug, PartialEq, Eq)]
struct Update {
    num: u64,
}

impl Update {
    fn new(request: Request) -> Self {
        Self { num: request.num.wrapping_mul(2) }
    }
}

#[derive(Clone, Copy, Debug, PartialEq, Eq)]
struct Response {
    num: u64,
}

impl Response {
    fn new(request: Request) -> Self {
        Self { num: request.num.wrapping_mul(4) }
    }
}

#[test]
fn test_local_client_server() {
    let mut server = LocalServer::new();
    let mut client = server.create_client(0u8);

    let sent_request = Request::new();
    let expected_response = Response::new(sent_request);
    client.send_request(sent_request).unwrap();
    let requests = server.poll_for_requests();
    assert_eq!(requests.len(), 1);
    for request in requests {
        let Ok((client, request)) = request;
        assert_eq!(request, sent_request);
        server.send_response(client, request, Response::new(request.clone())).unwrap();
    }
    let responses = client.poll_for_responses();
    assert_eq!(responses.len(), 1);
    for response in responses {
        let Ok((request, response)) = response;
        assert_eq!(request, sent_request);
        assert_eq!(response, expected_response);
    }
}

#[test]
fn test_local_update_client_server() {
    let mut server = LocalUpdateServer::new();
    let mut client = server.create_update_client(0u8);

    let sent_request = Request::new();
    let expected_update = Update::new(sent_request.clone());
    let expected_response = Response::new(sent_request.clone());

    client.send_request(sent_request.clone()).unwrap();

    for request in server.poll_for_requests() {
        let Ok((client, request)) = request;
        assert_eq!(request, sent_request);
        server.send_update(client, &request, Update::new(request.clone())).unwrap();
        server.send_response(client, request, Response::new(request.clone())).unwrap();
    }

    let updates = client.poll_for_updates();
    assert_eq!(updates.len(), 1);
    for update in updates {
        let Ok((request, update)) = update;
        assert_eq!(request, sent_request);
        assert_eq!(update, expected_update);
    }

    let responses = client.poll_for_responses();
    assert_eq!(responses.len(), 1);
    for response in responses {
        let Ok((request, response)) = response;
        assert_eq!(request, sent_request);
        assert_eq!(response, expected_response);
    }
}

#[test]
fn test_local_update_client_server_singular_request() {
    let mut server = LocalUpdateServer::new();
    let mut client = server.create_update_client(0u8);

    let sent_request = Request::new();
    let expected_update = Update::new(sent_request.clone());
    let expected_response = Response::new(sent_request.clone());

    client.send_request(sent_request.clone()).unwrap();

    if let Ok(Some((client, request))) = server.poll_for_request() {
        assert_eq!(request, sent_request);
        server.send_update(client, &request, Update::new(request.clone())).unwrap();
        server.send_response(client, request, Response::new(request.clone())).unwrap();
    } else {
        assert!(false, "Expected a request to be received");
    }

    if let Ok(Some((request, update))) = client.poll_for_update() {
        assert_eq!(request, sent_request);
        assert_eq!(update, expected_update);
    } else {
        assert!(false, "Expected an update to be received");
    }

    if let Ok(Some((request, response))) = client.poll_for_response() {
        assert_eq!(request, sent_request);
        assert_eq!(response, expected_response);
    } else {
        assert!(false, "Expected a response to be received");
    }
}

#[test]
fn local_server_replaces_client_with_same_key() {
    let mut server: LocalServer<Request, Response, u8> = LocalServer::new();
    let mut old_client = server.create_client(3u8);
    let mut new_client = server.create_client(3u8);

    old_client.send_request(Request { num: 1 }).unwrap();
    new_client.send_request(Request { num: 2 }).unwrap();
    let requests = server.poll_for_requests();
    assert_eq!(requests.len(), 1);
    let Ok((key, request)) = requests.into_iter().next().unwrap();
    assert_eq!(key, 3);
    assert_eq!(request, Request { num: 2 });

    server.send_response(3, request, Response::new(request)).unwrap();
    assert_eq!(old_client.poll_for_responses().len(), 0);
    assert_eq!(new_client.poll_for_responses().len(), 1);
}

#[test]
fn local_server_answers_unknown_key_with_nothing() {
    let mut server: LocalServer<Request, Response, u8> = LocalServer::new();
    let mut client = server.create_client(1u8);
    assert!(server.send_response(2, Request::new(), Response::new(Request::new())).is_ok());
    assert_eq!(client.poll_for_responses().len(), 0);
}

#[test]
fn local_server_polls_each_client_in_turn() {
    let mut server: LocalServer<Request, Response, u8> = LocalServer::new();
    let mut a = server.create_client(1u8);
    let mut b = server.create_client(2u8);
    a.send_request(Request { num: 10 }).unwrap();
    b.send_request(Request { num: 20 }).unwrap();
    a.send_request(Request { num: 11 }).unwrap();
    let requests: Vec<(u8, u64)> = server
        .poll_for_requests()
        .into_iter()
        .map(|r| {
            let Ok((k, req)) = r;
            (k, req.num)
        })
        .collect();
    assert_eq!(requests, vec![(1, 10), (1, 11), (2, 20)]);
    assert!(server.poll_for_requests().is_empty());
}

#[test]
fn local_update_server_poll_for_request_takes_one() {
    let mut server: LocalUpdateServer<Request, Update, Response, u8> = LocalUpdateServer::new();
    let mut client = server.create_update_client(5u8);
    client.send_request(Request { num: 1 }).unwrap();
    client.send_request(Request { num: 2 }).unwrap();
    let Ok(Some((k, first))) = server.poll_for_request() else {
        panic!("expected a request");
    };
    assert_eq!((k, first.num), (5, 1));
    let Ok(Some((_, second))) = server.poll_for_request() else {
        panic!("expected a request");
    };
    assert_eq!(second.num, 2);
    assert!(matches!(server.poll_for_request(), Ok(None)));
    assert!(matches!(client.poll_for_update(), Ok(None)));
    assert!(matches!(client.poll_for_response(), Ok(None)));
}

#[test]
fn local_subscriber_keeps_latest() {
    let mut publisher: LocalPublisher<u32> = LocalPublisher::new();
    let mut subscriber = publisher.subscribe();
    assert_eq!(*subscriber.get(), None);

    publisher.publish(1).unwrap();
    publisher.publish(2).unwrap();
    publisher.publish(3).unwrap();
    assert_eq!(*subscriber.get(), Some(3));
    // With nothing new, the subscriber keeps what it had.
    assert_eq!(*subscriber.get(), Some(3));
}

#[test]
fn local_late_subscriber_starts_with_latest() {
    let mut publisher: LocalPublisher<u32> = LocalPublisher::new();
    publisher.publish(7).unwrap();
    let mut late = publisher.subscribe();
    assert_eq!(*late.get(), Some(7));
}

#[test]
fn local_every_subscriber_receives() {
    let mut publisher: LocalPublisher<String> = LocalPublisher::new();
    let mut a = publisher.subscribe();
    let mut b = publisher.subscribe();
    publisher.publish(String::from("hello")).unwrap();
    assert_eq!(a.get().as_deref(), Some("hello"));
    assert_eq!(b.get().as_deref(), Some("hello"));
}

#[test]
fn local_publish_fails_when_a_subscriber_is_gone() {
    let mut publisher: LocalPublisher<u32> = LocalPublisher::new();
    let dropped = publisher.subscribe();
    drop(dropped);
    assert!(publisher.publish(4).is_err());
    let mut late = publisher.subscribe();
    assert_eq!(*late.get(), None);
}

#[test]
fn local_ttl_subscriber_forgets_old_data() {
    let mut publisher: LocalPublisher<u32> = LocalPublisher::new();
    let mut subscriber = publisher.subscribe_ttl(Duration::from_millis(20));
    publisher.publish(9).unwrap();
    assert_eq!(subscriber.get().as_ref().map(|d| d.0), Some(9));
    let start = std::time::Instant::now();
    while start.elapsed() < Duration::from_millis(40) {}
    assert!(subscriber.get().is_none());
}

#[test]
fn local_ttl_subscriber_is_handed_live_data() {
    let mut publisher: LocalPublisher<u32> = LocalPublisher::new();
    publisher.publish(5).unwrap();
    let mut fresh = publisher.subscribe_ttl(Duration::from_secs(60));
    assert_eq!(fresh.get().as_ref().map(|d| d.0), Some(5));
    publisher.publish(6).unwrap();
    assert_eq!(fresh.get().as_ref().map(|d| d.0), Some(6));
}

#[test]
fn local_ttl_subscriber_is_not_handed_stale_data() {
    let mut publisher: LocalPublisher<u32> = LocalPublisher::new();
    publisher.publish(5).unwrap();
    let start = std::time::Instant::now();
    while start.elapsed() < Duration::from_millis(20) {}
    let mut late = publisher.subscribe_ttl(Duration::from_millis(5));
    assert!(late.get().is_none());
}

#[test]
fn ttl_start_data_keeps_only_live_data() {
    assert_eq!(ncomm::ttl_start_data(Some(5u32), 10, 60), Some(5));
    assert_eq!(ncomm::ttl_start_data(Some(5u32), 60, 60), Some(5));
    assert_eq!(ncomm::ttl_start_data(Some(5u32), 61, 60), None);
    assert_eq!(ncomm::ttl_start_data(None::<u32>, 10, 60), None);
}
