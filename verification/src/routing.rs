//! Routing of requests, updates and responses between clients and
//! servers that talk over datagrams.
//!
//! A server knows its clients by key and by address.  A request from an
//! address is answered to the client with that address; a response to a
//! key goes to the address of the client with that key.  A datagram that
//! carries a request together with an update or a response is told apart
//! by its length.

use vstd::prelude::*;
use vstd::std_specs::cmp::PartialEqSpec;

use crate::packing::{Packable, PackingError};
use crate::scheduling::same_id;

verus! {

#[verifier::external_type_specification]
#[verifier::external_body]
pub struct ExIoError(std::io::Error);

/// An error with sending or receiving datagrams between a client and a
/// server.
#[derive(Debug)]
pub enum UdpClientServerError<Data> {
    /// An input/output error of the socket.
    IOError(std::io::Error),
    /// An error with packing or unpacking the data.
    PackingError(PackingError),
    /// A request from an unknown client.
    UnknownRequester(Data),
    /// The client the data is sent to is unknown.
    UnknownClient,
}

/// `i` is the first client whose address equals `address`.
pub open spec fn is_first_address<K, A: PartialEq>(clients: Seq<(K, A)>, address: A, i: int) -> bool {
    &&& 0 <= i < clients.len()
    &&& same_id(clients[i].1, address)
    &&& forall|j: int| 0 <= j < i ==> !same_id(#[trigger] clients[j].1, address)
}

/// No client has an address equal to `address`.
pub open spec fn unknown_address<K, A: PartialEq>(clients: Seq<(K, A)>, address: A) -> bool {
    forall|j: int| 0 <= j < clients.len() ==> !same_id(#[trigger] clients[j].1, address)
}

/// `i` is the first client whose key equals `key`.
pub open spec fn is_first_key<K: PartialEq, A>(clients: Seq<(K, A)>, key: K, i: int) -> bool {
    &&& 0 <= i < clients.len()
    &&& same_id(clients[i].0, key)
    &&& forall|j: int| 0 <= j < i ==> !same_id(#[trigger] clients[j].0, key)
}

/// No client has a key equal to `key`.
pub open spec fn unknown_key<K: PartialEq, A>(clients: Seq<(K, A)>, key: K) -> bool {
    forall|j: int| 0 <= j < clients.len() ==> !same_id(#[trigger] clients[j].0, key)
}

/// The position of the first client whose address equals `address`.
pub fn position_of_address<K, A: PartialEq>(clients: &Vec<(K, A)>, address: &A) -> (r: Option<usize>)
    ensures
        r matches Some(i) ==> i < clients@.len(),
        A::obeys_eq_spec() ==> match r {
            Some(i) => is_first_address(clients@, *address, i as int),
            None => unknown_address(clients@, *address),
        },
{
    let n = clients.len();
    let mut i: usize = 0;
    while i < n
        invariant
            n == clients@.len(),
            0 <= i <= n,
            A::obeys_eq_spec() ==> forall|j: int| 0 <= j < i ==> !same_id(#[trigger] clients@[j].1, *address),
        decreases n - i,
    {
        if clients[i].1.eq(address) {
            return Some(i);
        }
        i = i + 1;
    }
    None
}

/// The position of the first client whose key equals `key`.
pub fn position_of_key<K: PartialEq, A>(clients: &Vec<(K, A)>, key: &K) -> (r: Option<usize>)
    ensures
        r matches Some(i) ==> i < clients@.len(),
        K::obeys_eq_spec() ==> match r {
            Some(i) => is_first_key(clients@, *key, i as int),
            None => unknown_key(clients@, *key),
        },
{
    let n = clients.len();
    let mut i: usize = 0;
    while i < n
        invariant
            n == clients@.len(),
            0 <= i <= n,
            K::obeys_eq_spec() ==> forall|j: int| 0 <= j < i ==> !same_id(#[trigger] clients@[j].0, *key),
        decreases n - i,
    {
        if clients[i].0.eq(key) {
            return Some(i);
        }
        i = i + 1;
    }
    None
}

/// The outcome of a request that arrived from `address` and was unpacked
/// to `unpacked`: the requester's key with the request, an unknown
/// requester with the request, or the packing error.
pub fn resolve_request<K: Clone, A: PartialEq, D>(
    clients: &Vec<(K, A)>,
    address: &A,
    unpacked: Result<D, PackingError>,
) -> (r: Result<(K, D), UdpClientServerError<D>>)
    ensures
        unpacked matches Err(e) ==> r matches Err(UdpClientServerError::PackingError(e2)) && e2 == e,
        unpacked matches Ok(d) ==> match r {
            Ok((_, d2)) => d2 == d,
            Err(UdpClientServerError::UnknownRequester(d2)) => d2 == d,
            _ => false,
        },
        A::obeys_eq_spec() && unpacked is Ok ==> (r is Ok <==> !unknown_address(clients@, *address)),
        A::obeys_eq_spec() ==> (r matches Ok((k, _)) ==> exists|i: int|
            is_first_address(clients@, *address, i) && cloned(#[trigger] clients@[i].0, k)),
{
    match unpacked {
        Ok(data) => match position_of_address(clients, address) {
            Some(i) => {
                let key = clients[i].0.clone();
                assert(A::obeys_eq_spec() ==> is_first_address(clients@, *address, i as int) && cloned(clients@[i as int].0, key));
                Ok((key, data))
            },
            None => Err(UdpClientServerError::UnknownRequester(data)),
        },
        Err(e) => Err(UdpClientServerError::PackingError(e)),
    }
}

/// What a datagram received by an update client carries.
#[derive(Clone, Copy, Debug, PartialEq, Eq, Structural)]
pub enum DatagramKind {
    /// A request followed by an update.
    Update,
    /// A request followed by a response.
    Response,
    /// Neither: the datagram's length fits no message.
    Other,
}

/// What a datagram of `received` bytes carries: an update when the bytes
/// after the request are exactly an update's length, otherwise a response
/// when they are exactly a response's length, otherwise neither.
pub open spec fn datagram_kind(received: nat, request_len: nat, update_len: nat, response_len: nat) -> DatagramKind {
    if received < request_len {
        DatagramKind::Other
    } else if received - request_len == update_len {
        DatagramKind::Update
    } else if received - request_len == response_len {
        DatagramKind::Response
    } else {
        DatagramKind::Other
    }
}

/// Tell what a datagram of `received` bytes carries (see `datagram_kind`).
pub fn classify_datagram(received: usize, request_len: usize, update_len: usize, response_len: usize) -> (k: DatagramKind)
    ensures
        k == datagram_kind(received as nat, request_len as nat, update_len as nat, response_len as nat),
{
    if received < request_len {
        DatagramKind::Other
    } else if received - request_len == update_len {
        DatagramKind::Update
    } else if received - request_len == response_len {
        DatagramKind::Response
    } else {
        DatagramKind::Other
    }
}


/// Pack `data` into a new buffer of exactly its length: on success the
/// buffer is as long as `D::len()` says.
pub fn pack_value<D: Packable>(data: D) -> (r: Result<Vec<u8>, PackingError>)
    ensures
        r matches Ok(v) ==> exists|n: usize| call_ensures(D::len, (), n) && v@.len() == n,
{
    let n = D::len();
    let mut buffer: Vec<u8> = vec![0u8; n];
    match data.pack(buffer.as_mut_slice()) {
        Ok(()) => Ok(buffer),
        Err(e) => Err(e),
    }
}

/// Pack `first` followed by `second` into a new buffer of exactly their
/// two lengths.  Packing either may fail; a total length beyond the
/// machine's reach fails as a buffer of the wrong size.  On success the
/// buffer is as long as `A::len()` and `B::len()` together.
pub fn pack_pair<A: Packable, B: Packable>(first: A, second: B) -> (r: Result<Vec<u8>, PackingError>)
    ensures
        r matches Ok(v) ==> exists|a: usize, b: usize|
            call_ensures(A::len, (), a) && call_ensures(B::len, (), b) && v@.len() == a + b,
{
    let a_len = A::len();
    let b_len = B::len();
    let total = match a_len.checked_add(b_len) {
        Some(t) => t,
        None => {
            return Err(PackingError::InvalidBufferSize);
        },
    };
    let mut buffer: Vec<u8> = vec![0u8; total];
    let (head, tail) = buffer.split_at_mut(a_len);
    match first.pack(head) {
        Ok(()) => {},
        Err(e) => {
            return Err(e);
        },
    }
    match second.pack(tail) {
        Ok(()) => {},
        Err(e) => {
            return Err(e);
        },
    }
    Ok(buffer)
}

/// Prepare a reply (an update or a response, following the request it
/// answers) to the client with key `key`: that client's address and the
/// packed bytes, an unknown client when no client has that key, or the
/// packing error.
pub fn prepare_reply<K: PartialEq, A: Clone, Req: Packable, P: Packable>(
    clients: &Vec<(K, A)>,
    key: &K,
    request: Req,
    payload: P,
) -> (r: Result<(A, Vec<u8>), UdpClientServerError<Req>>)
    ensures
        r matches Err(e) ==> (e is UnknownClient || e is PackingError),
        K::obeys_eq_spec() ==> (r matches Err(UdpClientServerError::UnknownClient) <==> unknown_key(clients@, *key)),
        K::obeys_eq_spec() ==> (r matches Ok((a, _)) ==> exists|i: int|
            is_first_key(clients@, *key, i) && cloned(#[trigger] clients@[i].1, a)),
        r matches Ok((_, bytes)) ==> exists|a: usize, b: usize|
            call_ensures(Req::len, (), a) && call_ensures(P::len, (), b) && bytes@.len() == a + b,
{
    match position_of_key(clients, key) {
        Some(i) => match pack_pair(request, payload) {
            Ok(bytes) => {
                let address = clients[i].1.clone();
                assert(K::obeys_eq_spec() ==> is_first_key(clients@, *key, i as int) && cloned(clients@[i as int].1, address));
                Ok((address, bytes))
            },
            Err(e) => Err(UdpClientServerError::PackingError(e)),
        },
        None => Err(UdpClientServerError::UnknownClient),
    }
}

} // verus!
