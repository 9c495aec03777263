//! Local clients and servers, with and without updates: crossbeam
//! channels carry requests from each client to its server, and updates and
//! responses back.
//!
//! A server knows each client by a key and holds at most one client per
//! key: creating a client under a key it already knows replaces the
//! channels of that key.

use vstd::prelude::*;
use vstd::std_specs::cmp::PartialEqSpec;

use core::convert::Infallible;
use crossbeam::channel::{Receiver, Sender};
use std::hash::Hash;

use crate::channel::{drain_pending, send_message, try_receive, unbounded_channel};
use crate::client_server::{Client, Server};
use crate::scheduling::same_id;
use crate::update_client_server::{UpdateClient, UpdateServer};

verus! {

/// The keys of a server after a client is created under `key`: unchanged
/// when a key equal to it is known, and `key` added at the end otherwise.
pub open spec fn keys_with<K: PartialEq>(keys: Seq<K>, key: K) -> Seq<K> {
    if exists|i: int| 0 <= i < keys.len() && same_id(#[trigger] keys[i], key) {
        keys
    } else {
        keys.push(key)
    }
}

/// No key of the list equals a key after it.
pub open spec fn distinct_keys<K: PartialEq>(keys: Seq<K>) -> bool {
    forall|i: int, j: int| 0 <= i < j < keys.len() ==> !same_id(#[trigger] keys[i], #[trigger] keys[j])
}

/// A server holds at most one client per key: creating a client keeps the
/// keys distinct.
pub proof fn lemma_keys_with_distinct<K: PartialEq>(keys: Seq<K>, key: K)
    requires
        distinct_keys(keys),
    ensures
        distinct_keys(keys_with(keys, key)),
{
    if !(exists|i: int| 0 <= i < keys.len() && same_id(#[trigger] keys[i], key)) {
        let after = keys.push(key);
        assert forall|i: int, j: int| 0 <= i < j < after.len() implies !same_id(#[trigger] after[i], #[trigger] after[j]) by {
            if j < keys.len() {
                assert(after[i] == keys[i] && after[j] == keys[j]);
            } else {
                assert(after[j] == key);
                assert(after[i] == keys[i]);
            }
        }
    }
}

/// `i` is the position of the first key equal to `key`.
pub open spec fn is_first_of<K: PartialEq>(keys: Seq<K>, key: K, i: int) -> bool {
    &&& 0 <= i < keys.len()
    &&& same_id(keys[i], key)
    &&& forall|j: int| 0 <= j < i ==> !same_id(#[trigger] keys[j], key)
}

/// The position of the first key equal to `key`.
pub open spec fn first_of<K: PartialEq>(keys: Seq<K>, key: K) -> int {
    choose|i: int| is_first_of(keys, key, i)
}

/// The first key equal to `key` is at `i`, so `first_of` names `i`.
proof fn lemma_first_of<K: PartialEq>(keys: Seq<K>, key: K, i: int)
    requires
        is_first_of(keys, key, i),
    ensures
        first_of(keys, key) == i,
{
    let c = first_of(keys, key);
    assert(is_first_of(keys, key, c));
    if c < i {
        assert(!same_id(keys[c], key));
    } else if c > i {
        assert(!same_id(keys[i], key));
    }
}

/// A send log after `msg` was sent to the client with key `key`, whose
/// channels are `channels`: when a client has that key, `msg` was placed in
/// the channel of the first such client (or the send failed and nothing
/// was placed), and in no other channel; otherwise nothing was sent.
pub open spec fn sent_to_client<K: PartialEq, T>(
    keys: Seq<K>,
    channels: Seq<Sender<T>>,
    key: K,
    before: Seq<(Sender<T>, T)>,
    after: Seq<(Sender<T>, T)>,
    msg: T,
) -> bool {
    if exists|i: int| is_first_of(keys, key, i) {
        after == before || after == before.push((channels[first_of(keys, key)], msg))
    } else {
        after == before
    }
}

/// A reply reaches only the client with the key: after a send to `key`,
/// the log only grows, by at most one entry, and any new entry is `msg` on
/// the channel of the first client with that key; a key that no client has
/// gets nothing.
pub proof fn lemma_reply_reaches_only_keyed_client<K: PartialEq, T>(
    keys: Seq<K>,
    channels: Seq<Sender<T>>,
    key: K,
    before: Seq<(Sender<T>, T)>,
    after: Seq<(Sender<T>, T)>,
    msg: T,
)
    requires
        sent_to_client(keys, channels, key, before, after, msg),
    ensures
        before.len() <= after.len() <= before.len() + 1,
        after.subrange(0, before.len() as int) == before,
        forall|k: int| before.len() <= k < after.len() ==> {
            &&& (#[trigger] after[k]).1 == msg
            &&& exists|i: int| is_first_of(keys, key, i) && after[k].0 == channels[i]
        },
        (forall|i: int| 0 <= i < keys.len() ==> !same_id(#[trigger] keys[i], key)) ==> after == before,
{
    assert(before.push((channels[first_of(keys, key)], msg)).subrange(0, before.len() as int) =~= before);
    assert(before.subrange(0, before.len() as int) =~= before);
    if exists|i: int| is_first_of(keys, key, i) {
        let i = first_of(keys, key);
        assert(is_first_of(keys, key, i));
    } else {
        if !(forall|i: int| 0 <= i < keys.len() ==> !same_id(#[trigger] keys[i], key)) {
            let i = choose|i: int| 0 <= i < keys.len() && same_id(#[trigger] keys[i], key);
            lemma_some_first(keys, key, i);
        }
    }
}

/// When some key equals `key`, a first one exists.
proof fn lemma_some_first<K: PartialEq>(keys: Seq<K>, key: K, i: int)
    requires
        0 <= i < keys.len(),
        same_id(keys[i], key),
    ensures
        exists|f: int| is_first_of(keys, key, f),
    decreases i,
{
    if forall|j: int| 0 <= j < i ==> !same_id(#[trigger] keys[j], key) {
        assert(is_first_of(keys, key, i));
    } else {
        let j = choose|j: int| 0 <= j < i && same_id(#[trigger] keys[j], key);
        lemma_some_first(keys, key, j);
    }
}

/// Send `msg` on `tx`, recording it in `log` when it is placed in the
/// channel.
fn send_logged<T>(tx: &Sender<T>, msg: T, log: &mut Ghost<Seq<(Sender<T>, T)>>)
    ensures
        final(log)@ == old(log)@ || final(log)@ == old(log)@.push((*tx, msg)),
{
    let ghost m = msg;
    match send_message(tx, msg) {
        Ok(()) => {
            proof {
                *log = Ghost(log@.push((*tx, m)));
            }
        },
        Err(_) => {},
    }
}

/// The keys of a list of entries keyed by their first component.
pub open spec fn first_components<K, A, B>(entries: Seq<(K, A, B)>) -> Seq<K> {
    entries.map_values(|e: (K, A, B)| e.0)
}

/// The keys of a list of entries keyed by their first component.
pub open spec fn first_of_four<K, A, B, C>(entries: Seq<(K, A, B, C)>) -> Seq<K> {
    entries.map_values(|e: (K, A, B, C)| e.0)
}

/// The position of the first entry whose key equals `key`.
fn position_of<K: PartialEq, A, B>(entries: &Vec<(K, A, B)>, key: &K) -> (r: Option<usize>)
    ensures
        r matches Some(i) ==> i < entries@.len(),
        K::obeys_eq_spec() ==> match r {
            Some(i) => is_first_of(first_components(entries@), *key, i as int),
            None => forall|j: int| 0 <= j < entries@.len() ==> !same_id(#[trigger] first_components(entries@)[j], *key),
        },
{
    let n = entries.len();
    let mut i: usize = 0;
    while i < n
        invariant
            n == entries@.len(),
            0 <= i <= n,
            K::obeys_eq_spec() ==> forall|j: int| 0 <= j < i ==> !same_id(#[trigger] first_components(entries@)[j], *key),
        decreases n - i,
    {
        if entries[i].0.eq(key) {
            return Some(i);
        }
        i = i + 1;
    }
    None
}

/// The position of the first entry whose key equals `key`.
fn position_of_four<K: PartialEq, A, B, C>(entries: &Vec<(K, A, B, C)>, key: &K) -> (r: Option<usize>)
    ensures
        r matches Some(i) ==> i < entries@.len(),
        K::obeys_eq_spec() ==> match r {
            Some(i) => is_first_of(first_of_four(entries@), *key, i as int),
            None => forall|j: int| 0 <= j < entries@.len() ==> !same_id(#[trigger] first_of_four(entries@)[j], *key),
        },
{
    let n = entries.len();
    let mut i: usize = 0;
    while i < n
        invariant
            n == entries@.len(),
            0 <= i <= n,
            K::obeys_eq_spec() ==> forall|j: int| 0 <= j < i ==> !same_id(#[trigger] first_of_four(entries@)[j], *key),
        decreases n - i,
    {
        if entries[i].0.eq(key) {
            return Some(i);
        }
        i = i + 1;
    }
    None
}

/// A local client: it sends requests over one channel and receives
/// responses, each with the request it answers, over another.
#[verifier::reject_recursive_types(Req)]
#[verifier::reject_recursive_types(Res)]
pub struct LocalClient<Req, Res> {
    rx: Receiver<(Req, Res)>,
    tx: Sender<Req>,
}

impl<Req, Res> Client for LocalClient<Req, Res> {
    type Request = Req;
    type Response = Res;
    type Error = Infallible;

    /// Send a request to the server; this cannot fail.
    fn send_request(&mut self, request: Req) -> (r: Result<(), Infallible>)
        ensures
            r is Ok,
    {
        let _ = send_message(&self.tx, request);
        Ok(())
    }

    /// The responses waiting for the client, oldest first; none is an
    /// error.
    fn poll_for_responses(&mut self) -> (r: Vec<Result<(Req, Res), Infallible>>)
        ensures
            all_ok(r@),
    {
        all_succeeded(drain_pending(&self.rx))
    }
}

/// A local server: it receives requests from each of its clients over a
/// channel and sends responses back over another, and knows each client
/// by a key.
#[verifier::reject_recursive_types(Req)]
#[verifier::reject_recursive_types(Res)]
#[verifier::reject_recursive_types(K)]
pub struct LocalServer<Req, Res, K: Hash + Eq + Clone> {
    clients: Vec<(K, Receiver<Req>, Sender<(Req, Res)>)>,
    /// Every response placed in a client's channel, with that channel.
    sent: Ghost<Seq<(Sender<(Req, Res)>, (Req, Res))>>,
}

impl<Req, Res, K: Hash + Eq + Clone> LocalServer<Req, Res, K> {
    /// The keys of the server's clients, in the order they were first
    /// created.
    pub closed spec fn keys(&self) -> Seq<K> {
        first_components(self.clients@)
    }

    /// The channels that carry responses to the clients, in the order of
    /// the keys.
    pub closed spec fn response_channels(&self) -> Seq<Sender<(Req, Res)>> {
        self.clients@.map_values(|e: (K, Receiver<Req>, Sender<(Req, Res)>)| e.2)
    }

    /// Every response placed in a client's channel, with that channel, in
    /// order.
    pub closed spec fn response_log(&self) -> Seq<(Sender<(Req, Res)>, (Req, Res))> {
        self.sent@
    }

    /// Create a local server with no clients.
    pub fn new() -> (s: Self)
        ensures
            s.keys() == Seq::<K>::empty(),
    {
        LocalServer { clients: Vec::new(), sent: Ghost(Seq::empty()) }
    }

    /// Create a local client for this server under `key`.  A client created
    /// before under an equal key is no longer heard from or answered.
    pub fn create_client(&mut self, key: K) -> (c: LocalClient<Req, Res>)
        ensures
            K::obeys_eq_spec() ==> final(self).keys() == keys_with(old(self).keys(), key),
            final(self).response_log() == old(self).response_log(),
    {
        let (req_tx, req_rx) = unbounded_channel();
        let (res_tx, res_rx) = unbounded_channel();
        match position_of(&self.clients, &key) {
            Some(i) => {
                let (kept, _, _) = self.clients.remove(i);
                self.clients.insert(i, (kept, req_rx, res_tx));
                assert(first_components(self.clients@) =~= first_components(old(self).clients@));
            },
            None => {
                self.clients.push((key, req_rx, res_tx));
                assert(first_components(self.clients@) =~= first_components(old(self).clients@).push(key));
            },
        }
        LocalClient { rx: res_rx, tx: req_tx }
    }
}


impl<Req, Res, K: Hash + Eq + Clone> Server for LocalServer<Req, Res, K> {
    type Request = Req;
    type Response = Res;
    type Key = K;
    type Error = Infallible;

    /// The requests waiting from the clients, each with a copy of its
    /// client's key: client by client, and oldest first for each client;
    /// none is an error.
    fn poll_for_requests(&mut self) -> (r: Vec<Result<(K, Req), Infallible>>)
        ensures
            final(self).keys() == old(self).keys(),
            all_ok(r@),
            from_known_keys(old(self).keys(), r@),
    {
        let mut out: Vec<Result<(K, Req), Infallible>> = Vec::new();
        let n = self.clients.len();
        let mut c: usize = 0;
        while c < n
            invariant
                0 <= c <= n,
                n == self.clients@.len(),
                self.clients == old(self).clients,
                all_ok(out@),
                from_known_keys(old(self).keys(), out@),
            decreases n - c,
        {
            let mut received = drain_pending(&self.clients[c].1);
            let m = received.len();
            let mut k: usize = 0;
            while k < m
                invariant
                    0 <= k <= m,
                    0 <= c < n,
                    n == self.clients@.len(),
                    self.clients == old(self).clients,
                    received@.len() == m - k,
                    all_ok(out@),
                    from_known_keys(old(self).keys(), out@),
                decreases m - k,
            {
                let request = received.remove(0);
                let key = self.clients[c].0.clone();
                assert(old(self).keys()[c as int] == self.clients@[c as int].0);
                assert(copies_a_key(old(self).keys(), key));
                out.push(Ok((key, request)));
                k = k + 1;
            }
            c = c + 1;
        }
        out
    }

    /// Send a response, with the request it answers, to the client with
    /// key `client_key`; with no such client nothing is sent.  This cannot
    /// fail.
    fn send_response(&mut self, client_key: K, request: Req, response: Res) -> (r: Result<(), Infallible>)
        ensures
            final(self).keys() == old(self).keys(),
            final(self).response_channels() == old(self).response_channels(),
            r is Ok,
            K::obeys_eq_spec() ==> sent_to_client(
                old(self).keys(),
                old(self).response_channels(),
                client_key,
                old(self).response_log(),
                final(self).response_log(),
                (request, response),
            ),
    {
        match position_of(&self.clients, &client_key) {
            Some(i) => {
                proof {
                    if K::obeys_eq_spec() {
                        lemma_first_of(self.keys(), client_key, i as int);
                    }
                }
                send_logged(&self.clients[i].2, (request, response), &mut self.sent);
            },
            None => {},
        }
        Ok(())
    }
}

/// A local update client: it sends requests over one channel and receives
/// updates and responses, each with the request it belongs to, over two
/// others.
#[verifier::reject_recursive_types(Req)]
#[verifier::reject_recursive_types(Updt)]
#[verifier::reject_recursive_types(Res)]
pub struct LocalUpdateClient<Req, Updt, Res> {
    update_rx: Receiver<(Req, Updt)>,
    response_rx: Receiver<(Req, Res)>,
    tx: Sender<Req>,
}

/// `k` is a copy of one of the keys.
pub open spec fn copies_a_key<K: Clone>(keys: Seq<K>, k: K) -> bool {
    exists|j: int| 0 <= j < keys.len() && cloned(#[trigger] keys[j], k)
}

/// Every request of the list carries a copy of one of the keys.
pub open spec fn from_known_keys<K: Clone, Req, E>(keys: Seq<K>, results: Seq<Result<(K, Req), E>>) -> bool {
    forall|i: int| 0 <= i < results.len() ==> (#[trigger] results[i] matches Ok((k, _)) ==> copies_a_key(keys, k))
}

/// Every result of the list is `Ok`.
pub open spec fn all_ok<T, E>(results: Seq<Result<T, E>>) -> bool {
    forall|i: int| 0 <= i < results.len() ==> (#[trigger] results[i]) is Ok
}

/// Each message, as a success.
fn all_succeeded<T>(messages: Vec<T>) -> (r: Vec<Result<T, Infallible>>)
    ensures
        r@.len() == messages@.len(),
        forall|i: int| 0 <= i < r@.len() ==> #[trigger] r@[i] == Ok::<T, Infallible>(messages@[i]),
{
    let mut messages = messages;
    let ghost initial = messages@;
    let mut out: Vec<Result<T, Infallible>> = Vec::new();
    let n = messages.len();
    let mut k: usize = 0;
    while k < n
        invariant
            0 <= k <= n,
            n == initial.len(),
            messages@ == initial.subrange(k as int, n as int),
            out@.len() == k,
            forall|i: int| 0 <= i < k ==> #[trigger] out@[i] == Ok::<T, Infallible>(initial[i]),
        decreases n - k,
    {
        let m = messages.remove(0);
        out.push(Ok(m));
        k = k + 1;
    }
    out
}

impl<Req, Updt, Res> UpdateClient for LocalUpdateClient<Req, Updt, Res> {
    type Request = Req;
    type Update = Updt;
    type Response = Res;
    type Error = Infallible;

    /// Send a request to the server; this cannot fail.
    fn send_request(&mut self, request: Req) -> (r: Result<(), Infallible>)
        ensures
            r is Ok,
    {
        let _ = send_message(&self.tx, request);
        Ok(())
    }

    /// The oldest update waiting for the client, if any; this cannot fail.
    fn poll_for_update(&mut self) -> (r: Result<Option<(Req, Updt)>, Infallible>)
        ensures
            r is Ok,
    {
        Ok(try_receive(&self.update_rx))
    }

    /// The updates waiting for the client, oldest first; none is an error.
    fn poll_for_updates(&mut self) -> (r: Vec<Result<(Req, Updt), Infallible>>)
        ensures
            all_ok(r@),
    {
        all_succeeded(drain_pending(&self.update_rx))
    }

    /// The oldest response waiting for the client, if any; this cannot
    /// fail.
    fn poll_for_response(&mut self) -> (r: Result<Option<(Req, Res)>, Infallible>)
        ensures
            r is Ok,
    {
        Ok(try_receive(&self.response_rx))
    }

    /// The responses waiting for the client, oldest first; none is an
    /// error.
    fn poll_for_responses(&mut self) -> (r: Vec<Result<(Req, Res), Infallible>>)
        ensures
            all_ok(r@),
    {
        all_succeeded(drain_pending(&self.response_rx))
    }
}

/// A local update server: it receives requests from each of its clients
/// over a channel and sends updates and responses back over two others,
/// and knows each client by a key.
#[verifier::reject_recursive_types(Req)]
#[verifier::reject_recursive_types(Updt)]
#[verifier::reject_recursive_types(Res)]
#[verifier::reject_recursive_types(K)]
pub struct LocalUpdateServer<Req: Clone, Updt, Res, K: Hash + Eq + Clone> {
    clients: Vec<(K, Receiver<Req>, Sender<(Req, Updt)>, Sender<(Req, Res)>)>,
    /// Every update placed in a client's channel, with that channel.
    updates_sent: Ghost<Seq<(Sender<(Req, Updt)>, (Req, Updt))>>,
    /// Every response placed in a client's channel, with that channel.
    responses_sent: Ghost<Seq<(Sender<(Req, Res)>, (Req, Res))>>,
}

impl<Req: Clone, Updt, Res, K: Hash + Eq + Clone> Default for LocalUpdateServer<Req, Updt, Res, K> {
    /// A local update server with no clients.
    fn default() -> (s: Self)
        ensures
            s.keys() == Seq::<K>::empty(),
    {
        LocalUpdateServer { clients: Vec::new(), updates_sent: Ghost(Seq::empty()), responses_sent: Ghost(Seq::empty()) }
    }
}

impl<Req: Clone, Updt, Res, K: Hash + Eq + Clone> LocalUpdateServer<Req, Updt, Res, K> {
    /// The keys of the server's clients, in the order they were first
    /// created.
    pub closed spec fn keys(&self) -> Seq<K> {
        first_of_four(self.clients@)
    }

    /// The channels that carry updates to the clients, in the order of the
    /// keys.
    pub closed spec fn update_channels(&self) -> Seq<Sender<(Req, Updt)>> {
        self.clients@.map_values(|e: (K, Receiver<Req>, Sender<(Req, Updt)>, Sender<(Req, Res)>)| e.2)
    }

    /// The channels that carry responses to the clients, in the order of
    /// the keys.
    pub closed spec fn response_channels(&self) -> Seq<Sender<(Req, Res)>> {
        self.clients@.map_values(|e: (K, Receiver<Req>, Sender<(Req, Updt)>, Sender<(Req, Res)>)| e.3)
    }

    /// Every update placed in a client's channel, with that channel, in
    /// order.
    pub closed spec fn update_log(&self) -> Seq<(Sender<(Req, Updt)>, (Req, Updt))> {
        self.updates_sent@
    }

    /// Every response placed in a client's channel, with that channel, in
    /// order.
    pub closed spec fn response_log(&self) -> Seq<(Sender<(Req, Res)>, (Req, Res))> {
        self.responses_sent@
    }

    /// Create a local update server with no clients.
    pub fn new() -> (s: Self)
        ensures
            s.keys() == Seq::<K>::empty(),
    {
        Self::default()
    }

    /// Create a local update client for this server under `key`.  A client
    /// created before under an equal key is no longer heard from or
    /// answered.
    pub fn create_update_client(&mut self, key: K) -> (c: LocalUpdateClient<Req, Updt, Res>)
        ensures
            K::obeys_eq_spec() ==> final(self).keys() == keys_with(old(self).keys(), key),
            final(self).update_log() == old(self).update_log(),
            final(self).response_log() == old(self).response_log(),
    {
        let (req_tx, req_rx) = unbounded_channel();
        let (updt_tx, updt_rx) = unbounded_channel();
        let (res_tx, res_rx) = unbounded_channel();
        match position_of_four(&self.clients, &key) {
            Some(i) => {
                let (kept, _, _, _) = self.clients.remove(i);
                self.clients.insert(i, (kept, req_rx, updt_tx, res_tx));
                assert(first_of_four(self.clients@) =~= first_of_four(old(self).clients@));
            },
            None => {
                self.clients.push((key, req_rx, updt_tx, res_tx));
                assert(first_of_four(self.clients@) =~= first_of_four(old(self).clients@).push(key));
            },
        }
        LocalUpdateClient { update_rx: updt_rx, response_rx: res_rx, tx: req_tx }
    }
}

impl<Req: Clone, Updt, Res, K: Hash + Eq + Clone> UpdateServer for LocalUpdateServer<Req, Updt, Res, K> {
    type Request = Req;
    type Update = Updt;
    type Response = Res;
    type Key = K;
    type Error = Infallible;

    /// The oldest request waiting from the first client, in the order the
    /// clients were created, that has one, with a copy of that client's
    /// key; this cannot fail.
    fn poll_for_request(&mut self) -> (r: Result<Option<(K, Req)>, Infallible>)
        ensures
            final(self).keys() == old(self).keys(),
            r is Ok,
            r matches Ok(Some((k, _))) ==> copies_a_key(old(self).keys(), k),
    {
        let n = self.clients.len();
        let mut c: usize = 0;
        while c < n
            invariant
                0 <= c <= n,
                n == self.clients@.len(),
                self.clients == old(self).clients,
            decreases n - c,
        {
            match try_receive(&self.clients[c].1) {
                Some(request) => {
                    let key = self.clients[c].0.clone();
                    assert(old(self).keys()[c as int] == self.clients@[c as int].0);
                    assert(copies_a_key(old(self).keys(), key));
                    return Ok(Some((key, request)));
                },
                None => {},
            }
            c = c + 1;
        }
        Ok(None)
    }

    /// The requests waiting from the clients, each with a copy of its
    /// client's key: client by client, and oldest first for each client;
    /// none is an error.
    fn poll_for_requests(&mut self) -> (r: Vec<Result<(K, Req), Infallible>>)
        ensures
            final(self).keys() == old(self).keys(),
            all_ok(r@),
            from_known_keys(old(self).keys(), r@),
    {
        let mut out: Vec<Result<(K, Req), Infallible>> = Vec::new();
        let n = self.clients.len();
        let mut c: usize = 0;
        while c < n
            invariant
                0 <= c <= n,
                n == self.clients@.len(),
                self.clients == old(self).clients,
                all_ok(out@),
                from_known_keys(old(self).keys(), out@),
            decreases n - c,
        {
            let mut received = drain_pending(&self.clients[c].1);
            let m = received.len();
            let mut k: usize = 0;
            while k < m
                invariant
                    0 <= k <= m,
                    0 <= c < n,
                    n == self.clients@.len(),
                    self.clients == old(self).clients,
                    received@.len() == m - k,
                    all_ok(out@),
                    from_known_keys(old(self).keys(), out@),
                decreases m - k,
            {
                let request = received.remove(0);
                let key = self.clients[c].0.clone();
                assert(old(self).keys()[c as int] == self.clients@[c as int].0);
                assert(copies_a_key(old(self).keys(), key));
                out.push(Ok((key, request)));
                k = k + 1;
            }
            c = c + 1;
        }
        out
    }

    /// Send an update, with a copy of the request it belongs to, to the
    /// client with key `client_key`; with no such client nothing is sent.
    /// This cannot fail.
    fn send_update(&mut self, client_key: K, request: &Req, update: Updt) -> (r: Result<(), Infallible>)
        ensures
            final(self).keys() == old(self).keys(),
            final(self).update_channels() == old(self).update_channels(),
            final(self).response_channels() == old(self).response_channels(),
            final(self).response_log() == old(self).response_log(),
            r is Ok,
            K::obeys_eq_spec() ==> exists|copy: Req| #[trigger] cloned(*request, copy) && sent_to_client(
                old(self).keys(),
                old(self).update_channels(),
                client_key,
                old(self).update_log(),
                final(self).update_log(),
                (copy, update),
            ),
    {
        match position_of_four(&self.clients, &client_key) {
            Some(i) => {
                proof {
                    if K::obeys_eq_spec() {
                        lemma_first_of(self.keys(), client_key, i as int);
                    }
                }
                let copy = request.clone();
                let ghost c = copy;
                send_logged(&self.clients[i].2, (copy, update), &mut self.updates_sent);
                assert(cloned(*request, c));
            },
            None => {
                assert(cloned(*request, *request));
            },
        }
        Ok(())
    }

    /// Send a response, with the request it answers, to the client with key
    /// `client_key`; with no such client nothing is sent.  This cannot
    /// fail.
    fn send_response(&mut self, client_key: K, request: Req, response: Res) -> (r: Result<(), Infallible>)
        ensures
            final(self).keys() == old(self).keys(),
            final(self).update_channels() == old(self).update_channels(),
            final(self).response_channels() == old(self).response_channels(),
            final(self).update_log() == old(self).update_log(),
            r is Ok,
            K::obeys_eq_spec() ==> sent_to_client(
                old(self).keys(),
                old(self).response_channels(),
                client_key,
                old(self).response_log(),
                final(self).response_log(),
                (request, response),
            ),
    {
        match position_of_four(&self.clients, &client_key) {
            Some(i) => {
                proof {
                    if K::obeys_eq_spec() {
                        lemma_first_of(self.keys(), client_key, i as int);
                    }
                }
                send_logged(&self.clients[i].3, (request, response), &mut self.responses_sent);
            },
            None => {},
        }
        Ok(())
    }
}

} // verus!
