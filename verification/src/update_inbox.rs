//! What a datagram update client does with each datagram it receives.
//!
//! Every datagram from an update server carries a packed request followed
//! by a packed update or a packed response, told apart by length.  While
//! the client polls for updates it keeps the responses it comes across,
//! and while it polls for responses it keeps the updates, so that a later
//! poll of the other kind hands them out.

use vstd::prelude::*;

use crate::packing::{Packable, PackingError};
use crate::routing::{classify_datagram, datagram_kind, DatagramKind};

verus! {

/// A datagram after unpacking: the request with an update, the request
/// with a response, or neither when its length fits no message.
pub enum Unpacked<Req, Updt, Res> {
    /// The request and the update carried by the datagram.
    Update(Result<Req, PackingError>, Result<Updt, PackingError>),
    /// The request and the response carried by the datagram.
    Response(Result<Req, PackingError>, Result<Res, PackingError>),
    /// The datagram carries no message.
    Other,
}

/// What a poll does after one datagram.
pub enum PollStep<T> {
    /// Hand out this message and stop polling.
    Found(T),
    /// Go on with the next datagram.
    Next,
    /// Stop polling without a message.
    Done,
}

/// The updates and responses that a datagram update client has received
/// but not yet handed out, oldest first.
#[verifier::reject_recursive_types(Req)]
#[verifier::reject_recursive_types(Updt)]
#[verifier::reject_recursive_types(Res)]
pub struct UpdateInbox<Req, Updt, Res> {
    update_buffer: Vec<(Req, Updt)>,
    response_buffer: Vec<(Req, Res)>,
}

/// The buffer with every byte set to zero.
pub open spec fn all_zero_bytes(s: Seq<u8>) -> bool {
    forall|i: int| 0 <= i < s.len() ==> s[i] == 0
}

/// Set every byte of the buffer to zero.
pub fn zero_buffer(buffer: &mut [u8])
    ensures
        final(buffer)@.len() == old(buffer)@.len(),
        all_zero_bytes(final(buffer)@),
{
    let n = buffer.len();
    let mut i: usize = 0;
    while i < n
        invariant
            n == buffer@.len(),
            0 <= i <= n,
            forall|j: int| 0 <= j < i ==> buffer@[j] == 0,
        decreases n - i,
    {
        buffer[i] = 0;
        i = i + 1;
    }
}

/// Unpack a received datagram of `received` bytes held at the front of
/// `buffer`: the request from the first `Req::len()` bytes and the update
/// or response from the bytes after them, as the datagram's length says.
/// A buffer too short for a request holds no message.
pub fn unpack_datagram<Req: Packable, Updt: Packable, Res: Packable>(
    buffer: &[u8],
    received: usize,
) -> (u: Unpacked<Req, Updt, Res>)
    ensures
        unpacked_from(buffer@, received, u),
{
    let req_len = Req::len();
    let updt_len = Updt::len();
    let res_len = Res::len();
    if buffer.len() < req_len {
        return Unpacked::Other;
    }
    let (head, tail) = buffer.split_at(req_len);
    match classify_datagram(received, req_len, updt_len, res_len) {
        DatagramKind::Update => {
            let r = Req::unpack(head);
            let d = Updt::unpack(tail);
            assert(parts_from::<Req, Updt>(buffer@, req_len, r, d));
            Unpacked::Update(r, d)
        },
        DatagramKind::Response => {
            let r = Req::unpack(head);
            let d = Res::unpack(tail);
            assert(parts_from::<Req, Res>(buffer@, req_len, r, d));
            Unpacked::Response(r, d)
        },
        DatagramKind::Other => Unpacked::Other,
    }
}

/// Both parts of a message, when both unpacked.
pub open spec fn both<A, B>(first: Result<A, PackingError>, second: Result<B, PackingError>) -> Option<(A, B)> {
    match (first, second) {
        (Ok(a), Ok(b)) => Some((a, b)),
        _ => None,
    }
}

/// Unpack a message of an `A` followed by a `B` from the front of
/// `buffer`: the `A` from the bytes before `A::len()` and the `B` from the
/// bytes after; nothing when either fails to unpack or the buffer is
/// shorter than an `A`.
pub fn unpack_pair<A: Packable, B: Packable>(buffer: &[u8]) -> (r: Option<(A, B)>)
    ensures
        exists|len: usize| #[trigger] call_ensures(A::len, (), len) && (buffer@.len() < len ==> r is None)
            && (buffer@.len() >= len ==> exists|first: Result<A, PackingError>, second: Result<B, PackingError>|
                parts_from::<A, B>(buffer@, len, first, second) && r == #[trigger] both(first, second)),
{
    let len = A::len();
    if buffer.len() < len {
        return None;
    }
    let (head, tail) = buffer.split_at(len);
    let first = A::unpack(head);
    let second = B::unpack(tail);
    assert(parts_from::<A, B>(buffer@, len, first, second));
    let ghost expected = both(first, second);
    let r = match (first, second) {
        (Ok(a), Ok(b)) => Some((a, b)),
        _ => None,
    };
    assert(r == expected);
    r
}

/// `request` is what `Req::unpack` gave on the bytes of `buffer` before
/// `req_len`, and `payload` what `P::unpack` gave on the bytes after.
pub open spec fn parts_from<Req: Packable, P: Packable>(
    buffer: Seq<u8>,
    req_len: usize,
    request: Result<Req, PackingError>,
    payload: Result<P, PackingError>,
) -> bool {
    &&& exists|head: &[u8]| head@ == buffer.subrange(0, req_len as int) && #[trigger] call_ensures(Req::unpack, (head,), request)
    &&& exists|tail: &[u8]| tail@ == buffer.subrange(req_len as int, buffer.len() as int) && #[trigger] call_ensures(P::unpack, (tail,), payload)
}

/// `u` is what unpacking a datagram of `received` bytes at the front of
/// `buffer` gives: with the lengths that `Req::len`, `Updt::len` and
/// `Res::len` report, no message when the buffer is shorter than a
/// request, and otherwise the kind that the datagram's length says, with
/// the request unpacked from the bytes before the request's length and the
/// update or response from the bytes after.
pub open spec fn unpacked_from<Req: Packable, Updt: Packable, Res: Packable>(
    buffer: Seq<u8>,
    received: usize,
    u: Unpacked<Req, Updt, Res>,
) -> bool {
    exists|req_len: usize, updt_len: usize, res_len: usize| {
        &&& #[trigger] call_ensures(Req::len, (), req_len)
        &&& #[trigger] call_ensures(Updt::len, (), updt_len)
        &&& #[trigger] call_ensures(Res::len, (), res_len)
        &&& kind_of(u) == if buffer.len() < req_len {
            DatagramKind::Other
        } else {
            datagram_kind(received as nat, req_len as nat, updt_len as nat, res_len as nat)
        }
        &&& (u matches Unpacked::Update(r, d) ==> parts_from::<Req, Updt>(buffer, req_len, r, d))
        &&& (u matches Unpacked::Response(r, d) ==> parts_from::<Req, Res>(buffer, req_len, r, d))
    }
}

/// What the datagram carries, whatever came of unpacking it.
pub open spec fn kind_of<Req, Updt, Res>(u: Unpacked<Req, Updt, Res>) -> DatagramKind {
    match u {
        Unpacked::Update(_, _) => DatagramKind::Update,
        Unpacked::Response(_, _) => DatagramKind::Response,
        Unpacked::Other => DatagramKind::Other,
    }
}

/// The request with its update, when both unpacked.
pub open spec fn update_pair<Req, Updt, Res>(u: Unpacked<Req, Updt, Res>) -> Option<(Req, Updt)> {
    match u {
        Unpacked::Update(Ok(r), Ok(d)) => Some((r, d)),
        _ => None,
    }
}

/// The request with its response, when both unpacked.
pub open spec fn response_pair<Req, Updt, Res>(u: Unpacked<Req, Updt, Res>) -> Option<(Req, Res)> {
    match u {
        Unpacked::Response(Ok(r), Ok(d)) => Some((r, d)),
        _ => None,
    }
}

/// What a poll for a single update does after the datagram `u`.
pub open spec fn update_step<Req, Updt, Res>(u: Unpacked<Req, Updt, Res>) -> PollStep<(Req, Updt)> {
    match u {
        Unpacked::Other => PollStep::Done,
        Unpacked::Update(Ok(r), Ok(d)) => PollStep::Found((r, d)),
        _ => PollStep::Next,
    }
}

/// What a poll for a single response does after the datagram `u`.
pub open spec fn response_step<Req, Updt, Res>(u: Unpacked<Req, Updt, Res>) -> PollStep<(Req, Res)> {
    match u {
        Unpacked::Other => PollStep::Done,
        Unpacked::Response(Ok(r), Ok(d)) => PollStep::Found((r, d)),
        _ => PollStep::Next,
    }
}

/// The list with the optional item added at its end.
pub open spec fn push_some<T>(s: Seq<T>, item: Option<T>) -> Seq<T> {
    match item {
        Some(x) => s.push(x),
        None => s,
    }
}

impl<Req, Updt, Res> UpdateInbox<Req, Updt, Res> {
    /// The updates kept for a later poll for updates.
    pub closed spec fn kept_updates(&self) -> Seq<(Req, Updt)> {
        self.update_buffer@
    }

    /// The responses kept for a later poll for responses.
    pub closed spec fn kept_responses(&self) -> Seq<(Req, Res)> {
        self.response_buffer@
    }

    /// An inbox with nothing kept.
    pub fn new() -> (i: Self)
        ensures
            i.kept_updates() == Seq::<(Req, Updt)>::empty(),
            i.kept_responses() == Seq::<(Req, Res)>::empty(),
    {
        UpdateInbox { update_buffer: Vec::new(), response_buffer: Vec::new() }
    }

    /// One datagram of a poll for a single update: a whole update is handed
    /// out; a whole response is kept for later and the poll goes on; a
    /// datagram whose request or update did not unpack is skipped; a
    /// datagram that carries no message ends the poll.
    pub fn route_for_update(&mut self, u: Unpacked<Req, Updt, Res>) -> (r: PollStep<(Req, Updt)>)
        ensures
            final(self).kept_updates() == old(self).kept_updates(),
            final(self).kept_responses() == push_some(old(self).kept_responses(), response_pair(u)),
            r == update_step(u),
    {
        match u {
            Unpacked::Update(Ok(req), Ok(updt)) => PollStep::Found((req, updt)),
            Unpacked::Update(_, _) => PollStep::Next,
            Unpacked::Response(Ok(req), Ok(res)) => {
                self.response_buffer.push((req, res));
                PollStep::Next
            },
            Unpacked::Response(_, _) => PollStep::Next,
            Unpacked::Other => PollStep::Done,
        }
    }

    /// One datagram of a poll for every update: a whole update is returned
    /// to be handed out; a whole response is kept for later; anything else
    /// is skipped.  The poll goes on in every case.
    pub fn route_for_updates(&mut self, u: Unpacked<Req, Updt, Res>) -> (r: Option<(Req, Updt)>)
        ensures
            final(self).kept_updates() == old(self).kept_updates(),
            final(self).kept_responses() == push_some(old(self).kept_responses(), response_pair(u)),
            r == update_pair(u),
    {
        match u {
            Unpacked::Update(Ok(req), Ok(updt)) => Some((req, updt)),
            Unpacked::Response(Ok(req), Ok(res)) => {
                self.response_buffer.push((req, res));
                None
            },
            _ => None,
        }
    }

    /// One datagram of a poll for a single response: a whole response is
    /// handed out; a whole update is kept for later and the poll goes on;
    /// a datagram whose request or response did not unpack is skipped; a
    /// datagram that carries no message ends the poll.
    pub fn route_for_response(&mut self, u: Unpacked<Req, Updt, Res>) -> (r: PollStep<(Req, Res)>)
        ensures
            final(self).kept_responses() == old(self).kept_responses(),
            final(self).kept_updates() == push_some(old(self).kept_updates(), update_pair(u)),
            r == response_step(u),
    {
        match u {
            Unpacked::Response(Ok(req), Ok(res)) => PollStep::Found((req, res)),
            Unpacked::Response(_, _) => PollStep::Next,
            Unpacked::Update(Ok(req), Ok(updt)) => {
                self.update_buffer.push((req, updt));
                PollStep::Next
            },
            Unpacked::Update(_, _) => PollStep::Next,
            Unpacked::Other => PollStep::Done,
        }
    }

    /// One datagram of a poll for every response: a whole response is
    /// returned to be handed out; a whole update is kept for later;
    /// anything else is skipped.  The poll goes on in every case.
    pub fn route_for_responses(&mut self, u: Unpacked<Req, Updt, Res>) -> (r: Option<(Req, Res)>)
        ensures
            final(self).kept_responses() == old(self).kept_responses(),
            final(self).kept_updates() == push_some(old(self).kept_updates(), update_pair(u)),
            r == response_pair(u),
    {
        match u {
            Unpacked::Response(Ok(req), Ok(res)) => Some((req, res)),
            Unpacked::Update(Ok(req), Ok(updt)) => {
                self.update_buffer.push((req, updt));
                None
            },
            _ => None,
        }
    }

    /// Hand out the kept updates, oldest first, and keep none.
    pub fn take_updates(&mut self) -> (r: Vec<(Req, Updt)>)
        ensures
            r@ == old(self).kept_updates(),
            final(self).kept_updates() == Seq::<(Req, Updt)>::empty(),
            final(self).kept_responses() == old(self).kept_responses(),
    {
        let mut r: Vec<(Req, Updt)> = Vec::new();
        std::mem::swap(&mut r, &mut self.update_buffer);
        r
    }

    /// Hand out the kept responses, oldest first, and keep none.
    pub fn take_responses(&mut self) -> (r: Vec<(Req, Res)>)
        ensures
            r@ == old(self).kept_responses(),
            final(self).kept_responses() == Seq::<(Req, Res)>::empty(),
            final(self).kept_updates() == old(self).kept_updates(),
    {
        let mut r: Vec<(Req, Res)> = Vec::new();
        std::mem::swap(&mut r, &mut self.response_buffer);
        r
    }
}


impl<Req: Packable, Updt: Packable, Res: Packable> UpdateInbox<Req, Updt, Res> {
    /// Take the datagram of `received` bytes in `buffer` during a poll for
    /// a single update (see `route_for_update`).  After a response the
    /// buffer is cleared for the next datagram.
    pub fn poll_update_step(&mut self, buffer: &mut [u8], received: usize) -> (r: PollStep<(Req, Updt)>)
        ensures
            final(buffer)@.len() == old(buffer)@.len(),
            exists|u: Unpacked<Req, Updt, Res>| {
                &&& unpacked_from(old(buffer)@, received, u)
                &&& r == update_step(u)
                &&& final(self).kept_updates() == old(self).kept_updates()
                &&& final(self).kept_responses() == push_some(old(self).kept_responses(), response_pair(u))
                &&& if u is Response { all_zero_bytes(final(buffer)@) } else { final(buffer)@ == old(buffer)@ }
            },
    {
        let u = unpack_datagram::<Req, Updt, Res>(buffer, received);
        if let Unpacked::Response(_, _) = &u {
            zero_buffer(buffer);
        }
        self.route_for_update(u)
    }

    /// Take the datagram of `received` bytes in `buffer` during a poll for
    /// every update (see `route_for_updates`); the buffer is then cleared
    /// for the next datagram.
    pub fn poll_updates_step(&mut self, buffer: &mut [u8], received: usize) -> (r: Option<(Req, Updt)>)
        ensures
            final(buffer)@.len() == old(buffer)@.len(),
            all_zero_bytes(final(buffer)@),
            exists|u: Unpacked<Req, Updt, Res>| {
                &&& unpacked_from(old(buffer)@, received, u)
                &&& r == update_pair(u)
                &&& final(self).kept_updates() == old(self).kept_updates()
                &&& final(self).kept_responses() == push_some(old(self).kept_responses(), response_pair(u))
            },
    {
        let u = unpack_datagram::<Req, Updt, Res>(buffer, received);
        zero_buffer(buffer);
        self.route_for_updates(u)
    }

    /// Take the datagram of `received` bytes in `buffer` during a poll for
    /// a single response (see `route_for_response`).  After an update the
    /// buffer is cleared for the next datagram.
    pub fn poll_response_step(&mut self, buffer: &mut [u8], received: usize) -> (r: PollStep<(Req, Res)>)
        ensures
            final(buffer)@.len() == old(buffer)@.len(),
            exists|u: Unpacked<Req, Updt, Res>| {
                &&& unpacked_from(old(buffer)@, received, u)
                &&& r == response_step(u)
                &&& final(self).kept_responses() == old(self).kept_responses()
                &&& final(self).kept_updates() == push_some(old(self).kept_updates(), update_pair(u))
                &&& if u is Update { all_zero_bytes(final(buffer)@) } else { final(buffer)@ == old(buffer)@ }
            },
    {
        let u = unpack_datagram::<Req, Updt, Res>(buffer, received);
        if let Unpacked::Update(_, _) = &u {
            zero_buffer(buffer);
        }
        self.route_for_response(u)
    }

    /// Take the datagram of `received` bytes in `buffer` during a poll for
    /// every response (see `route_for_responses`); the buffer is left as it
    /// is.
    pub fn poll_responses_step(&mut self, buffer: &[u8], received: usize) -> (r: Option<(Req, Res)>)
        ensures
            exists|u: Unpacked<Req, Updt, Res>| {
                &&& unpacked_from(buffer@, received, u)
                &&& r == response_pair(u)
                &&& final(self).kept_responses() == old(self).kept_responses()
                &&& final(self).kept_updates() == push_some(old(self).kept_updates(), update_pair(u))
            },
    {
        let u = unpack_datagram::<Req, Updt, Res>(buffer, received);
        self.route_for_responses(u)
    }
}

} // verus!
