//! Local publishers and subscribers: crossbeam channels carry each
//! published piece of data to every subscriber of the publisher, and a
//! subscriber created late starts with the most recent piece.

use vstd::prelude::*;

use core::time::Duration;
use crossbeam::channel::{Receiver, SendError, Sender};
use std::time::Instant;

use crate::channel::{drain_pending, send_message, unbounded_channel};
use crate::publisher_subscriber::{Publisher, Subscriber};
use crate::subscription::{keep_if_alive, latest, latest_of, outlived};

verus! {

#[verifier::external_type_specification]
#[verifier::external_body]
pub struct ExStdInstant(std::time::Instant);

/// `std::time::Instant::now`: the current time.  It depends on the clock,
/// so nothing is claimed of it.
pub assume_specification[ std::time::Instant::now ]() -> (r: Instant);

/// `std::time::Instant::elapsed`: the time since the instant.  It depends
/// on the clock, so nothing is claimed of it.
pub assume_specification[ std::time::Instant::elapsed ](i: &Instant) -> (r: Duration);

/// `core::time::Duration::as_nanos`: the whole duration in nanoseconds.  A
/// duration is opaque here, so nothing is claimed of the number.
pub assume_specification[ core::time::Duration::as_nanos ](d: &Duration) -> (r: u128);

/// The age in nanoseconds of data stamped at `stamp`.
fn age_nanos(stamp: &Instant) -> u128 {
    stamp.elapsed().as_nanos()
}

/// The data with which a subscriber created with time-to-live `ttl` starts
/// when the publisher's latest data is of age `age`: that data while it is
/// still alive (no older than the time-to-live), and nothing otherwise.
pub open spec fn ttl_start<D>(latest: Option<D>, age: u128, ttl: u128) -> Option<D> {
    if latest is Some && !outlived(age, ttl) { latest } else { None }
}

/// The data a subscriber created with time-to-live `ttl` starts with, when
/// the publisher's latest data is `latest` and of age `age` (see
/// `ttl_start`).
pub fn ttl_start_data<D>(latest: Option<D>, age: u128, ttl: u128) -> (r: Option<D>)
    ensures
        r == ttl_start(latest, age, ttl),
{
    match latest {
        Some(d) => if age > ttl {
            None
        } else {
            Some(d)
        },
        None => None,
    }
}

/// A local subscriber: it keeps the most recent piece of data that its
/// publisher sent.
#[verifier::reject_recursive_types(Data)]
pub struct LocalSubscriber<Data: Clone> {
    rx: Receiver<Data>,
    data: Option<Data>,
    /// Every piece of data taken from the channel, oldest first.
    taken: Ghost<Seq<Data>>,
}

impl<Data: Clone> LocalSubscriber<Data> {
    /// The data the subscriber holds.
    pub closed spec fn current(&self) -> Option<Data> {
        self.data
    }

    /// Every piece of data the subscriber has taken from its channel, in
    /// the order they arrived.
    pub closed spec fn received_log(&self) -> Seq<Data> {
        self.taken@
    }
}

/// One `get` of a subscriber: its log of received data went from `log` to
/// `log2` and the data it holds from `held` to `held2`; it holds the newest
/// piece received when anything arrived, and what it held otherwise.
pub open spec fn took_newest<D>(log: Seq<D>, log2: Seq<D>, held: Option<D>, held2: Option<D>) -> bool {
    &&& extends(log, log2)
    &&& log2.len() > log.len() ==> held2 == Some(log2.last())
    &&& log2.len() == log.len() ==> held2 == held
}

/// Over any number of `get` calls a subscriber holds the newest piece of
/// data it ever took from its channel: two calls in a row behave as one
/// call that took everything both took.
pub proof fn lemma_newest_over_two_gets<D>(
    log0: Seq<D>,
    log1: Seq<D>,
    log2: Seq<D>,
    held0: Option<D>,
    held1: Option<D>,
    held2: Option<D>,
)
    requires
        took_newest(log0, log1, held0, held1),
        took_newest(log1, log2, held1, held2),
    ensures
        took_newest(log0, log2, held0, held2),
{
    assert(log2.subrange(0, log0.len() as int) =~= log2.subrange(0, log1.len() as int).subrange(0, log0.len() as int));
}

/// `before` is the start of `after`: a log that only grows.
pub open spec fn extends<D>(before: Seq<D>, after: Seq<D>) -> bool {
    before.len() <= after.len() && after.subrange(0, before.len() as int) == before
}

impl<Data: Clone> Subscriber for LocalSubscriber<Data> {
    type Target = Option<Data>;

    /// Take the data waiting for the subscriber and hold the newest piece
    /// of it; with nothing waiting, the data held stays as it was.
    fn get(&mut self) -> (r: &Option<Data>)
        ensures
            exists|received: Seq<Data>| final(self).current() == latest_of(old(self).current(), received),
            *r == final(self).current(),
            extends(old(self).received_log(), final(self).received_log()),
            final(self).received_log().len() > old(self).received_log().len()
                ==> final(self).current() == Some(final(self).received_log().last()),
            final(self).received_log().len() == old(self).received_log().len()
                ==> final(self).current() == old(self).current(),
            took_newest(old(self).received_log(), final(self).received_log(), old(self).current(), final(self).current()),
    {
        let received = drain_pending(&self.rx);
        let ghost witness = received@;
        proof {
            self.taken = Ghost(self.taken@ + received@);
            assert(self.taken@.subrange(0, old(self).taken@.len() as int) =~= old(self).taken@);
        }
        let mut current: Option<Data> = None;
        std::mem::swap(&mut current, &mut self.data);
        self.data = latest(current, received);
        assert(self.current() == latest_of(old(self).current(), witness));
        &self.data
    }
}

/// A local subscriber whose data lives for a set time: it holds the most
/// recent piece of data with the time it arrived, and forgets it once it
/// is older than the time-to-live.
#[verifier::reject_recursive_types(Data)]
pub struct LocalTTLSubscriber<Data: Clone> {
    rx: Receiver<Data>,
    data: Option<(Data, Instant)>,
    ttl: Duration,
    /// Every piece of data taken from the channel, oldest first.
    taken: Ghost<Seq<Data>>,
}

impl<Data: Clone> LocalTTLSubscriber<Data> {
    /// The data the subscriber holds, with the time it arrived.
    pub closed spec fn stamped(&self) -> Option<(Data, Instant)> {
        self.data
    }

    /// The data the subscriber holds, without its time stamp.
    pub open spec fn current(&self) -> Option<Data> {
        unstamped(self.stamped())
    }

    /// The time-to-live of the subscriber's data.
    pub closed spec fn time_to_live(&self) -> Duration {
        self.ttl
    }

    /// Every piece of data the subscriber has taken from its channel, in
    /// the order they arrived.
    pub closed spec fn received_log(&self) -> Seq<Data> {
        self.taken@
    }

    /// The clock, read against some arrival stamp, gave an age beyond the
    /// subscriber's time-to-live.
    pub closed spec fn saw_expiry(&self) -> bool {
        exists|stamp: Instant, age: u128, ttl: u128|
            #[trigger] call_ensures(age_nanos, (&stamp,), age)
                && #[trigger] call_ensures(core::time::Duration::as_nanos, (&self.ttl,), ttl)
                && age > ttl
    }
}

/// The data without its time stamp.
pub open spec fn unstamped<D>(data: Option<(D, Instant)>) -> Option<D> {
    match data {
        Some((d, _)) => Some(d),
        None => None,
    }
}

impl<Data: Clone> Subscriber for LocalTTLSubscriber<Data> {
    type Target = Option<(Data, Instant)>;

    /// Take the data waiting for the subscriber and hold the newest piece,
    /// stamped with the time it was taken; then forget the data held if it
    /// is older than the time-to-live.  The subscriber never holds data
    /// that it did not hold or receive.
    fn get(&mut self) -> (r: &Option<(Data, Instant)>)
        ensures
            final(self).current() is None || exists|received: Seq<Data>| final(self).current() == latest_of(old(self).current(), received),
            *r == final(self).stamped(),
            final(self).time_to_live() == old(self).time_to_live(),
            extends(old(self).received_log(), final(self).received_log()),
            final(self).received_log().len() > old(self).received_log().len() && final(self).current() is Some
                ==> final(self).current() == Some(final(self).received_log().last()),
            final(self).received_log().len() == old(self).received_log().len() && final(self).current() is Some
                ==> final(self).current() == old(self).current(),
            final(self).current() is None && (final(self).received_log().len() > old(self).received_log().len()
                || old(self).current() is Some) ==> final(self).saw_expiry(),
    {
        let mut received = drain_pending(&self.rx);
        proof {
            self.taken = Ghost(self.taken@ + received@);
            assert(self.taken@.subrange(0, old(self).taken@.len() as int) =~= old(self).taken@);
        }
        let ghost mut witness: Seq<Data> = Seq::empty();
        match received.pop() {
            Some(d) => {
                proof {
                    witness = seq![d];
                }
                self.data = Some((d, Instant::now()));
            },
            None => {},
        }
        assert(unstamped(self.data) == latest_of(old(self).current(), witness));
        let age = match &self.data {
            Some((_, stamp)) => age_nanos(stamp),
            None => 0,
        };
        let ttl = self.ttl.as_nanos();
        let ghost was_held = self.data is Some;
        assert(was_held ==> exists|stamp: Instant| #[trigger] call_ensures(age_nanos, (&stamp,), age));
        let mut held: Option<(Data, Instant)> = None;
        std::mem::swap(&mut held, &mut self.data);
        self.data = keep_if_alive(held, age, ttl);
        assert(self.data is None && was_held ==> self.saw_expiry());
        assert(self.current() is None || self.current() == latest_of(old(self).current(), witness));
        &self.data
    }
}


/// A local publisher: it sends each piece of data over a crossbeam channel
/// to each of its subscribers, and keeps the most recent piece with the
/// time it was published so that new subscribers start with it.
#[verifier::reject_recursive_types(Data)]
pub struct LocalPublisher<Data: Clone> {
    txs: Vec<Sender<Data>>,
    data: Option<(Data, Instant)>,
    /// For each subscriber's channel, the pieces of data placed into it, in
    /// order.
    sent: Ghost<Seq<Seq<Data>>>,
}

/// Each of the first `upto` channels got one more piece, a copy of `data`,
/// and the other channels got nothing.
pub open spec fn delivered<Data: Clone>(before: Seq<Seq<Data>>, after: Seq<Seq<Data>>, data: Data, upto: int) -> bool {
    &&& after.len() == before.len()
    &&& forall|i: int| #![trigger after[i]] 0 <= i < upto ==> {
        &&& after[i].len() == before[i].len() + 1
        &&& after[i].drop_last() == before[i]
        &&& cloned(data, after[i].last())
    }
    &&& forall|i: int| #![trigger after[i]] upto <= i < after.len() ==> after[i] == before[i]
}

impl<Data: Clone> LocalPublisher<Data> {
    #[verifier::type_invariant]
    spec fn well_formed(self) -> bool {
        self.sent@.len() == self.txs@.len()
    }

    /// For each subscriber, in the order they subscribed, the pieces of
    /// data placed in its channel, oldest first.
    pub closed spec fn handed(&self) -> Seq<Seq<Data>> {
        self.sent@
    }
    /// The number of subscribers the publisher sends to.
    pub closed spec fn subscriber_count(&self) -> nat {
        self.txs@.len()
    }

    /// The most recent piece of data the publisher published.
    pub closed spec fn latest(&self) -> Option<Data> {
        unstamped(self.data)
    }

    /// The time the most recent piece of data was published.
    pub closed spec fn published_at(&self) -> Option<Instant> {
        match self.data {
            Some((_, t)) => Some(t),
            None => None,
        }
    }

    /// Create a local publisher with no subscribers and no data.
    pub fn new() -> (p: Self)
        ensures
            p.subscriber_count() == 0,
            p.latest() is None,
            p.handed() == Seq::<Seq<Data>>::empty(),
    {
        LocalPublisher { txs: Vec::new(), data: None, sent: Ghost(Seq::empty()) }
    }

    /// A new channel to one more subscriber.
    fn add_channel(&mut self) -> (rx: Receiver<Data>)
        ensures
            final(self).subscriber_count() == old(self).subscriber_count() + 1,
            final(self).data == old(self).data,
            final(self).handed() == old(self).handed().push(Seq::<Data>::empty()),
    {
        proof {
            use_type_invariant(&*self);
        }
        let (tx, rx) = unbounded_channel();
        let mut taken = LocalPublisher::new();
        std::mem::swap(&mut taken, self);
        let LocalPublisher { txs, data, sent } = taken;
        let mut txs = txs;
        txs.push(tx);
        let ghost more = sent@.push(Seq::<Data>::empty());
        *self = LocalPublisher { txs, data, sent: Ghost(more) };
        rx
    }

    /// Add a channel to one more subscriber, for a subscriber of a kind
    /// this module does not build: the receiving end, with a copy of the
    /// most recent piece of data and the time it was published, if there
    /// is one.
    pub fn add_subscriber_channel(&mut self) -> (r: (Receiver<Data>, Option<(Data, Instant)>))
        ensures
            final(self).subscriber_count() == old(self).subscriber_count() + 1,
            final(self).latest() == old(self).latest(),
            final(self).handed() == old(self).handed().push(Seq::<Data>::empty()),
            r.1 is Some <==> old(self).latest() is Some,
            old(self).latest() matches Some(d) ==> (r.1 matches Some((c, _)) && cloned(d, c)),
    {
        let rx = self.add_channel();
        let data = match &self.data {
            Some((d, stamp)) => Some((d.clone(), *stamp)),
            None => None,
        };
        (rx, data)
    }

    /// Create a local subscriber; it starts with a copy of the most recent
    /// piece of data, if there is one.
    pub fn subscribe(&mut self) -> (s: LocalSubscriber<Data>)
        ensures
            final(self).subscriber_count() == old(self).subscriber_count() + 1,
            final(self).latest() == old(self).latest(),
            final(self).handed() == old(self).handed().push(Seq::<Data>::empty()),
            s.current() is Some <==> old(self).latest() is Some,
            old(self).latest() matches Some(d) ==> (s.current() matches Some(c) && cloned(d, c)),
    {
        let rx = self.add_channel();
        let data = match &self.data {
            Some((d, _)) => Some(d.clone()),
            None => None,
        };
        LocalSubscriber { rx, data, taken: Ghost(Seq::empty()) }
    }

    /// Create a local subscriber with time-to-live `timeout`.  It starts
    /// with a copy of the most recent piece of data while that data is no
    /// older than `timeout`, and with nothing otherwise.
    pub fn subscribe_ttl(&mut self, timeout: Duration) -> (s: LocalTTLSubscriber<Data>)
        ensures
            final(self).subscriber_count() == old(self).subscriber_count() + 1,
            final(self).latest() == old(self).latest(),
            final(self).handed() == old(self).handed().push(Seq::<Data>::empty()),
            s.current() matches Some(c) ==> (old(self).latest() matches Some(d) && cloned(d, c)),
            old(self).latest() is None ==> s.current() is None,
            s.stamped() matches Some((_, t)) ==> old(self).published_at() == Some(t),
            s.time_to_live() == timeout,
    {
        let rx = self.add_channel();
        let data = match &self.data {
            Some((d, stamp)) => {
                let age = age_nanos(stamp);
                let ttl = timeout.as_nanos();
                ttl_start_data(Some((d.clone(), *stamp)), age, ttl)
            },
            None => None,
        };
        LocalTTLSubscriber { rx, data, ttl: timeout, taken: Ghost(Seq::empty()) }
    }
}

impl<Data: Clone> Publisher for LocalPublisher<Data> {
    type Data = Data;
    type Error = SendError<Data>;

    /// Send a copy of `data` to each subscriber, in the order they
    /// subscribed, and keep `data` as the most recent piece.  When a send
    /// fails (its subscriber is gone) the error comes back at once, and the
    /// most recent piece stays as it was; with no subscribers it succeeds.
    fn publish(&mut self, data: Data) -> (r: Result<(), SendError<Data>>)
        ensures
            final(self).subscriber_count() == old(self).subscriber_count(),
            r is Ok ==> final(self).latest() == Some(data),
            r is Err ==> final(self).latest() == old(self).latest(),
            old(self).subscriber_count() == 0 ==> r is Ok,
            old(self).handed().len() == old(self).subscriber_count(),
            r is Ok ==> delivered(old(self).handed(), final(self).handed(), data, old(self).subscriber_count() as int),
            r is Err ==> exists|k: int| 0 <= k < old(self).subscriber_count()
                && #[trigger] delivered(old(self).handed(), final(self).handed(), data, k),
    {
        proof {
            use_type_invariant(&*self);
        }
        let mut taken = LocalPublisher::new();
        std::mem::swap(&mut taken, self);
        let LocalPublisher { txs, data: latest, sent } = taken;
        let ghost mut record = sent@;
        let n = txs.len();
        let mut i: usize = 0;
        while i < n
            invariant
                n == txs@.len(),
                0 <= i <= n,
                txs == old(self).txs,
                latest == old(self).data,
                record.len() == n,
                delivered(old(self).handed(), record, data, i as int),
            decreases n - i,
        {
            let copy = data.clone();
            let ghost kept = copy;
            match send_message(&txs[i], copy) {
                Ok(()) => {
                    let ghost before = record;
                    proof {
                        record = before.update(i as int, before[i as int].push(kept));
                    }
                    assert(record[i as int].drop_last() =~= before[i as int]);
                },
                Err(e) => {
                    *self = LocalPublisher { txs, data: latest, sent: Ghost(record) };
                    assert(self.handed() == record);
                    assert(delivered(old(self).handed(), self.handed(), data, i as int));
                    return Err(e);
                },
            }
            i = i + 1;
        }
        *self = LocalPublisher { txs, data: Some((data, Instant::now())), sent: Ghost(record) };
        Ok(())
    }
}

} // verus!
