//! A minimal node that publishes a numbered greeting each time it is
//! updated.

use vstd::prelude::*;

use crate::local::{delivered, LocalPublisher, LocalSubscriber};
use crate::publisher_subscriber::Publisher;

verus! {

/// The character of the decimal digit `d`.
pub open spec fn digit_char(d: nat) -> char {
    if d == 0 {
        '0'
    } else if d == 1 {
        '1'
    } else if d == 2 {
        '2'
    } else if d == 3 {
        '3'
    } else if d == 4 {
        '4'
    } else if d == 5 {
        '5'
    } else if d == 6 {
        '6'
    } else if d == 7 {
        '7'
    } else if d == 8 {
        '8'
    } else {
        '9'
    }
}

/// The decimal numeral of `n`, most significant digit first, without
/// leading zeros.
pub open spec fn decimal(n: nat) -> Seq<char>
    decreases n,
{
    if n < 10 {
        seq![digit_char(n)]
    } else {
        decimal(n / 10).push(digit_char(n % 10))
    }
}

/// The greeting with number `count`.
pub open spec fn greeting(count: nat) -> Seq<char> {
    "Hello, world! "@ + decimal(count)
}

/// Each of the first `upto` subscribers got the message `m` after the
/// messages it had, and the others got nothing.
pub open spec fn greeted(before: Seq<Seq<Seq<char>>>, after: Seq<Seq<Seq<char>>>, m: Seq<char>, upto: int) -> bool {
    &&& after.len() == before.len()
    &&& forall|i: int| 0 <= i < upto ==> #[trigger] after[i] == before[i].push(m)
    &&& forall|i: int| upto <= i < after.len() ==> #[trigger] after[i] == before[i]
}

/// The text of each message in a list of lists of messages.
pub open spec fn message_texts(messages: Seq<Seq<String>>) -> Seq<Seq<Seq<char>>> {
    messages.map_values(|q: Seq<String>| q.map_values(|m: String| m@))
}

/// A publication of the message `m` by a node whose subscribers and
/// received messages went from `before` to `after`, and whose latest
/// message went from `last_before` to `last_after`: every subscriber got
/// `m` and it is the latest message, or (only when there are subscribers)
/// a send failed, so that only the subscribers before the failing one got
/// `m` and the latest message stayed as it was.
pub open spec fn published(
    before: Seq<Seq<Seq<char>>>,
    after: Seq<Seq<Seq<char>>>,
    last_before: Option<Seq<char>>,
    last_after: Option<Seq<char>>,
    m: Seq<char>,
) -> bool {
    ||| (last_after == Some(m) && greeted(before, after, m, before.len() as int))
    ||| (before.len() > 0 && last_after == last_before
        && exists|k: int| 0 <= k < before.len() && #[trigger] greeted(before, after, m, k))
}

/// What a publication of `m` leaves behind: every subscriber got `m` or
/// nothing, the ones that got it come first, the latest message is `m` or
/// what it was, and with no subscribers it is `m`.
pub proof fn lemma_publication_outcome(
    before: Seq<Seq<Seq<char>>>,
    after: Seq<Seq<Seq<char>>>,
    last_before: Option<Seq<char>>,
    last_after: Option<Seq<char>>,
    m: Seq<char>,
)
    requires
        published(before, after, last_before, last_after, m),
    ensures
        after.len() == before.len(),
        forall|i: int| 0 <= i < after.len() ==> #[trigger] after[i] == before[i].push(m) || after[i] == before[i],
        forall|i: int, j: int| 0 <= i < j < after.len() && #[trigger] after[j] == before[j].push(m) && after[j] != before[j]
            ==> #[trigger] after[i] == before[i].push(m),
        last_after == Some(m) || last_after == last_before,
        before.len() == 0 ==> last_after == Some(m),
        last_after != Some(m) ==> exists|i: int| 0 <= i < after.len() && #[trigger] after[i] == before[i],
{
    if last_after == Some(m) && greeted(before, after, m, before.len() as int) {
    } else {
        let k = choose|k: int| 0 <= k < before.len() && #[trigger] greeted(before, after, m, k);
        if last_after != Some(m) {
            assert(after[before.len() - 1] == before[before.len() - 1]);
        }
    }
}

/// The texts of lists of messages after a delivery of `m` to the first
/// `upto` channels are the texts before, with the text of `m` added to the
/// first `upto` lists.
proof fn lemma_texts_delivered(before: Seq<Seq<String>>, after: Seq<Seq<String>>, m: String, ok: bool, count: int)
    requires
        before.len() == count,
        ok ==> delivered(before, after, m, count),
        !ok ==> exists|k: int| 0 <= k < count && #[trigger] delivered(before, after, m, k),
    ensures
        ok ==> greeted(message_texts(before), message_texts(after), m@, count),
        !ok ==> exists|k: int| 0 <= k < count && #[trigger] greeted(message_texts(before), message_texts(after), m@, k),
{
    if ok {
        lemma_delivered_texts(before, after, m, count);
    } else {
        let k = choose|k: int| 0 <= k < count && #[trigger] delivered(before, after, m, k);
        lemma_delivered_texts(before, after, m, k);
    }
}

/// A delivery of copies of a string is a delivery of its text.
proof fn lemma_delivered_texts(before: Seq<Seq<String>>, after: Seq<Seq<String>>, m: String, upto: int)
    requires
        delivered(before, after, m, upto),
        0 <= upto <= before.len(),
    ensures
        greeted(message_texts(before), message_texts(after), m@, upto),
{
    let tb = message_texts(before);
    let ta = message_texts(after);
    assert forall|i: int| 0 <= i < upto && i < after.len() implies #[trigger] ta[i] == tb[i].push(m@) by {
        assert(after[i].drop_last() == before[i]);
        assert(cloned(m, after[i].last()));
        assert(after[i].last()@ == m@);
        assert(after[i] =~= before[i].push(after[i].last()));
        assert(ta[i] =~= tb[i].push(m@));
    }
    assert(ta.len() == after.len() && tb.len() == before.len());
    assert forall|i: int| upto <= i < ta.len() implies #[trigger] ta[i] == tb[i] by {
        assert(after[i] == before[i]);
    }
}

/// The debug text of a node named `name`.
pub open spec fn debug_text(name: Seq<char>) -> Seq<char> {
    "Minimal Publisher:\n"@ + name
}

/// The one-character text of the decimal digit `d`.
fn digit_str(d: u8) -> (s: &'static str)
    requires
        d < 10,
    ensures
        s@ == seq![digit_char(d as nat)],
{
    proof {
        reveal_strlit("0");
        reveal_strlit("1");
        reveal_strlit("2");
        reveal_strlit("3");
        reveal_strlit("4");
        reveal_strlit("5");
        reveal_strlit("6");
        reveal_strlit("7");
        reveal_strlit("8");
        reveal_strlit("9");
    }
    if d == 0 {
        "0"
    } else if d == 1 {
        "1"
    } else if d == 2 {
        "2"
    } else if d == 3 {
        "3"
    } else if d == 4 {
        "4"
    } else if d == 5 {
        "5"
    } else if d == 6 {
        "6"
    } else if d == 7 {
        "7"
    } else if d == 8 {
        "8"
    } else {
        "9"
    }
}

/// Append the decimal numeral of `n` to `s`.
fn push_decimal(s: &mut String, n: u128)
    ensures
        final(s)@ == old(s)@ + decimal(n as nat),
    decreases n,
{
    if n >= 10 {
        push_decimal(s, n / 10);
    }
    let d: u8 = (n % 10) as u8;
    s.append(digit_str(d));
    assert(n < 10 ==> n % 10 == n);
    assert(final(s)@ =~= old(s)@ + decimal(n as nat));
}

/// The greeting with number `count`: "Hello, world! " and the number in
/// decimal.
pub fn greeting_message(count: u128) -> (m: String)
    ensures
        m@ == greeting(count as nat),
{
    let mut m = String::from_str("Hello, world! ");
    push_decimal(&mut m, count);
    m
}

/// A node that publishes "Hello, world! " followed by a count, which goes
/// up by one with each message.
pub struct MinimalPublisher<'a> {
    name: &'a str,
    count: u128,
    publisher: LocalPublisher<String>,
}

impl<'a> MinimalPublisher<'a> {
    /// The name of the node.
    pub closed spec fn node_name(&self) -> Seq<char> {
        self.name@
    }

    /// The number of the next message.
    pub closed spec fn message_count(&self) -> nat {
        self.count as nat
    }

    /// The most recent message published.
    pub closed spec fn last_message(&self) -> Option<Seq<char>> {
        match self.publisher.latest() {
            Some(m) => Some(m@),
            None => None,
        }
    }

    /// For each subscriber, the texts of the messages placed in its
    /// channel, oldest first.
    pub closed spec fn sent_messages(&self) -> Seq<Seq<Seq<char>>> {
        message_texts(self.publisher.handed())
    }

    /// The number of subscribers of the node.
    pub closed spec fn subscriber_count(&self) -> nat {
        self.publisher.subscriber_count()
    }

    /// Create a minimal publisher named `name` that has published nothing.
    pub fn new(name: &'a str) -> (p: Self)
        ensures
            p.node_name() == name@,
            p.message_count() == 0,
            p.last_message() is None,
            p.subscriber_count() == 0,
    {
        MinimalPublisher { name, count: 0, publisher: LocalPublisher::new() }
    }

    /// Create a subscriber to the node's messages.
    pub fn create_subscriber(&mut self) -> (s: LocalSubscriber<String>)
        ensures
            final(self).node_name() == old(self).node_name(),
            final(self).message_count() == old(self).message_count(),
            final(self).last_message() == old(self).last_message(),
            final(self).subscriber_count() == old(self).subscriber_count() + 1,
            s.current() is Some <==> old(self).last_message() is Some,
            old(self).last_message() matches Some(m) ==> (s.current() matches Some(c) && c@ == m),
    {
        self.publisher.subscribe()
    }

    /// Publish the greeting with the current count, then count up.  The
    /// count goes up whether or not every subscriber could be reached.
    fn publish_message(&mut self)
        requires
            old(self).message_count() < u128::MAX,
        ensures
            final(self).node_name() == old(self).node_name(),
            final(self).message_count() == old(self).message_count() + 1,
            final(self).subscriber_count() == old(self).subscriber_count(),
            published(
                old(self).sent_messages(),
                final(self).sent_messages(),
                old(self).last_message(),
                final(self).last_message(),
                greeting(old(self).message_count()),
            ),
    {
        let message = greeting_message(self.count);
        let ghost m = message;
        let ghost before = self.publisher.handed();
        let r = self.publisher.publish(message);
        proof {
            lemma_texts_delivered(before, self.publisher.handed(), m, r is Ok, before.len() as int);
        }
        self.count = self.count + 1;
    }

    /// The name of the node.
    pub fn name(&self) -> (n: String)
        ensures
            n@ == self.node_name(),
    {
        String::from_str(self.name)
    }

    /// The node's update rate.
    pub fn get_update_rate(&self) -> (r: u128)
        ensures
            r == 500,
    {
        500
    }

    /// Start the node: publish the first message.
    pub fn start(&mut self)
        requires
            old(self).message_count() < u128::MAX,
        ensures
            final(self).node_name() == old(self).node_name(),
            final(self).message_count() == old(self).message_count() + 1,
            final(self).subscriber_count() == old(self).subscriber_count(),
            published(
                old(self).sent_messages(),
                final(self).sent_messages(),
                old(self).last_message(),
                final(self).last_message(),
                greeting(old(self).message_count()),
            ),
    {
        self.publish_message();
    }

    /// Update the node: publish the next message.
    pub fn update(&mut self)
        requires
            old(self).message_count() < u128::MAX,
        ensures
            final(self).node_name() == old(self).node_name(),
            final(self).message_count() == old(self).message_count() + 1,
            final(self).subscriber_count() == old(self).subscriber_count(),
            published(
                old(self).sent_messages(),
                final(self).sent_messages(),
                old(self).last_message(),
                final(self).last_message(),
                greeting(old(self).message_count()),
            ),
    {
        self.publish_message();
    }

    /// Shut the node down; nothing is left to do.
    pub fn shutdown(&mut self)
        ensures
            *final(self) == *old(self),
    {
    }

    /// A description of the node: "Minimal Publisher:", a new line and the
    /// node's name.
    pub fn debug(&self) -> (d: String)
        ensures
            d@ == debug_text(self.node_name()),
    {
        let mut d = String::from_str("Minimal Publisher:\n");
        d.append(self.name);
        d
    }
}

} // verus!
