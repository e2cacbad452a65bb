//! Topics: the messages that they keep, and what a reader is shown of them.

use crate::bucket::Bucket;
use crate::config::Config;
use crate::request::Params;
use std::collections::VecDeque;
use std::sync::Arc;
use tokio::sync::broadcast::{Receiver, Sender};
use vstd::prelude::*;

verus! {

/// The sending half of a broadcast channel.
#[verifier::external_type_specification]
#[verifier::external_body]
#[verifier::reject_recursive_types(T)]
pub struct ExSender<T>(tokio::sync::broadcast::Sender<T>);

/// The receiving half of a broadcast channel.
#[verifier::external_type_specification]
#[verifier::external_body]
#[verifier::reject_recursive_types(T)]
pub struct ExReceiver<T>(tokio::sync::broadcast::Receiver<T>);

/// A message on a topic.
#[derive(Debug)]
pub struct Message {
    /// The place in the topic, counted from one; none for a message that is
    /// not kept.
    pub seq: Option<u64>,
    pub ts: u64,
    pub sender: String,
    pub sender_since: u64,
    pub content: String,
}

/// A topic. A post makes a new value of it.
pub struct Topic {
    /// How many messages were ever kept.
    pub seq: u64,
    /// The messages still kept, oldest first.
    pub ring: VecDeque<Arc<Message>>,
    /// Where those that wait hear of new messages.
    pub tx: Arc<Sender<Arc<Message>>>,
    pub bucket: Bucket,
}

/// A topic, with its messages as a sequence.
#[verifier::ext_equal]
pub struct TopicView {
    pub seq: u64,
    pub ring: Seq<Arc<Message>>,
    pub tx: Arc<Sender<Arc<Message>>>,
    pub bucket: Bucket,
}

impl View for Topic {
    type V = TopicView;

    open spec fn view(&self) -> TopicView {
        TopicView { seq: self.seq, ring: self.ring@, tx: self.tx, bucket: self.bucket }
    }
}

/// The lesser of two counts.
pub open spec fn lesser(a: int, b: int) -> int {
    if a <= b {
        a
    } else {
        b
    }
}

impl TopicView {
    /// A topic keeps its latest messages, as many as it may, numbered
    /// without gaps up to the count of all messages ever kept. Its channel
    /// holds as many.
    pub open spec fn well_formed(self, max_n: usize) -> bool {
        &&& channel_capacity(*self.tx) == max_n
        &&& self.ring.len() == lesser(self.seq as int, max_n as int)
        &&& forall|i: int|
            0 <= i < self.ring.len() ==> (#[trigger] self.ring[i]).seq == Some(
                (self.seq - self.ring.len() + 1 + i) as u64,
            )
    }

    /// The number that the next message gets, if it is kept.
    pub open spec fn next_seq(self, ephemeral: bool) -> Option<u64> {
        if ephemeral {
            None
        } else {
            Some((self.seq + 1) as u64)
        }
    }

    /// The topic after `message` was posted to it: a message with a number
    /// joins the ring, and the oldest leaves one that has grown too long.
    pub open spec fn with_message(self, message: Arc<Message>, max_n: usize) -> TopicView {
        match message.seq {
            None => self,
            Some(seq) => TopicView {
                seq,
                ring: if self.ring.len() + 1 > max_n {
                    self.ring.push(message).drop_first()
                } else {
                    self.ring.push(message)
                },
                ..self
            },
        }
    }

    /// The topic with its bucket at another level.
    pub open spec fn with_bucket(self, bucket: Bucket) -> TopicView {
        TopicView { bucket, ..self }
    }
}

/// The number of messages that a channel was made to hold for those that lag
/// behind.
pub uninterp spec fn channel_capacity(tx: Sender<Arc<Message>>) -> nat;

/// `broadcast::channel` makes a channel for so many messages. It panics on a
/// capacity of zero or over half the range. What is claimed is the capacity
/// asked for; the channel rounds it up to a power of two.
#[verifier::external_body]
fn open_channel(capacity: usize) -> (r: Sender<Arc<Message>>)
    requires
        1 <= capacity <= usize::MAX / 2,
    ensures
        channel_capacity(r) == capacity,
{
    tokio::sync::broadcast::channel(capacity).0
}

/// A message that was sent on a channel. Sending is the only way to get one.
pub struct Delivery {
    message: Arc<Message>,
    tx: Arc<Sender<Arc<Message>>>,
}

impl Delivery {
    /// The message that was sent.
    pub closed spec fn sent(self) -> Arc<Message> {
        self.message
    }

    /// The channel that it was sent on.
    pub closed spec fn channel(self) -> Arc<Sender<Arc<Message>>> {
        self.tx
    }

    /// The message that was sent.
    pub fn message(&self) -> (r: &Arc<Message>)
        ensures
            *r == self.sent(),
    {
        &self.message
    }
}

/// Messages, each with the channel that it was sent on.
pub type Sendings = Seq<(Arc<Sender<Arc<Message>>>, Arc<Message>)>;

/// What sends messages, with a record of all that it has sent.
pub struct Outbox {
    log: Ghost<Sendings>,
}

impl View for Outbox {
    type V = Sendings;

    closed spec fn view(&self) -> Sendings {
        self.log@
    }
}

impl Outbox {
    /// An outbox that has sent nothing.
    pub(crate) fn new() -> (r: Outbox)
        ensures
            r@ == Seq::<(Arc<Sender<Arc<Message>>>, Arc<Message>)>::empty(),
    {
        Outbox { log: Ghost(Seq::empty()) }
    }

    /// `Sender::send` hands a message to everyone who listens on the channel
    /// at the time, and to nobody if nobody does. What is claimed is what was
    /// sent where, and that nothing else was; how many have heard it is not
    /// stated.
    #[verifier::external_body]
    pub(crate) fn send(&mut self, tx: &Arc<Sender<Arc<Message>>>, message: Arc<Message>) -> (r: Delivery)
        ensures
            r.sent() == message,
            r.channel() == *tx,
            final(self)@ == old(self)@.push((*tx, message)),
    {
        let _ = tx.send(message.clone());
        Delivery { message, tx: tx.clone() }
    }
}

/// An ear on a channel. Subscribing is the only way to get one.
pub struct Subscription {
    pub rx: Receiver<Arc<Message>>,
    tx: Arc<Sender<Arc<Message>>>,
}

impl Subscription {
    /// The channel that is listened on.
    pub closed spec fn channel(self) -> Arc<Sender<Arc<Message>>> {
        self.tx
    }
}

/// `Sender::subscribe` listens on a channel: what is sent on it from now on
/// is received. What is claimed is the channel. It panics when a channel has
/// `usize::MAX / 4` receivers, more than memory holds.
#[verifier::external_body]
pub(crate) fn subscribe(tx: &Arc<Sender<Arc<Message>>>) -> (r: Subscription)
    ensures
        r.channel() == *tx,
{
    Subscription { rx: tx.subscribe(), tx: tx.clone() }
}

impl Topic {
    /// A topic without messages, that keeps and broadcasts up to `max_n`.
    pub fn new(max_n: usize, bucket: Bucket) -> (r: Topic)
        requires
            1 <= max_n <= usize::MAX / 2,
        ensures
            r@.seq == 0,
            r@.ring == Seq::<Arc<Message>>::empty(),
            r@.bucket == bucket,
            r@.well_formed(max_n),
    {
        Topic { seq: 0, ring: VecDeque::new(), tx: Arc::new(open_channel(max_n)), bucket }
    }

    /// The messages of the ring, as a ring of their own.
    fn copy_ring(&self) -> (r: VecDeque<Arc<Message>>)
        ensures
            r@ == self.ring@,
    {
        let mut r: VecDeque<Arc<Message>> = VecDeque::new();
        let mut i: usize = 0;
        while i < self.ring.len()
            invariant
                i <= self.ring.len(),
                r@ == self.ring@.take(i as int),
            decreases self.ring.len() - i,
        {
            r.push_back(self.ring[i].clone());
            i = i + 1;
        }
        assert(self.ring@.take(self.ring.len() as int) == self.ring@);
        r
    }

    /// The topic with its bucket at another level.
    pub fn set_bucket(&self, bucket: Bucket) -> (r: Topic)
        ensures
            r@ == self@.with_bucket(bucket),
    {
        Topic { seq: self.seq, ring: self.copy_ring(), tx: self.tx.clone(), bucket }
    }

    /// Posts to the topic. Returns the topic as it stands then, and the
    /// message.
    pub fn publish(
        &self,
        max_n: usize,
        ephemeral: bool,
        ts: u64,
        sender: String,
        sender_since: u64,
        content: String,
    ) -> (r: (Topic, Arc<Message>))
        requires
            self@.well_formed(max_n),
            !ephemeral ==> self.seq < u64::MAX,
        ensures
            r.0@ == self@.with_message(r.1, max_n),
            r.0@.well_formed(max_n),
            r.1.seq == self@.next_seq(ephemeral),
            r.1.ts == ts,
            r.1.sender == sender,
            r.1.sender_since == sender_since,
            r.1.content == content,
    {
        let mut seq: Option<u64> = None;
        let mut latest: u64 = self.seq;
        if !ephemeral {
            latest = self.seq + 1;
            seq = Some(latest);
        }
        let message = Arc::new(Message { seq, ts, sender, sender_since, content });
        let mut ring = self.copy_ring();
        if !ephemeral {
            ring.push_back(message.clone());
            if ring.len() > max_n {
                ring.pop_front();
            }
        }
        let topic = Topic { seq: latest, ring, tx: self.tx.clone(), bucket: self.bucket };
        assert(topic@.ring == self@.with_message(message, max_n).ring);
        (topic, message)
    }
}

/// Whether the sender of a message was registered fewer than `min_age`
/// seconds ago. Without a `min_age` nobody is too young.
pub open spec fn is_young(message: Message, min_age: Option<u64>, now: u64) -> bool {
    match min_age {
        None => false,
        Some(age) => if now >= message.sender_since {
            now - message.sender_since < age
        } else {
            0 < age
        },
    }
}

/// Whether the sender of a message is too young to be shown.
pub fn young(message: &Message, min_age: Option<u64>, now: u64) -> (r: bool)
    ensures
        r == is_young(*message, min_age, now),
{
    match min_age {
        None => false,
        Some(age) => {
            let since: u64 = message.sender_since;
            let old: u64 = if now >= since {
                now - since
            } else {
                0
            };
            old < age
        },
    }
}

/// The most messages that a reply may hold.
pub open spec fn page_limit(n: Option<usize>, config: &Config) -> usize {
    let asked = match n {
        Some(n) => n,
        None => config.default_n,
    };
    if asked <= config.max_n {
        asked
    } else {
        config.max_n
    }
}

/// The most messages that a reply may hold.
pub fn limit(params: &Params, config: &Config) -> (r: usize)
    ensures
        r == page_limit(params.n, config),
{
    let asked: usize = match params.n {
        Some(n) => n,
        None => config.default_n,
    };
    if asked <= config.max_n {
        asked
    } else {
        config.max_n
    }
}

/// The test that a message passes when its sender is old enough.
pub open spec fn visible(min_age: Option<u64>, now: u64) -> spec_fn(Arc<Message>) -> bool {
    |m: Arc<Message>| !is_young(*m, min_age, now)
}

/// The test that a message passes when it was kept after the given place and
/// its sender is old enough.
pub open spec fn newer(after: u64, min_age: Option<u64>, now: u64) -> spec_fn(Arc<Message>) -> bool {
    |m: Arc<Message>|
        match m.seq {
            Some(seq) => seq > after && !is_young(*m, min_age, now),
            None => false,
        }
}

/// The first `n` of a sequence, or all of one that is shorter.
pub open spec fn first<A>(s: Seq<A>, n: usize) -> Seq<A> {
    s.take(lesser(s.len() as int, n as int))
}

/// The number of the oldest message kept.
pub open spec fn oldest_seq(ring: Seq<Arc<Message>>) -> u64 {
    if ring.len() == 0 {
        1
    } else {
        match ring[0].seq {
            Some(seq) => seq,
            None => 1,
        }
    }
}

/// What a reader is shown of a ring: without a place, the newest messages,
/// newest first; with one, those after it, oldest first.
pub open spec fn shown(
    ring: Seq<Arc<Message>>,
    after: Option<u64>,
    min_age: Option<u64>,
    now: u64,
    n: usize,
) -> Seq<Arc<Message>> {
    match after {
        None => first(ring.reverse().filter(visible(min_age, now)), n),
        Some(after) => first(ring.filter(newer(after, min_age, now)), n),
    }
}

/// Whether messages after the reader's place are kept no longer.
pub open spec fn missed(ring: Seq<Arc<Message>>, after: Option<u64>) -> bool {
    match after {
        None => false,
        Some(after) => after + 1 < oldest_seq(ring),
    }
}

/// Filtering a longer prefix keeps what filtering a shorter one kept.
proof fn lemma_filter_prefix<A>(s: Seq<A>, i: int, p: spec_fn(A) -> bool)
    requires
        0 <= i <= s.len(),
    ensures
        s.filter(p) == s.take(i).filter(p) + s.skip(i).filter(p),
{
    assert(s == s.take(i) + s.skip(i));
    Seq::filter_distributes_over_add(s.take(i), s.skip(i), p);
}

/// Filtering one element more.
proof fn lemma_filter_step<A>(s: Seq<A>, i: int, p: spec_fn(A) -> bool)
    requires
        0 <= i < s.len(),
    ensures
        s.take(i + 1).filter(p) == if p(s[i]) {
            s.take(i).filter(p).push(s[i])
        } else {
            s.take(i).filter(p)
        },
{
    assert(s.take(i + 1).drop_last() == s.take(i));
    assert(s.take(i + 1).last() == s[i]);
    reveal_with_fuel(Seq::filter, 2);
}

/// The messages to show from the newest back.
fn latest(topic: &Topic, min_age: Option<u64>, now: u64, n: usize) -> (r: Vec<Arc<Message>>)
    ensures
        r@ == first(topic@.ring.reverse().filter(visible(min_age, now)), n),
{
    let ghost all = topic@.ring.reverse();
    let ghost p = visible(min_age, now);
    let mut r: Vec<Arc<Message>> = Vec::new();
    let mut i: usize = 0;
    proof {
        assert(all.take(0).filter(p) == Seq::<Arc<Message>>::empty()) by {
            reveal_with_fuel(Seq::filter, 1);
        }
    }
    while i < topic.ring.len() && r.len() < n
        invariant
            i <= topic.ring.len(),
            all == topic@.ring.reverse(),
            p == visible(min_age, now),
            r@ == all.take(i as int).filter(p),
            r.len() <= n,
        decreases topic.ring.len() - i,
    {
        let m = topic.ring[topic.ring.len() - 1 - i].clone();
        assert(m == all[i as int]);
        proof {
            lemma_filter_step(all, i as int, p);
        }
        if !young(&m, min_age, now) {
            r.push(m);
        }
        i = i + 1;
    }
    proof {
        lemma_filter_prefix(all, i as int, p);
        if i == all.len() {
            assert(all.take(i as int) == all);
        }
        assert(r@ == first(all.filter(p), n));
    }
    r
}

/// The messages to show after a place, from the oldest on.
fn following(topic: &Topic, after: u64, min_age: Option<u64>, now: u64, n: usize) -> (r: Vec<Arc<Message>>)
    ensures
        r@ == first(topic@.ring.filter(newer(after, min_age, now)), n),
{
    let ghost all = topic@.ring;
    let ghost p = newer(after, min_age, now);
    let mut r: Vec<Arc<Message>> = Vec::new();
    let mut i: usize = 0;
    proof {
        assert(all.take(0).filter(p) == Seq::<Arc<Message>>::empty()) by {
            reveal_with_fuel(Seq::filter, 1);
        }
    }
    while i < topic.ring.len() && r.len() < n
        invariant
            i <= topic.ring.len(),
            all == topic@.ring,
            p == newer(after, min_age, now),
            r@ == all.take(i as int).filter(p),
            r.len() <= n,
        decreases topic.ring.len() - i,
    {
        let m = topic.ring[i].clone();
        proof {
            lemma_filter_step(all, i as int, p);
        }
        let later = match m.seq {
            Some(seq) => seq > after,
            None => false,
        };
        if later && !young(&m, min_age, now) {
            r.push(m);
        }
        i = i + 1;
    }
    proof {
        lemma_filter_prefix(all, i as int, p);
        if i == all.len() {
            assert(all.take(i as int) == all);
        }
        assert(r@ == first(all.filter(p), n));
    }
    r
}

/// What a reader is shown of a topic, and whether messages were missed.
pub fn items(topic: &Topic, params: &Params, config: &Config, now: u64) -> (r: (Vec<Arc<Message>>, bool))
    ensures
        r.0@ == shown(topic@.ring, params.after, params.min_age, now, page_limit(params.n, config)),
        r.1 == missed(topic@.ring, params.after),
{
    let n: usize = limit(params, config);
    match params.after {
        None => (latest(topic, params.min_age, now, n), false),
        Some(after) => {
            let mut oldest: u64 = 1;
            if topic.ring.len() > 0 {
                if let Some(seq) = topic.ring[0].seq {
                    oldest = seq;
                }
            }
            let gap = after < oldest && oldest - after > 1;
            (following(topic, after, params.min_age, now, n), gap)
        },
    }
}

/// What of the messages that arrived during a wait is shown.
pub open spec fn shown_live(
    arrived: Seq<Arc<Message>>,
    min_age: Option<u64>,
    now: u64,
    n: usize,
) -> Seq<Arc<Message>> {
    first(arrived.filter(visible(min_age, now)), n)
}

/// Picks from the messages that arrived during a wait those to show.
pub fn live_items(arrived: &Vec<Arc<Message>>, params: &Params, config: &Config, now: u64) -> (r: Vec<
    Arc<Message>,
>)
    ensures
        r@ == shown_live(arrived@, params.min_age, now, page_limit(params.n, config)),
{
    let n: usize = limit(params, config);
    let ghost all = arrived@;
    let ghost p = visible(params.min_age, now);
    let mut r: Vec<Arc<Message>> = Vec::new();
    let mut i: usize = 0;
    proof {
        assert(all.take(0).filter(p) == Seq::<Arc<Message>>::empty()) by {
            reveal_with_fuel(Seq::filter, 1);
        }
    }
    while i < arrived.len() && r.len() < n
        invariant
            i <= arrived.len(),
            all == arrived@,
            p == visible(params.min_age, now),
            r@ == all.take(i as int).filter(p),
            r.len() <= n,
        decreases arrived.len() - i,
    {
        let m = arrived[i].clone();
        proof {
            lemma_filter_step(all, i as int, p);
        }
        if !young(&m, params.min_age, now) {
            r.push(m);
        }
        i = i + 1;
    }
    proof {
        lemma_filter_prefix(all, i as int, p);
        if i == all.len() {
            assert(all.take(i as int) == all);
        }
        assert(r@ == first(all.filter(p), n));
    }
    r
}

/// The greatest number among some messages.
pub open spec fn top_seq(messages: Seq<Arc<Message>>) -> Option<u64>
    decreases messages.len(),
{
    if messages.len() == 0 {
        None
    } else {
        match (top_seq(messages.drop_last()), messages.last().seq) {
            (None, last) => last,
            (before, None) => before,
            (Some(before), Some(last)) => Some(
                if last >= before {
                    last
                } else {
                    before
                },
            ),
        }
    }
}

/// The place from which the next read goes on: after the latest message
/// shown, or where this read began.
pub open spec fn next_place(messages: Seq<Arc<Message>>, after: Option<u64>) -> u64 {
    match top_seq(messages) {
        Some(seq) => seq,
        None => match after {
            Some(after) => after,
            None => 0,
        },
    }
}

/// The place from which the next read goes on.
pub fn cursor(messages: &Vec<Arc<Message>>, after: Option<u64>) -> (r: u64)
    ensures
        r == next_place(messages@, after),
{
    let mut top: Option<u64> = None;
    let mut i: usize = 0;
    while i < messages.len()
        invariant
            i <= messages.len(),
            top == top_seq(messages@.take(i as int)),
        decreases messages.len() - i,
    {
        assert(messages@.take(i + 1).drop_last() == messages@.take(i as int));
        match (top, messages[i].seq) {
            (None, last) => {
                top = last;
            },
            (Some(_), None) => {},
            (Some(before), Some(last)) => {
                if last >= before {
                    top = Some(last);
                }
            },
        }
        i = i + 1;
    }
    assert(messages@.take(messages.len() as int) == messages@);
    match top {
        Some(seq) => seq,
        None => match after {
            Some(after) => after,
            None => 0,
        },
    }
}

} // verus!
