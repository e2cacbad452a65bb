//! What readers can rely on: the order of what they are shown, the way from
//! one page to the next, and how a post comes back in a read.

use crate::topic::{
    first, is_young, lesser, missed, newer, next_place, shown, shown_live, top_seq, visible,
    Message, TopicView,
};
use std::sync::Arc;
use vstd::prelude::*;

verus! {

/// Numbered messages in ascending order of their numbers.
pub open spec fn ascending(s: Seq<Arc<Message>>) -> bool {
    &&& forall|i: int| 0 <= i < s.len() ==> (#[trigger] s[i]).seq is Some
    &&& forall|i: int, j: int|
        0 <= i < j < s.len() ==> (#[trigger] s[i]).seq->0 < (#[trigger] s[j]).seq->0
}

/// Whether the message with the given number is among some messages.
pub open spec fn keeps(ring: Seq<Arc<Message>>, number: u64) -> bool {
    exists|i: int| 0 <= i < ring.len() && (#[trigger] ring[i]).seq == Some(number)
}

// ---------------------------------------------------------- about filtering

/// A test that every element passes keeps them all.
proof fn lemma_filter_all<A>(s: Seq<A>, p: spec_fn(A) -> bool)
    requires
        forall|i: int| 0 <= i < s.len() ==> p(#[trigger] s[i]),
    ensures
        s.filter(p) == s,
    decreases s.len(),
{
    reveal(Seq::filter);
    if s.len() > 0 {
        lemma_filter_all(s.drop_last(), p);
        assert(s.drop_last().push(s.last()) == s);
        assert(p(s[s.len() - 1]));
    }
}

/// A test that no element passes keeps none.
proof fn lemma_filter_none<A>(s: Seq<A>, p: spec_fn(A) -> bool)
    requires
        forall|i: int| 0 <= i < s.len() ==> !p(#[trigger] s[i]),
    ensures
        s.filter(p) == Seq::<A>::empty(),
    decreases s.len(),
{
    reveal(Seq::filter);
    if s.len() > 0 {
        lemma_filter_none(s.drop_last(), p);
        assert(!p(s[s.len() - 1]));
    }
}

/// What a filter keeps was there before.
proof fn lemma_filter_from<A>(s: Seq<A>, p: spec_fn(A) -> bool, i: int)
    requires
        0 <= i < s.filter(p).len(),
    ensures
        s.contains(s.filter(p)[i]),
        p(s.filter(p)[i]),
    decreases s.len(),
{
    reveal(Seq::filter);
    if s.len() > 0 {
        let before = s.drop_last().filter(p);
        if i < before.len() {
            lemma_filter_from(s.drop_last(), p, i);
            let j = choose|j: int| 0 <= j < s.drop_last().len() && s.drop_last()[j] == before[i];
            assert(s[j] == before[i]);
        } else {
            assert(s[s.len() - 1] == s.filter(p)[i]);
        }
    }
}

/// Two tests of which the second is the stricter come to the second.
proof fn lemma_filter_twice<A>(s: Seq<A>, p: spec_fn(A) -> bool, q: spec_fn(A) -> bool)
    requires
        forall|a: A| #[trigger] q(a) ==> p(a),
    ensures
        s.filter(p).filter(q) == s.filter(q),
    decreases s.len(),
{
    reveal(Seq::filter);
    if s.len() > 0 {
        lemma_filter_twice(s.drop_last(), p, q);
        let before = s.drop_last().filter(p);
        if p(s.last()) {
            assert(before.push(s.last()).drop_last() == before);
        }
    }
}

/// A filter keeps ascending messages ascending.
proof fn lemma_filter_ascending(s: Seq<Arc<Message>>, p: spec_fn(Arc<Message>) -> bool)
    requires
        ascending(s),
    ensures
        ascending(s.filter(p)),
    decreases s.len(),
{
    reveal(Seq::filter);
    if s.len() > 0 {
        lemma_filter_ascending(s.drop_last(), p);
        let before = s.drop_last().filter(p);
        if p(s.last()) {
            assert forall|i: int| 0 <= i < before.len() implies (#[trigger] before[i]).seq->0
                < s.last().seq->0 by {
                lemma_filter_from(s.drop_last(), p, i);
                let j = choose|j: int|
                    0 <= j < s.drop_last().len() && s.drop_last()[j] == before[i];
                assert(s[j] == before[i]);
                assert(s[s.len() - 1] == s.last());
            }
        }
    }
}

/// The greatest number of ascending messages is that of the last.
proof fn lemma_top_of_ascending(s: Seq<Arc<Message>>)
    requires
        ascending(s),
        s.len() > 0,
    ensures
        top_seq(s) == s.last().seq,
    decreases s.len(),
{
    if s.len() > 1 {
        lemma_top_of_ascending(s.drop_last());
        assert(s.drop_last().last() == s[s.len() - 2]);
        assert(s.last() == s[s.len() - 1]);
    } else {
        assert(top_seq(s.drop_last()) is None);
        assert(s.last() == s[0]);
    }
}

/// The ring of a well-formed topic is ascending.
proof fn lemma_ring_ascending(topic: TopicView, max_n: usize)
    requires
        topic.well_formed(max_n),
    ensures
        ascending(topic.ring),
{
}

// ---------------------------------------------------------------- ordering

/// Without a position the newest messages are shown, newest first: as many as
/// asked for, or all there are.
pub proof fn law_newest_first(topic: TopicView, max_n: usize, now: u64, n: usize)
    requires
        topic.well_formed(max_n),
    ensures
        shown(topic.ring, None, None, now, n).len() == lesser(topic.ring.len() as int, n as int),
        forall|i: int|
            0 <= i < shown(topic.ring, None, None, now, n).len() ==> (#[trigger] shown(
                topic.ring,
                None,
                None,
                now,
                n,
            )[i]).seq == Some((topic.seq - i) as u64),
{
    lemma_filter_all(topic.ring.reverse(), visible(None, now));
}

/// With a position exactly the messages kept after it are shown, oldest
/// first and without a hole: as many as asked for, or all there are.
pub proof fn law_oldest_first(topic: TopicView, max_n: usize, after: u64, now: u64, n: usize)
    requires
        topic.well_formed(max_n),
    ensures
        ({
            let oldest = topic.seq - topic.ring.len() + 1;
            let start = if after + 1 >= oldest {
                after + 1
            } else {
                oldest
            };
            let left = if topic.seq >= start {
                topic.seq - start + 1
            } else {
                0
            };
            let page = shown(topic.ring, Some(after), None, now, n);
            &&& page.len() == lesser(left, n as int)
            &&& forall|i: int|
                0 <= i < page.len() ==> (#[trigger] page[i]).seq == Some((start + i) as u64)
        }),
{
    let ring = topic.ring;
    let p = newer(after, None, now);
    let oldest = topic.seq - ring.len() + 1;
    let k: int = if after + 1 <= oldest {
        0
    } else if after >= topic.seq {
        ring.len() as int
    } else {
        after + 1 - oldest
    };
    assert(ring == ring.take(k) + ring.skip(k));
    Seq::filter_distributes_over_add(ring.take(k), ring.skip(k), p);
    assert forall|i: int| 0 <= i < ring.take(k).len() implies !p(#[trigger] ring.take(k)[i]) by {
        assert(ring[i].seq == Some((oldest + i) as u64));
    }
    lemma_filter_none(ring.take(k), p);
    assert forall|i: int| 0 <= i < ring.skip(k).len() implies p(#[trigger] ring.skip(k)[i]) by {
        assert(ring[k + i].seq == Some((oldest + k + i) as u64));
    }
    lemma_filter_all(ring.skip(k), p);
    assert(ring.filter(p) == ring.skip(k));
    let page = shown(ring, Some(after), None, now, n);
    assert forall|i: int| 0 <= i < page.len() implies (#[trigger] page[i]).seq == Some(
        (oldest + k + i) as u64,
    ) by {
        assert(page[i] == ring[k + i]);
    }
}

/// A gap is reported exactly when some message after the position was kept
/// once and is kept no longer.
pub proof fn law_gap(topic: TopicView, max_n: usize, after: u64)
    requires
        topic.well_formed(max_n),
        max_n >= 1,
    ensures
        missed(topic.ring, Some(after)) <==> exists|lost: u64|
            after < lost <= topic.seq && !(#[trigger] keeps(topic.ring, lost)),
{
    let ring = topic.ring;
    if ring.len() > 0 {
        let oldest = topic.seq - ring.len() + 1;
        assert(ring[0].seq == Some(oldest as u64));
        if missed(ring, Some(after)) {
            let lost = (after + 1) as u64;
            assert forall|i: int| 0 <= i < ring.len() implies (#[trigger] ring[i]).seq != Some(
                lost,
            ) by {
                assert(ring[i].seq == Some((oldest + i) as u64));
            }
            assert(!keeps(ring, lost));
            assert(after < lost <= topic.seq);
        } else {
            assert forall|lost: u64| after < lost <= topic.seq implies #[trigger] keeps(ring, lost) by {
                let i = lost - oldest;
                assert(ring[i].seq == Some((oldest + i) as u64));
            }
        }
    }
}

// ------------------------------------------------------------------ paging

/// Going on after a page shows what the page left over: no message twice, and
/// none left out.
pub proof fn law_pages_follow(
    topic: TopicView,
    max_n: usize,
    after: u64,
    min_age: Option<u64>,
    now: u64,
    n: usize,
)
    requires
        topic.well_formed(max_n),
    ensures
        ({
            let page = shown(topic.ring, Some(after), min_age, now, n);
            let place = next_place(page, Some(after));
            topic.ring.filter(newer(after, min_age, now)) == page + topic.ring.filter(
                newer(place, min_age, now),
            )
        }),
{
    let ring = topic.ring;
    let p = newer(after, min_age, now);
    let all = ring.filter(p);
    let page = shown(ring, Some(after), min_age, now, n);
    let place = next_place(page, Some(after));
    let q = newer(place, min_age, now);
    lemma_ring_ascending(topic, max_n);
    lemma_filter_ascending(ring, p);
    if page.len() == 0 {
        assert(top_seq(page) is None);
        assert(all == page + ring.filter(q));
    } else {
        let k = page.len() as int;
        assert(ascending(page)) by {
            assert forall|i: int| 0 <= i < page.len() implies (#[trigger] page[i]).seq is Some by {
                assert(page[i] == all[i]);
            }
            assert forall|i: int, j: int| 0 <= i < j < page.len() implies (#[trigger] page[i]).seq->0
                < (#[trigger] page[j]).seq->0 by {
                assert(page[i] == all[i]);
                assert(page[j] == all[j]);
            }
        }
        lemma_top_of_ascending(page);
        assert(page.last() == all[k - 1]);
        lemma_filter_from(ring, p, k - 1);
        assert(place == all[k - 1].seq->0);
        assert(place > after);
        assert forall|m: Arc<Message>| #[trigger] q(m) implies p(m) by {}
        lemma_filter_twice(ring, p, q);
        assert(all == all.take(k) + all.skip(k));
        Seq::filter_distributes_over_add(all.take(k), all.skip(k), q);
        assert forall|i: int| 0 <= i < all.take(k).len() implies !q(#[trigger] all.take(k)[i]) by {
            if i < k - 1 {
                assert(all[i].seq->0 < all[k - 1].seq->0);
            }
        }
        lemma_filter_none(all.take(k), q);
        assert forall|i: int| 0 <= i < all.skip(k).len() implies q(#[trigger] all.skip(k)[i]) by {
            assert(all[k - 1].seq->0 < all[k + i].seq->0);
            lemma_filter_from(ring, p, k + i);
        }
        lemma_filter_all(all.skip(k), q);
        assert(page == all.take(k));
    }
}

/// A reader who asks for anything at all gets on: a page is empty only when
/// nothing is left to show.
pub proof fn law_pages_advance(ring: Seq<Arc<Message>>, after: u64, min_age: Option<u64>, now: u64, n: usize)
    requires
        n >= 1,
    ensures
        shown(ring, Some(after), min_age, now, n).len() == 0 <==> ring.filter(
            newer(after, min_age, now),
        ).len() == 0,
{
}

/// A page with nothing on it sends the reader back to the same position.
pub proof fn law_empty_page_stays(after: Option<u64>)
    ensures
        next_place(Seq::<Arc<Message>>::empty(), after) == match after {
            Some(after) => after,
            None => 0,
        },
{
}

/// A page never holds more than was asked for, and never a message whose
/// sender is too young or that the ring does not hold.
pub proof fn law_pages_are_bounded(
    ring: Seq<Arc<Message>>,
    after: Option<u64>,
    min_age: Option<u64>,
    now: u64,
    n: usize,
)
    ensures
        shown(ring, after, min_age, now, n).len() <= n,
        forall|i: int|
            0 <= i < shown(ring, after, min_age, now, n).len() ==> {
                let m = #[trigger] shown(ring, after, min_age, now, n)[i];
                !is_young(*m, min_age, now) && ring.contains(m)
            },
{
    let page = shown(ring, after, min_age, now, n);
    assert forall|i: int| 0 <= i < page.len() implies !is_young(*(#[trigger] page[i]), min_age, now)
        && ring.contains(page[i]) by {
        match after {
            None => {
                lemma_filter_from(ring.reverse(), visible(min_age, now), i);
                let j = choose|j: int|
                    0 <= j < ring.reverse().len() && ring.reverse()[j] == page[i];
                assert(ring[ring.len() - 1 - j] == page[i]);
            },
            Some(after) => {
                lemma_filter_from(ring, newer(after, min_age, now), i);
            },
        }
    }
}

// --------------------------------------------------------------------- age

/// Asking for no age hides nobody.
pub proof fn law_no_age_hides_nobody(message: Message, now: u64)
    ensures
        !is_young(message, None, now),
        !is_young(message, Some(0), now),
{
}

/// Whoever is old enough stays so: as time goes by, and for readers who ask
/// for less.
pub proof fn law_age_only_grows(message: Message, age: u64, less: u64, now: u64, later: u64)
    requires
        !is_young(message, Some(age), now),
        less <= age,
        now <= later,
    ensures
        !is_young(message, Some(less), later),
{
}

// -------------------------------------------------------- posts and readers

/// The last message is the first when going back from the end.
proof fn lemma_last_is_newest(old: Seq<Arc<Message>>, message: Arc<Message>, p: spec_fn(Arc<Message>) -> bool)
    requires
        p(message),
    ensures
        old.push(message).reverse().filter(p) == seq![message] + old.reverse().filter(p),
{
    assert(old.push(message).reverse() =~= seq![message] + old.reverse());
    Seq::filter_distributes_over_add(seq![message], old.reverse(), p);
    lemma_filter_all(seq![message], p);
}

/// A message that alone passes a test is all that the test keeps.
proof fn lemma_last_alone(old: Seq<Arc<Message>>, message: Arc<Message>, q: spec_fn(Arc<Message>) -> bool)
    requires
        q(message),
        forall|i: int| 0 <= i < old.len() ==> !q(#[trigger] old[i]),
    ensures
        old.push(message).filter(q) == seq![message],
{
    assert(old.push(message) =~= old + seq![message]);
    Seq::filter_distributes_over_add(old, seq![message], q);
    lemma_filter_none(old, q);
    lemma_filter_all(seq![message], q);
}

/// A post puts its message behind what is kept of the earlier ones.
proof fn lemma_ring_after_post(topic: TopicView, message: Arc<Message>, max_n: usize) -> (old: Seq<
    Arc<Message>,
>)
    requires
        topic.well_formed(max_n),
        max_n >= 1,
        message.seq is Some,
    ensures
        topic.with_message(message, max_n).ring == old.push(message),
        forall|i: int|
            0 <= i < old.len() ==> ((#[trigger] old[i]).seq matches Some(seq) && seq <= topic.seq),
{
    if topic.ring.len() + 1 > max_n {
        let old = topic.ring.drop_first();
        assert(topic.ring.push(message).drop_first() =~= old.push(message));
        assert forall|i: int| 0 <= i < old.len() implies ((#[trigger] old[i]).seq matches Some(seq)
            && seq <= topic.seq) by {
            assert(old[i] == topic.ring[i + 1]);
        }
        old
    } else {
        topic.ring
    }
}

/// A message that was kept is the first that a reader of the newest messages
/// is shown.
pub proof fn law_post_is_newest(
    topic: TopicView,
    message: Arc<Message>,
    max_n: usize,
    min_age: Option<u64>,
    now: u64,
    n: usize,
)
    requires
        topic.well_formed(max_n),
        max_n >= 1,
        topic.seq < u64::MAX,
        message.seq == topic.next_seq(false),
        !is_young(*message, min_age, now),
        n >= 1,
    ensures
        shown(topic.with_message(message, max_n).ring, None, min_age, now, n).len() >= 1,
        shown(topic.with_message(message, max_n).ring, None, min_age, now, n)[0] == message,
{
    let old = lemma_ring_after_post(topic, message, max_n);
    lemma_last_is_newest(old, message, visible(min_age, now));
}

/// A message that was kept is all that a reader is shown who has seen
/// everything before it.
pub proof fn law_post_is_next(
    topic: TopicView,
    message: Arc<Message>,
    max_n: usize,
    min_age: Option<u64>,
    now: u64,
    n: usize,
)
    requires
        topic.well_formed(max_n),
        max_n >= 1,
        topic.seq < u64::MAX,
        message.seq == topic.next_seq(false),
        !is_young(*message, min_age, now),
        n >= 1,
    ensures
        shown(topic.with_message(message, max_n).ring, Some(topic.seq), min_age, now, n) == seq![
            message,
        ],
{
    let old = lemma_ring_after_post(topic, message, max_n);
    let q = newer(topic.seq, min_age, now);
    assert forall|i: int| 0 <= i < old.len() implies !q(#[trigger] old[i]) by {}
    lemma_last_alone(old, message, q);
    assert(seq![message].take(1) =~= seq![message]);
}

/// A message that is not kept leaves no trace in what readers are shown.
pub proof fn law_ephemeral_is_not_read(topic: TopicView, message: Arc<Message>, max_n: usize)
    requires
        message.seq == topic.next_seq(true),
    ensures
        topic.with_message(message, max_n) == topic,
{
}

/// What arrives during a wait is shown as a read would show it: the same
/// messages in the same order, under the same limits.
pub proof fn law_wait_shows_as_read(
    arrived: Seq<Arc<Message>>,
    after: u64,
    min_age: Option<u64>,
    now: u64,
    n: usize,
)
    requires
        forall|i: int|
            0 <= i < arrived.len() ==> ((#[trigger] arrived[i]).seq matches Some(seq) && seq > after),
    ensures
        shown_live(arrived, min_age, now, n) == shown(arrived, Some(after), min_age, now, n),
{
    lemma_filter_same(arrived, visible(min_age, now), newer(after, min_age, now));
}

/// Tests that agree on every element keep the same.
proof fn lemma_filter_same<A>(s: Seq<A>, p: spec_fn(A) -> bool, q: spec_fn(A) -> bool)
    requires
        forall|i: int| 0 <= i < s.len() ==> p(#[trigger] s[i]) == q(s[i]),
    ensures
        s.filter(p) == s.filter(q),
    decreases s.len(),
{
    reveal(Seq::filter);
    if s.len() > 0 {
        lemma_filter_same(s.drop_last(), p, q);
        assert(p(s[s.len() - 1]) == q(s[s.len() - 1]));
    }
}

/// What is shown of the messages that arrived during a wait arrived, comes
/// from senders old enough, and is no more than was asked for.
pub proof fn law_live_pages_are_bounded(
    arrived: Seq<Arc<Message>>,
    min_age: Option<u64>,
    now: u64,
    n: usize,
)
    ensures
        shown_live(arrived, min_age, now, n).len() <= n,
        forall|i: int|
            0 <= i < shown_live(arrived, min_age, now, n).len() ==> {
                let m = #[trigger] shown_live(arrived, min_age, now, n)[i];
                !is_young(*m, min_age, now) && arrived.contains(m)
            },
{
    let page = shown_live(arrived, min_age, now, n);
    assert forall|i: int| 0 <= i < page.len() implies !is_young(*(#[trigger] page[i]), min_age, now)
        && arrived.contains(page[i]) by {
        lemma_filter_from(arrived, visible(min_age, now), i);
    }
}

// ------------------------------------------------------- what pages consist of

/// Where in a sequence the elements stand that pass a test, from the first to
/// the last.
proof fn lemma_filter_positions<A>(s: Seq<A>, p: spec_fn(A) -> bool) -> (at: Seq<int>)
    ensures
        at.len() == s.filter(p).len(),
        forall|i: int|
            0 <= i < at.len() ==> 0 <= #[trigger] at[i] < s.len() && s.filter(p)[i] == s[at[i]] && p(
                s[at[i]],
            ),
        forall|i: int, j: int| 0 <= i < j < at.len() ==> #[trigger] at[i] < #[trigger] at[j],
        forall|k: int| 0 <= k < s.len() && p(#[trigger] s[k]) ==> at.contains(k),
    decreases s.len(),
{
    reveal(Seq::filter);
    if s.len() == 0 {
        Seq::empty()
    } else {
        let before = lemma_filter_positions(s.drop_last(), p);
        let last = s.len() - 1;
        let at = if p(s.last()) {
            before.push(last)
        } else {
            before
        };
        assert forall|k: int| 0 <= k < s.len() && p(#[trigger] s[k]) implies at.contains(k) by {
            if k < last {
                assert(p(s.drop_last()[k]));
                assert(before.contains(k));
                let i = choose|i: int| 0 <= i < before.len() && before[i] == k;
                assert(at[i] == k);
            } else {
                assert(at[at.len() - 1] == k);
            }
        }
        at
    }
}

/// A message is hidden exactly if an age is asked for and the sender was
/// registered less than that long ago.
pub proof fn law_hidden_senders(message: Message, age: u64, now: u64)
    ensures
        is_young(message, Some(age), now) <==> age > 0 && now < message.sender_since + age,
        !is_young(message, None, now),
{
}

/// A page of the newest messages consists of kept messages whose senders are
/// old enough, from the newest back, and leaves out none of them but, when it
/// is full, those older than all that it holds.
pub proof fn law_newest_page(topic: TopicView, max_n: usize, min_age: Option<u64>, now: u64, n: usize)
    requires
        topic.well_formed(max_n),
    ensures
        ({
            let page = shown(topic.ring, None, min_age, now, n);
            &&& page.len() <= n
            &&& forall|i: int|
                0 <= i < page.len() ==> {
                    &&& topic.ring.contains(#[trigger] page[i])
                    &&& page[i].seq is Some
                    &&& min_age matches Some(age) ==> age == 0 || page[i].sender_since + age <= now
                }
            &&& forall|i: int, j: int|
                0 <= i < j < page.len() ==> (#[trigger] page[i]).seq->0 > (#[trigger] page[j]).seq->0
            &&& forall|k: int|
                0 <= k < topic.ring.len() && (min_age is None || min_age->0 == 0 || (
                #[trigger] topic.ring[k]).sender_since + min_age->0 <= now) ==> page.contains(
                    topic.ring[k],
                ) || (page.len() == n && forall|i: int|
                    0 <= i < page.len() ==> (#[trigger] page[i]).seq->0 > topic.ring[k].seq->0)
        }),
{
    let ring = topic.ring;
    let back = ring.reverse();
    let p = visible(min_age, now);
    let all = back.filter(p);
    let page = shown(ring, None, min_age, now, n);
    let at = lemma_filter_positions(back, p);
    assert forall|i: int| 0 <= i < page.len() implies ring.contains(#[trigger] page[i])
        && page[i].seq is Some && (min_age matches Some(age) ==> age == 0 || page[i].sender_since + age
        <= now) by {
        assert(page[i] == all[i]);
        assert(page[i] == back[at[i]]);
        assert(ring[ring.len() - 1 - at[i]] == page[i]);
    }
    assert forall|i: int, j: int| 0 <= i < j < page.len() implies (#[trigger] page[i]).seq->0 > (
    #[trigger] page[j]).seq->0 by {
        assert(page[i] == back[at[i]] && page[j] == back[at[j]]);
        assert(at[i] < at[j]);
        assert(page[i] == ring[ring.len() - 1 - at[i]]);
        assert(page[j] == ring[ring.len() - 1 - at[j]]);
    }
    assert forall|k: int|
        0 <= k < ring.len() && (min_age is None || min_age->0 == 0 || (
        #[trigger] ring[k]).sender_since + min_age->0 <= now) implies page.contains(ring[k]) || (
    page.len() == n && forall|i: int|
        0 <= i < page.len() ==> (#[trigger] page[i]).seq->0 > ring[k].seq->0) by {
        let b = ring.len() - 1 - k;
        assert(back[b] == ring[k]);
        assert(p(back[b]));
        assert(at.contains(b));
        let t = choose|t: int| 0 <= t < at.len() && at[t] == b;
        if t < page.len() {
            assert(page[t] == ring[k]);
        } else {
            assert forall|i: int| 0 <= i < page.len() implies (#[trigger] page[i]).seq->0
                > ring[k].seq->0 by {
                assert(at[i] < at[t]);
                assert(page[i] == back[at[i]]);
                assert(page[i] == ring[ring.len() - 1 - at[i]]);
            }
        }
    }
}

/// A page after a position consists of kept messages behind it whose senders
/// are old enough, from the oldest on, and leaves out none of them but, when
/// it is full, those newer than all that it holds.
pub proof fn law_following_page(
    topic: TopicView,
    max_n: usize,
    after: u64,
    min_age: Option<u64>,
    now: u64,
    n: usize,
)
    requires
        topic.well_formed(max_n),
    ensures
        ({
            let page = shown(topic.ring, Some(after), min_age, now, n);
            &&& page.len() <= n
            &&& forall|i: int|
                0 <= i < page.len() ==> {
                    &&& topic.ring.contains(#[trigger] page[i])
                    &&& page[i].seq is Some
                    &&& page[i].seq->0 > after
                    &&& min_age matches Some(age) ==> age == 0 || page[i].sender_since + age <= now
                }
            &&& forall|i: int, j: int|
                0 <= i < j < page.len() ==> (#[trigger] page[i]).seq->0 < (#[trigger] page[j]).seq->0
            &&& forall|k: int|
                0 <= k < topic.ring.len() && (#[trigger] topic.ring[k]).seq->0 > after && (min_age
                    is None || min_age->0 == 0 || topic.ring[k].sender_since + min_age->0 <= now)
                    ==> page.contains(topic.ring[k]) || (page.len() == n && forall|i: int|
                    0 <= i < page.len() ==> (#[trigger] page[i]).seq->0 < topic.ring[k].seq->0)
        }),
{
    let ring = topic.ring;
    let p = newer(after, min_age, now);
    let all = ring.filter(p);
    let page = shown(ring, Some(after), min_age, now, n);
    let at = lemma_filter_positions(ring, p);
    assert forall|i: int| 0 <= i < page.len() implies ring.contains(#[trigger] page[i])
        && page[i].seq is Some && page[i].seq->0 > after && (min_age matches Some(age) ==> age == 0
        || page[i].sender_since + age <= now) by {
        assert(page[i] == all[i]);
        assert(page[i] == ring[at[i]]);
    }
    assert forall|i: int, j: int| 0 <= i < j < page.len() implies (#[trigger] page[i]).seq->0 < (
    #[trigger] page[j]).seq->0 by {
        assert(page[i] == ring[at[i]] && page[j] == ring[at[j]]);
        assert(at[i] < at[j]);
    }
    assert forall|k: int|
        0 <= k < ring.len() && (#[trigger] ring[k]).seq->0 > after && (min_age is None || min_age->0
            == 0 || ring[k].sender_since + min_age->0 <= now) implies page.contains(ring[k]) || (
    page.len() == n && forall|i: int|
        0 <= i < page.len() ==> (#[trigger] page[i]).seq->0 < ring[k].seq->0) by {
        assert(ring[k].seq is Some);
        assert(p(ring[k]));
        assert(at.contains(k));
        let t = choose|t: int| 0 <= t < at.len() && at[t] == k;
        if t < page.len() {
            assert(page[t] == ring[k]);
        } else {
            assert forall|i: int| 0 <= i < page.len() implies (#[trigger] page[i]).seq->0
                < ring[k].seq->0 by {
                assert(at[i] < at[t]);
                assert(page[i] == ring[at[i]]);
            }
        }
    }
}

/// What is shown of the messages that arrived during a wait are those whose
/// senders are old enough, in the order in which they arrived, and none is
/// left out but, when the page is full, those that arrived behind all that it
/// holds.
pub proof fn law_live_page(arrived: Seq<Arc<Message>>, min_age: Option<u64>, now: u64, n: usize)
    ensures
        shown_live(arrived, min_age, now, n).len() <= n,
        exists|at: Seq<int>|
            {
                let page = shown_live(arrived, min_age, now, n);
                &&& #[trigger] at.len() == page.len()
                &&& forall|i: int|
                    0 <= i < at.len() ==> {
                        &&& 0 <= #[trigger] at[i] < arrived.len()
                        &&& page[i] == arrived[at[i]]
                        &&& min_age matches Some(age) ==> age == 0 || page[i].sender_since + age
                            <= now
                    }
                &&& forall|i: int, j: int|
                    0 <= i < j < at.len() ==> #[trigger] at[i] < #[trigger] at[j]
                &&& forall|k: int|
                    0 <= k < arrived.len() && (min_age is None || min_age->0 == 0 || (
                    #[trigger] arrived[k]).sender_since + min_age->0 <= now) ==> at.contains(k) || (
                    page.len() == n && forall|i: int| 0 <= i < at.len() ==> #[trigger] at[i] < k)
            },
{
    let p = visible(min_age, now);
    let all = lemma_filter_positions(arrived, p);
    let page = shown_live(arrived, min_age, now, n);
    let at = all.take(page.len() as int);
    assert forall|i: int| 0 <= i < at.len() implies 0 <= #[trigger] at[i] < arrived.len() && page[i]
        == arrived[at[i]] && (min_age matches Some(age) ==> age == 0 || page[i].sender_since + age
        <= now) by {
        assert(at[i] == all[i]);
    }
    assert forall|k: int|
        0 <= k < arrived.len() && (min_age is None || min_age->0 == 0 || (
        #[trigger] arrived[k]).sender_since + min_age->0 <= now) implies at.contains(k) || (page.len()
        == n && forall|i: int| 0 <= i < at.len() ==> #[trigger] at[i] < k) by {
        assert(p(arrived[k]));
        assert(all.contains(k));
        let t = choose|t: int| 0 <= t < all.len() && all[t] == k;
        if t < page.len() {
            assert(at[t] == k);
        } else {
            assert forall|i: int| 0 <= i < at.len() implies #[trigger] at[i] < k by {
                assert(at[i] == all[i]);
                assert(all[i] < all[t]);
            }
        }
    }
    assert(at.len() == page.len());
}

/// The place to go on from is the greatest number on a page. Where no message
/// on it has a number, it is the place where the reader began, or zero.
pub proof fn law_next_place_is_greatest(messages: Seq<Arc<Message>>, after: Option<u64>)
    ensures
        forall|i: int|
            0 <= i < messages.len() && (#[trigger] messages[i]).seq is Some ==> messages[i].seq->0
                <= next_place(messages, after),
        (exists|i: int| 0 <= i < messages.len() && (#[trigger] messages[i]).seq is Some) ==> keeps(
            messages,
            next_place(messages, after),
        ),
        (forall|i: int| 0 <= i < messages.len() ==> (#[trigger] messages[i]).seq is None) ==> (
        after is Some ==> next_place(messages, after) == after->0) && (after is None ==> next_place(
            messages,
            after,
        ) == 0),
{
    lemma_top_is_greatest(messages);
}

/// The greatest number among some messages is one of theirs, and none is
/// greater.
proof fn lemma_top_is_greatest(messages: Seq<Arc<Message>>)
    ensures
        top_seq(messages) matches Some(top) ==> keeps(messages, top) && forall|i: int|
            0 <= i < messages.len() && (#[trigger] messages[i]).seq is Some ==> messages[i].seq->0
                <= top,
        top_seq(messages) is None ==> forall|i: int|
            0 <= i < messages.len() ==> (#[trigger] messages[i]).seq is None,
    decreases messages.len(),
{
    if messages.len() > 0 {
        let less = messages.drop_last();
        let k = messages.len() - 1;
        lemma_top_is_greatest(less);
        assert(messages.last() == messages[k]);
        assert forall|i: int| 0 <= i < messages.len() && i < k implies messages[i] == less[i] by {}
        if let Some(top) = top_seq(messages) {
            if messages[k].seq == Some(top) {
                assert(keeps(messages, top));
            } else {
                assert(keeps(less, top));
                let i = choose|i: int| 0 <= i < less.len() && (#[trigger] less[i]).seq == Some(top);
                assert(messages[i].seq == Some(top));
            }
            assert forall|i: int|
                0 <= i < messages.len() && (#[trigger] messages[i]).seq is Some implies messages[i].seq->0
                <= top by {
                if i < k {
                    assert(less[i].seq is Some);
                }
            }
        } else {
            assert forall|i: int| 0 <= i < messages.len() implies (#[trigger] messages[i]).seq is None by {
                if i < k {
                    assert(less[i].seq is None);
                }
            }
        }
    }
}

/// A reader of the newest messages goes on after the first of them.
pub proof fn law_newest_page_leads_on(
    topic: TopicView,
    max_n: usize,
    min_age: Option<u64>,
    now: u64,
    n: usize,
)
    requires
        topic.well_formed(max_n),
        shown(topic.ring, None, min_age, now, n).len() > 0,
    ensures
        shown(topic.ring, None, min_age, now, n)[0].seq == Some(
            next_place(shown(topic.ring, None, min_age, now, n), None),
        ),
        min_age is None ==> next_place(shown(topic.ring, None, min_age, now, n), None) == topic.seq,
{
    let page = shown(topic.ring, None, min_age, now, n);
    let place = next_place(page, None);
    law_newest_page(topic, max_n, min_age, now, n);
    law_next_place_is_greatest(page, None);
    assert(page[0].seq is Some);
    let i = choose|i: int| 0 <= i < page.len() && (#[trigger] page[i]).seq == Some(place);
    if i > 0 {
        assert(page[0].seq->0 > page[i].seq->0);
    }
    if min_age is None {
        law_newest_first(topic, max_n, now, n);
    }
}

/// From the latest message on there is nothing to show and nothing missed.
pub proof fn law_nothing_follows_the_latest(
    topic: TopicView,
    max_n: usize,
    after: u64,
    min_age: Option<u64>,
    now: u64,
    n: usize,
)
    requires
        topic.well_formed(max_n),
        after >= topic.seq,
    ensures
        shown(topic.ring, Some(after), min_age, now, n).len() == 0,
        !missed(topic.ring, Some(after)),
{
    let page = shown(topic.ring, Some(after), min_age, now, n);
    law_following_page(topic, max_n, after, min_age, now, n);
    if page.len() > 0 {
        let m = page[0];
        assert(topic.ring.contains(m));
        let k = choose|k: int| 0 <= k < topic.ring.len() && topic.ring[k] == m;
        assert(topic.ring[k].seq->0 <= topic.seq);
    }
    if topic.ring.len() > 0 {
        assert(topic.ring[0].seq->0 <= topic.seq);
    }
}

/// A message that is kept is the last of the ring, and the ring keeps as many
/// of the latest before it as there is room for. One that is not kept changes
/// nothing.
pub proof fn law_ring_keeps_the_latest(topic: TopicView, message: Arc<Message>, max_n: usize)
    requires
        topic.ring.len() <= max_n,
    ensures
        message.seq matches Some(seq) ==> {
            let all = topic.ring.push(message);
            let over = if all.len() > max_n {
                all.len() - max_n
            } else {
                0
            };
            &&& topic.with_message(message, max_n).ring == all.skip(over)
            &&& topic.with_message(message, max_n).seq == seq
        },
        message.seq is None ==> topic.with_message(message, max_n) == topic,
        topic.with_message(message, max_n).tx == topic.tx,
        topic.with_message(message, max_n).bucket == topic.bucket,
{
    let all = topic.ring.push(message);
    if all.len() > max_n {
        assert(all.drop_first() =~= all.skip(1));
    } else {
        assert(all.skip(0) =~= all);
    }
}

/// The next message that is kept gets the number after the latest, and one
/// that is not kept gets none.
pub proof fn law_next_number(topic: TopicView)
    requires
        topic.seq < u64::MAX,
    ensures
        topic.next_seq(true) is None,
        topic.next_seq(false) matches Some(seq) && seq - topic.seq == 1,
{
}

/// A topic keeps its latest messages: all that have a number while they fit,
/// and otherwise as many as it may; the last of them has the latest number,
/// and each the number after the one before it.
pub proof fn law_ring_is_the_tail(topic: TopicView, max_n: usize)
    requires
        topic.well_formed(max_n),
    ensures
        topic.seq <= max_n ==> topic.ring.len() == topic.seq,
        topic.seq > max_n ==> topic.ring.len() == max_n,
        topic.ring.len() > 0 ==> topic.ring.last().seq == Some(topic.seq),
        forall|i: int|
            0 < i < topic.ring.len() ==> (#[trigger] topic.ring[i]).seq->0 == topic.ring[i - 1].seq->0
                + 1,
{
}

} // verus!
